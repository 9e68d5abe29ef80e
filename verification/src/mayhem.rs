//! ARAM Mayhem augment recommendations: the OP.GG page parser, the text
//! rules that name, rank and describe an augment, and the assembly of the
//! final list from the ranking data, the page and the client catalog.

use std::collections::{HashMap, HashSet};

use vstd::prelude::*;

use crate::pattern::{
    compile_pattern, json_string, json_string_from_str, named_captures, regex_is_valid,
    regex_named_captures, regex_replace_all, replace_all,
};
use crate::text::{
    ascii_lower_chars, ascii_lower_seq, chars_of, contains_str, copy_range,
    i64_decimal, parse_i32, parse_i64, seq_contains, signed_decimal, spec_parse_i32,
    spec_parse_i64, spec_trim, str_equal, string_from_chars, trim_str,
};

verus! {

broadcast use vstd::std_specs::hash::group_hash_axioms;

/// The OP.GG page slug of a champion alias.
pub open spec fn spec_champion_slug(alias: Seq<char>) -> Seq<char> {
    if alias == "MonkeyKing"@ {
        "wukong"@
    } else if alias == "KSante"@ {
        "ksante"@
    } else if alias == "Kaisa"@ {
        "kaisa"@
    } else if alias == "Khazix"@ {
        "khazix"@
    } else if alias == "Velkoz"@ {
        "velkoz"@
    } else if alias == "RekSai"@ {
        "reksai"@
    } else if alias == "Belveth"@ {
        "belveth"@
    } else if alias == "Chogath"@ {
        "chogath"@
    } else {
        ascii_lower_seq(alias)
    }
}

/// The OP.GG page slug of a champion alias: a few aliases have their own
/// slug, the rest are the alias in ASCII lower case.
pub fn champion_slug(alias: &str) -> (res: String)
    ensures
        res@ == spec_champion_slug(alias@),
{
    if str_equal(alias, "MonkeyKing") {
        "wukong".to_owned()
    } else if str_equal(alias, "KSante") {
        "ksante".to_owned()
    } else if str_equal(alias, "Kaisa") {
        "kaisa".to_owned()
    } else if str_equal(alias, "Khazix") {
        "khazix".to_owned()
    } else if str_equal(alias, "Velkoz") {
        "velkoz".to_owned()
    } else if str_equal(alias, "RekSai") {
        "reksai".to_owned()
    } else if str_equal(alias, "Belveth") {
        "belveth".to_owned()
    } else if str_equal(alias, "Chogath") {
        "chogath".to_owned()
    } else {
        let lower = ascii_lower_chars(&chars_of(alias));
        string_from_chars(lower.as_slice())
    }
}

/// The rarity label of a numeric rarity code on the OP.GG page.
pub open spec fn spec_rarity_from_code(code: i32) -> Seq<char> {
    if code == 4 {
        "Gold"@
    } else if code == 8 {
        "Prismatic"@
    } else {
        "Silver"@
    }
}

pub fn rarity_label_from_code(code: i32) -> (res: &'static str)
    ensures
        res@ == spec_rarity_from_code(code),
{
    match code {
        4 => "Gold",
        8 => "Prismatic",
        _ => "Silver",
    }
}

/// The rarity label of a rarity key in the client catalog; empty for a key
/// that names no known rarity.
pub open spec fn spec_rarity_from_key(key: Seq<char>) -> Seq<char> {
    if key == "kGold"@ || key == "Gold"@ {
        "Gold"@
    } else if key == "kPrismatic"@ || key == "Prismatic"@ {
        "Prismatic"@
    } else if key == "kSilver"@ || key == "kBronze"@ || key == "Silver"@ {
        "Silver"@
    } else {
        ""@
    }
}

pub fn rarity_label_from_key(key: &str) -> (res: &'static str)
    ensures
        res@ == spec_rarity_from_key(key@),
{
    if str_equal(key, "kGold") || str_equal(key, "Gold") {
        "Gold"
    } else if str_equal(key, "kPrismatic") || str_equal(key, "Prismatic") {
        "Prismatic"
    } else if str_equal(key, "kSilver") || str_equal(key, "kBronze") || str_equal(key, "Silver") {
        "Silver"
    } else {
        ""
    }
}

/// A name that is still an untranslated string-table key.
pub open spec fn spec_looks_like_string_key(value: Seq<char>) -> bool {
    ||| seq_contains(value, "Augment_"@)
    ||| seq_contains(value, "augment_"@)
    ||| seq_contains(value, "ARAM_"@)
    ||| seq_contains(value, "StringTable"@)
}

pub fn looks_like_string_key(value: &str) -> (res: bool)
    ensures
        res == spec_looks_like_string_key(value@),
{
    let v = chars_of(value);
    contains_str(&v, "Augment_") || contains_str(&v, "augment_") || contains_str(&v, "ARAM_")
        || contains_str(&v, "StringTable")
}

/// A short summary of what an augment favours, guessed from key words in its
/// name; the first group of key words that matches decides.
pub open spec fn spec_summary_from_name(name: Seq<char>) -> Seq<char> {
    if seq_contains(name, "暴击"@) || seq_contains(name, "会心"@) || seq_contains(name, "无尽"@) {
        "偏暴击 / 暴击收益"@
    } else if seq_contains(name, "攻速"@) || seq_contains(name, "快射"@) || seq_contains(name, "双刀"@)
        || seq_contains(name, "狂热"@) {
        "偏攻速 / 普攻强化"@
    } else if seq_contains(name, "吸血"@) || seq_contains(name, "治疗"@) || seq_contains(name, "再生"@)
        || seq_contains(name, "渴血"@) || seq_contains(name, "虹吸"@) {
        "回复 / 吸血 / 生存"@
    } else if seq_contains(name, "速度"@) || seq_contains(name, "移速"@) || seq_contains(name, "闪现"@)
        || seq_contains(name, "踢踏"@) {
        "移速 / 机动性"@
    } else if seq_contains(name, "护盾"@) || seq_contains(name, "防御"@) || seq_contains(name, "巨人"@)
        || seq_contains(name, "生命"@) {
        "生命 / 防御 / 坦度"@
    } else if seq_contains(name, "循环"@) || seq_contains(name, "终极"@) || seq_contains(name, "技能"@) {
        "技能循环 / 技能急速"@
    } else if seq_contains(name, "法术"@) || seq_contains(name, "魔法"@) || seq_contains(name, "耀光"@) {
        "法术 / 技能伤害"@
    } else {
        "英雄适配型强化"@
    }
}

pub fn summary_from_name(name: &str) -> (res: &'static str)
    ensures
        res@ == spec_summary_from_name(name@),
{
    let n = chars_of(name);
    if contains_str(&n, "暴击") || contains_str(&n, "会心") || contains_str(&n, "无尽") {
        "偏暴击 / 暴击收益"
    } else if contains_str(&n, "攻速") || contains_str(&n, "快射") || contains_str(&n, "双刀")
        || contains_str(&n, "狂热") {
        "偏攻速 / 普攻强化"
    } else if contains_str(&n, "吸血") || contains_str(&n, "治疗") || contains_str(&n, "再生")
        || contains_str(&n, "渴血") || contains_str(&n, "虹吸") {
        "回复 / 吸血 / 生存"
    } else if contains_str(&n, "速度") || contains_str(&n, "移速") || contains_str(&n, "闪现")
        || contains_str(&n, "踢踏") {
        "移速 / 机动性"
    } else if contains_str(&n, "护盾") || contains_str(&n, "防御") || contains_str(&n, "巨人")
        || contains_str(&n, "生命") {
        "生命 / 防御 / 坦度"
    } else if contains_str(&n, "循环") || contains_str(&n, "终极") || contains_str(&n, "技能") {
        "技能循环 / 技能急速"
    } else if contains_str(&n, "法术") || contains_str(&n, "魔法") || contains_str(&n, "耀光") {
        "法术 / 技能伤害"
    } else {
        "英雄适配型强化"
    }
}

/// The longest description shown, in characters, before it is cut.
pub const DESCRIPTION_LIMIT: usize = 58;

/// A description cut to fit: the trimmed text, cut after
/// `DESCRIPTION_LIMIT` characters and marked with `…` when it was longer, or
/// the summary of the name when the text is blank.
pub open spec fn spec_compact_description(value: Seq<char>, name: Seq<char>) -> Seq<char> {
    let v = spec_trim(value);
    if v.len() == 0 {
        spec_summary_from_name(name)
    } else if v.len() > DESCRIPTION_LIMIT {
        v.take(DESCRIPTION_LIMIT as int).push('…')
    } else {
        v
    }
}

pub fn compact_description(value: &str, name: &str) -> (res: String)
    ensures
        res@ == spec_compact_description(value@, name@),
        spec_trim(value@).len() == 0 ==> res@ == spec_summary_from_name(name@),
        0 < spec_trim(value@).len() <= 58 ==> res@ == spec_trim(value@),
        spec_trim(value@).len() > 58 ==> {
            &&& res@.len() == 59
            &&& res@.last() == '…'
            &&& res@.drop_last() == spec_trim(value@).take(58)
        },
{
    proof {
        lemma_compact_description_cuts_the_end(value@, name@);
    }
    let v = trim_str(value);
    if v.len() == 0 {
        return summary_from_name(name).to_owned();
    }
    if v.len() > DESCRIPTION_LIMIT {
        let mut out = copy_range(&v, 0, DESCRIPTION_LIMIT);
        out.push('…');
        assert(out@ =~= v@.take(DESCRIPTION_LIMIT as int).push('…'));
        string_from_chars(out.as_slice())
    } else {
        string_from_chars(v.as_slice())
    }
}

/// `s` with every escaped quote `\"` read as a plain quote, scanning from the
/// left (std `str::replace("\\\"", "\"")`).
pub open spec fn spec_unescape_quotes(s: Seq<char>) -> Seq<char>
    decreases s.len(),
{
    if s.len() == 0 {
        s
    } else if s.len() >= 2 && s[0] == '\\' && s[1] == '"' {
        seq!['"'] + spec_unescape_quotes(s.skip(2))
    } else {
        seq![s[0]] + spec_unescape_quotes(s.drop_first())
    }
}

pub fn unescape_quotes(v: &Vec<char>) -> (res: Vec<char>)
    ensures
        res@ == spec_unescape_quotes(v@),
{
    let n = v.len();
    let mut out: Vec<char> = Vec::new();
    let mut i: usize = 0;
    assert(v@.subrange(0, n as int) =~= v@);
    while i < n
        invariant
            i <= n == v.len(),
            spec_unescape_quotes(v@) == out@ + spec_unescape_quotes(v@.subrange(i as int, n as int)),
        decreases n - i,
    {
        let ghost rest = v@.subrange(i as int, n as int);
        if i + 1 < n && v[i] == '\\' && v[i + 1] == '"' {
            out.push('"');
            assert(rest.skip(2) =~= v@.subrange(i + 2, n as int));
            i = i + 2;
        } else {
            out.push(v[i]);
            assert(rest.drop_first() =~= v@.subrange(i + 1, n as int));
            i = i + 1;
        }
    }
    assert(spec_unescape_quotes(v@.subrange(n as int, n as int)) =~= Seq::<char>::empty());
    assert(out@ + Seq::<char>::empty() =~= out@);
    out
}

/// A JSON string fragment read as the body of a JSON string literal, or the
/// fragment itself where that reading fails.
pub open spec fn spec_decode_json_fragment(value: Seq<char>) -> Seq<char> {
    match json_string(seq!['"'] + value + seq!['"']) {
        Some(s) => s,
        None => value,
    }
}

pub fn decode_json_fragment(value: &str) -> (res: String)
    ensures
        res@ == spec_decode_json_fragment(value@),
{
    let mut wrapped: Vec<char> = Vec::new();
    wrapped.push('"');
    let v = chars_of(value);
    let mut k: usize = 0;
    while k < v.len()
        invariant
            k <= v.len(),
            wrapped@ == seq!['"'] + v@.subrange(0, k as int),
        decreases v.len() - k,
    {
        wrapped.push(v[k]);
        k = k + 1;
        assert(wrapped@ =~= seq!['"'] + v@.subrange(0, k as int));
    }
    wrapped.push('"');
    assert(v@.subrange(0, v.len() as int) =~= v@);
    assert(wrapped@ =~= seq!['"'] + value@ + seq!['"']);
    let text = string_from_chars(wrapped.as_slice());
    match json_string_from_str(text.as_str()) {
        Ok(s) => s,
        Err(_) => value.to_owned(),
    }
}

/// What the OP.GG page says of one augment.
pub struct PageDetail {
    pub name: String,
    pub rarity: String,
    pub description: String,
}

/// The mathematical model of a [`PageDetail`].
pub struct PageDetailView {
    pub name: Seq<char>,
    pub rarity: Seq<char>,
    pub description: Seq<char>,
}

impl View for PageDetail {
    type V = PageDetailView;

    open spec fn view(&self) -> PageDetailView {
        PageDetailView { name: self.name@, rarity: self.rarity@, description: self.description@ }
    }
}

impl Default for PageDetail {
    fn default() -> (res: PageDetail)
        ensures
            res@ == (PageDetailView { name: Seq::empty(), rarity: Seq::empty(), description: Seq::empty() }),
    {
        PageDetail { name: String::new(), rarity: String::new(), description: String::new() }
    }
}

/// How reading the OP.GG page can fail: one of its patterns does not compile.
#[derive(Debug)]
pub enum PageParseError {
    /// The augment record pattern.
    RecordPattern,
    /// The pattern that finds markup tags in a description.
    TagPattern,
    /// The pattern that finds runs of whitespace in a description.
    WhitespacePattern,
}

/// One augment record as the OP.GG page embeds it in its script data.
pub const AUGMENT_RECORD_PATTERN: &'static str = r#"\{"id":(?P<id>\d+),"tier":(?P<tier>\d+),"performance":(?P<performance>[^,]+),"popular":(?P<popular>[^,]+),"name":"(?P<name>(?:\\.|[^"])*)","key":"(?:\\.|[^"])*","largeIcon":"(?:\\.|[^"])*","smallIcon":"(?:\\.|[^"])*","rarity":(?P<rarity>\d+),"desc":"(?P<desc>(?:\\.|[^"])*)","tooltip""#;

/// A markup tag in a description.
pub const TAG_PATTERN: &'static str = r"<[^>]+>";

/// A run of whitespace in a description.
pub const WHITESPACE_PATTERN: &'static str = r"\s+";

/// The groups of a record that the parser reads, in this order.
pub open spec fn record_groups() -> Seq<Seq<char>> {
    seq!["id"@, "rarity"@, "name"@, "desc"@]
}

/// The text of one group of a record, empty where it took no part.
pub open spec fn group_text(group: Option<Seq<char>>) -> Seq<char> {
    match group {
        Some(t) => t,
        None => Seq::empty(),
    }
}

/// The augment id of a record: its `id` group read as an `i64`, or 0.
pub open spec fn record_id(row: Seq<Option<Seq<char>>>) -> i64 {
    match row[0] {
        Some(t) => match spec_parse_i64(t) {
            Some(v) => v,
            None => 0,
        },
        None => 0,
    }
}

/// The rarity code of a record: its `rarity` group read as an `i32`, or 0.
pub open spec fn record_rarity_code(row: Seq<Option<Seq<char>>>) -> i32 {
    match row[1] {
        Some(t) => match spec_parse_i32(t) {
            Some(v) => v,
            None => 0,
        },
        None => 0,
    }
}

/// A description from the page: decoded, each tag turned into a space, each
/// run of whitespace into one space, then trimmed.
pub open spec fn spec_clean_description(desc: Seq<char>) -> Seq<char> {
    let decoded = spec_decode_json_fragment(desc);
    let untagged = regex_replace_all(TAG_PATTERN@, decoded, " "@);
    spec_trim(regex_replace_all(WHITESPACE_PATTERN@, untagged, " "@))
}

/// What one record of the page says of its augment.
pub open spec fn spec_record_detail(row: Seq<Option<Seq<char>>>) -> PageDetailView {
    PageDetailView {
        name: match row[2] {
            Some(t) => spec_decode_json_fragment(t),
            None => Seq::empty(),
        },
        rarity: spec_rarity_from_code(record_rarity_code(row)),
        description: match row[3] {
            Some(t) => spec_clean_description(t),
            None => Seq::empty(),
        },
    }
}

/// The augments that a sequence of records describes: each record with a
/// nonzero id whose id has not been seen in an earlier record.
pub open spec fn spec_page_details(rows: Seq<Seq<Option<Seq<char>>>>) -> Map<i64, PageDetailView>
    decreases rows.len(),
{
    if rows.len() == 0 {
        Map::empty()
    } else {
        let earlier = spec_page_details(rows.drop_last());
        let row = rows.last();
        let id = record_id(row);
        if id == 0 || earlier.contains_key(id) {
            earlier
        } else {
            earlier.insert(id, spec_record_detail(row))
        }
    }
}

/// The records of a page, found after its escaped quotes are read as plain
/// quotes.
pub open spec fn page_records(raw: Seq<char>) -> Seq<Seq<Option<Seq<char>>>> {
    regex_named_captures(AUGMENT_RECORD_PATTERN@, spec_unescape_quotes(raw), record_groups())
}

/// The view of a map of page details.
pub open spec fn page_details_view(m: Map<i64, PageDetail>) -> Map<i64, PageDetailView> {
    m.map_values(|d: PageDetail| d@)
}

/// Reads the augments of an OP.GG ARAM Mayhem page.
pub fn parse_page_details(raw: &str) -> (res: Result<HashMap<i64, PageDetail>, PageParseError>)
    ensures
        match res {
            Ok(m) => {
                &&& regex_is_valid(AUGMENT_RECORD_PATTERN@)
                &&& regex_is_valid(TAG_PATTERN@)
                &&& regex_is_valid(WHITESPACE_PATTERN@)
                &&& page_details_view(m@) == spec_page_details(page_records(raw@))
            },
            Err(PageParseError::RecordPattern) => !regex_is_valid(AUGMENT_RECORD_PATTERN@),
            Err(PageParseError::TagPattern) => regex_is_valid(AUGMENT_RECORD_PATTERN@)
                && !regex_is_valid(TAG_PATTERN@),
            Err(PageParseError::WhitespacePattern) => regex_is_valid(AUGMENT_RECORD_PATTERN@)
                && regex_is_valid(TAG_PATTERN@) && !regex_is_valid(WHITESPACE_PATTERN@),
        },
        res matches Ok(m) ==> forall|id: i64| #[trigger] m@.contains_key(id) ==> {
            &&& id != 0
            &&& exists|q: int| {
                &&& is_first_record(page_records(raw@), q, id)
                &&& m@[id].rarity@ == (if record_rarity_code(page_records(raw@)[q]) == 4 {
                    "Gold"@
                } else if record_rarity_code(page_records(raw@)[q]) == 8 {
                    "Prismatic"@
                } else {
                    "Silver"@
                })
            }
        },
{
    let normalized_chars = unescape_quotes(&chars_of(raw));
    let normalized = string_from_chars(normalized_chars.as_slice());

    let pattern = match compile_pattern(AUGMENT_RECORD_PATTERN) {
        Ok(p) => p,
        Err(_) => return Err(PageParseError::RecordPattern),
    };
    let strip_tags = match compile_pattern(TAG_PATTERN) {
        Ok(p) => p,
        Err(_) => return Err(PageParseError::TagPattern),
    };
    let whitespace = match compile_pattern(WHITESPACE_PATTERN) {
        Ok(p) => p,
        Err(_) => return Err(PageParseError::WhitespacePattern),
    };

    let names: Vec<&str> = vec!["id", "rarity", "name", "desc"];
    assert(names.deep_view() =~= record_groups());
    let rows = named_captures(&pattern, normalized.as_str(), &names);
    let ghost rows_view = rows.deep_view();

    let mut seen: HashSet<i64> = HashSet::new();
    let mut items: HashMap<i64, PageDetail> = HashMap::new();
    let mut i: usize = 0;
    while i < rows.len()
        invariant
            i <= rows.len(),
            rows_view == rows.deep_view(),
            rows_view == page_records(raw@),
            pattern.source() == AUGMENT_RECORD_PATTERN@,
            strip_tags.source() == TAG_PATTERN@,
            whitespace.source() == WHITESPACE_PATTERN@,
            forall|j: int| 0 <= j < rows.len() ==> (#[trigger] rows@[j]).len() == 4,
            seen@ == items@.dom(),
            page_details_view(items@) == spec_page_details(rows_view.take(i as int)),
        decreases rows.len() - i,
    {
        let row = &rows[i];
        let ghost row_view = rows_view[i as int];
        assert(row_view == row.deep_view());
        assert(rows_view.take(i + 1).drop_last() =~= rows_view.take(i as int));
        assert(rows_view.take(i + 1).last() == row_view);
        let id: i64 = match &row[0] {
            Some(t) => match parse_i64(&chars_of(t.as_str())) {
                Some(v) => v,
                None => 0,
            },
            None => 0,
        };
        assert(id == record_id(row_view));
        if id == 0 || !seen.insert(id) {
            i = i + 1;
            continue;
        }
        let rarity_code: i32 = match &row[1] {
            Some(t) => match parse_i32(&chars_of(t.as_str())) {
                Some(v) => v,
                None => 0,
            },
            None => 0,
        };
        let name = match &row[2] {
            Some(t) => decode_json_fragment(t.as_str()),
            None => String::new(),
        };
        let description = match &row[3] {
            Some(t) => {
                let decoded = decode_json_fragment(t.as_str());
                let untagged = replace_all(&strip_tags, decoded.as_str(), " ");
                let collapsed = replace_all(&whitespace, untagged.as_str(), " ");
                let trimmed = trim_str(collapsed.as_str());
                string_from_chars(trimmed.as_slice())
            },
            None => String::new(),
        };
        let detail = PageDetail {
            name,
            rarity: rarity_label_from_code(rarity_code).to_owned(),
            description,
        };
        assert(detail@ == spec_record_detail(row_view));
        items.insert(id, detail);
        assert(page_details_view(items@) =~= spec_page_details(rows_view.take(i + 1)));
        i = i + 1;
    }
    assert(rows_view.take(rows.len() as int) =~= rows_view);
    proof {
        lemma_page_rarity_from_first_record(rows_view);
        assert forall|id: i64| #[trigger] items@.contains_key(id) implies {
            &&& id != 0
            &&& exists|q: int| {
                &&& is_first_record(page_records(raw@), q, id)
                &&& items@[id].rarity@ == (if record_rarity_code(page_records(raw@)[q]) == 4 {
                    "Gold"@
                } else if record_rarity_code(page_records(raw@)[q]) == 8 {
                    "Prismatic"@
                } else {
                    "Silver"@
                })
            }
        } by {
            let spec = spec_page_details(rows_view);
            assert(page_details_view(items@).contains_key(id));
            assert(spec.contains_key(id));
            assert(items@[id]@ == spec[id]);
            let q = choose|q: int| {
                &&& is_first_record(rows_view, q, id)
                &&& spec[id] == spec_record_detail(rows_view[q])
                &&& spec[id].rarity == (if record_rarity_code(rows_view[q]) == 4 {
                    "Gold"@
                } else if record_rarity_code(rows_view[q]) == 8 {
                    "Prismatic"@
                } else {
                    "Silver"@
                })
            };
            assert(is_first_record(page_records(raw@), q, id));
        }
    }
    Ok(items)
}

/// One augment of the League client's localized catalog.
pub struct ClientAugment {
    pub id: i64,
    pub name_tra: String,
    pub simple_name_tra: String,
    pub rarity: String,
    pub description_tra: String,
}

/// The mathematical model of a [`ClientAugment`].
pub struct ClientAugmentView {
    pub id: i64,
    pub name_tra: Seq<char>,
    pub simple_name_tra: Seq<char>,
    pub rarity: Seq<char>,
    pub description_tra: Seq<char>,
}

impl View for ClientAugment {
    type V = ClientAugmentView;

    open spec fn view(&self) -> ClientAugmentView {
        ClientAugmentView {
            id: self.id,
            name_tra: self.name_tra@,
            simple_name_tra: self.simple_name_tra@,
            rarity: self.rarity@,
            description_tra: self.description_tra@,
        }
    }
}

/// The catalog keyed by augment id: a later row with an id replaces an
/// earlier one.
pub open spec fn spec_catalog(rows: Seq<ClientAugmentView>) -> Map<i64, ClientAugmentView>
    decreases rows.len(),
{
    if rows.len() == 0 {
        Map::empty()
    } else {
        spec_catalog(rows.drop_last()).insert(rows.last().id, rows.last())
    }
}

/// The view of a catalog map.
pub open spec fn catalog_view(m: Map<i64, ClientAugment>) -> Map<i64, ClientAugmentView> {
    m.map_values(|e: ClientAugment| e@)
}

/// Keys the client catalog rows by augment id.
pub fn catalog_from_rows(rows: Vec<ClientAugment>) -> (res: HashMap<i64, ClientAugment>)
    ensures
        catalog_view(res@) == spec_catalog(rows@.map_values(|e: ClientAugment| e@)),
{
    let ghost rows_view = rows@.map_values(|e: ClientAugment| e@);
    let mut out: HashMap<i64, ClientAugment> = HashMap::new();
    let mut rest = rows;
    let n = rest.len();
    // The rows are taken from the back of a vector, so turn them round first.
    let mut reversed: Vec<ClientAugment> = Vec::new();
    while rest.len() > 0
        invariant
            rest@.len() + reversed@.len() == n,
            forall|k: int| 0 <= k < rest@.len() ==> (#[trigger] rest@[k])@ == rows_view[k],
            forall|k: int| 0 <= k < reversed@.len() ==> (#[trigger] reversed@[k])@ == rows_view[n - 1 - k],
            rows_view.len() == n,
        decreases rest.len(),
    {
        let e = rest.pop().unwrap();
        reversed.push(e);
    }
    let mut i: usize = 0;
    while reversed.len() > 0
        invariant
            i + reversed@.len() == n,
            rows_view.len() == n,
            forall|k: int| 0 <= k < reversed@.len() ==> (#[trigger] reversed@[k])@ == rows_view[n - 1 - k],
            catalog_view(out@) == spec_catalog(rows_view.take(i as int)),
        decreases reversed.len(),
    {
        let e = reversed.pop().unwrap();
        assert(e@ == rows_view[i as int]);
        assert(rows_view.take(i + 1).drop_last() =~= rows_view.take(i as int));
        let id = e.id;
        out.insert(id, e);
        assert(catalog_view(out@) =~= spec_catalog(rows_view.take(i + 1)));
        i = i + 1;
    }
    assert(rows_view.take(n as int) =~= rows_view);
    out
}

/// One ranked augment from the OP.GG statistics endpoint. The two scores are
/// carried as the bit patterns of their `f64` values.
pub struct StatsItem {
    pub id: i64,
    pub tier: Option<i32>,
    pub performance: Option<u64>,
    pub popular: Option<u64>,
}

/// One augment recommendation for a champion. The two scores are carried
/// unchanged from the statistics, as the bit patterns of their `f64` values.
#[derive(Debug, Clone)]
pub struct AugmentRecommendation {
    pub id: i64,
    pub name: String,
    pub tier: i32,
    pub rarity: String,
    pub popularity: Option<u64>,
    pub performance: Option<u64>,
    pub description: String,
}

/// The mathematical model of an [`AugmentRecommendation`].
pub struct AugmentRecommendationView {
    pub id: i64,
    pub name: Seq<char>,
    pub tier: i32,
    pub rarity: Seq<char>,
    pub popularity: Option<u64>,
    pub performance: Option<u64>,
    pub description: Seq<char>,
}

impl View for AugmentRecommendation {
    type V = AugmentRecommendationView;

    open spec fn view(&self) -> AugmentRecommendationView {
        AugmentRecommendationView {
            id: self.id,
            name: self.name@,
            tier: self.tier,
            rarity: self.rarity@,
            popularity: self.popularity,
            performance: self.performance,
            description: self.description@,
        }
    }
}

/// Why no recommendation list could be made.
#[derive(Debug)]
pub enum MayhemError {
    /// The statistics listed no augment.
    NoAugments,
}

/// The most augments recommended for one champion.
pub const MAX_AUGMENTS: usize = 6;

/// The localized name from the client catalog: the trimmed full name, or the
/// trimmed short name where the full one is blank; empty without an entry.
pub open spec fn spec_local_name(local: Option<ClientAugmentView>) -> Seq<char> {
    match local {
        Some(e) => if spec_trim(e.name_tra).len() > 0 {
            spec_trim(e.name_tra)
        } else {
            spec_trim(e.simple_name_tra)
        },
        None => Seq::empty(),
    }
}

/// The page detail of an augment, or the empty detail.
pub open spec fn page_or_default(page: Option<PageDetailView>) -> PageDetailView {
    match page {
        Some(p) => p,
        None => PageDetailView { name: Seq::empty(), rarity: Seq::empty(), description: Seq::empty() },
    }
}

/// The name of an augment: the localized name unless it is blank or an
/// untranslated key, else the page's name unless blank, else `Augment <id>`.
pub open spec fn spec_augment_name(
    id: i64,
    local: Option<ClientAugmentView>,
    page: Option<PageDetailView>,
) -> Seq<char> {
    let l = spec_local_name(local);
    let p = page_or_default(page);
    if l.len() > 0 && !spec_looks_like_string_key(l) {
        l
    } else if p.name.len() > 0 {
        p.name
    } else {
        "Augment "@ + signed_decimal(id as int)
    }
}

/// The rarity of an augment: the catalog's rarity key where it names a known
/// rarity, else the page's rarity unless blank, else `Silver`.
pub open spec fn spec_augment_rarity(local: Option<ClientAugmentView>, page: Option<PageDetailView>) -> Seq<char> {
    let p = page_or_default(page);
    let from_key = match local {
        Some(e) => spec_rarity_from_key(e.rarity),
        None => Seq::empty(),
    };
    if from_key.len() > 0 {
        from_key
    } else if p.rarity.len() > 0 {
        p.rarity
    } else {
        "Silver"@
    }
}

/// The description text of an augment before it is cut to fit: the
/// catalog's localized description unless it is blank, else the page's.
pub open spec fn spec_description_source(local: Option<ClientAugmentView>, page: Option<PageDetailView>) -> Seq<char> {
    let from_catalog = match local {
        Some(e) => e.description_tra,
        None => Seq::empty(),
    };
    if spec_trim(from_catalog).len() > 0 {
        from_catalog
    } else {
        page_or_default(page).description
    }
}

/// The recommendation made of one ranked augment.
pub open spec fn spec_recommendation(
    stat: StatsItem,
    local: Option<ClientAugmentView>,
    page: Option<PageDetailView>,
) -> AugmentRecommendationView {
    let name = spec_augment_name(stat.id, local, page);
    AugmentRecommendationView {
        id: stat.id,
        name: name,
        tier: match stat.tier {
            Some(t) => t,
            None => 0,
        },
        rarity: spec_augment_rarity(local, page),
        popularity: stat.popular,
        performance: stat.performance,
        description: spec_compact_description(spec_description_source(local, page), name),
    }
}

fn local_name(local: Option<&ClientAugment>) -> (res: Vec<char>)
    ensures
        res@ == spec_local_name(match local {
            Some(e) => Some(e@),
            None => None,
        }),
{
    match local {
        Some(e) => {
            let full = trim_str(e.name_tra.as_str());
            if full.len() > 0 {
                full
            } else {
                trim_str(e.simple_name_tra.as_str())
            }
        },
        None => Vec::new(),
    }
}

/// Builds the recommendation of one ranked augment.
pub fn recommendation(stat: &StatsItem, local: Option<&ClientAugment>, page: Option<&PageDetail>) -> (res:
    AugmentRecommendation)
    ensures
        res@ == spec_recommendation(
            *stat,
            match local {
                Some(e) => Some(e@),
                None => None,
            },
            match page {
                Some(p) => Some(p@),
                None => None,
            },
        ),
        res.id == stat.id,
        res.popularity == stat.popular,
        res.performance == stat.performance,
        res.tier == (match stat.tier {
            Some(t) => t,
            None => 0i32,
        }),
{
    proof {
        lemma_recommendation_carries_the_row(
            *stat,
            match local {
                Some(e) => Some(e@),
                None => None,
            },
            match page {
                Some(p) => Some(p@),
                None => None,
            },
        );
    }
    let ghost local_view = match local {
        Some(e) => Some(e@),
        None => None::<ClientAugmentView>,
    };
    let ghost page_view = match page {
        Some(p) => Some(p@),
        None => None::<PageDetailView>,
    };
    proof {
        reveal_strlit("");
    }
    let local_chars = local_name(local);
    let local_text = string_from_chars(local_chars.as_slice());
    let name: String = if local_chars.len() > 0 && !looks_like_string_key(local_text.as_str()) {
        local_text
    } else {
        match page {
            Some(p) if !p.name.as_str().is_empty() => p.name.clone(),
            _ => {
                let mut text = chars_of("Augment ");
                let mut digits = i64_decimal(stat.id);
                text.append(&mut digits);
                string_from_chars(text.as_slice())
            },
        }
    };
    assert(name@ == spec_augment_name(stat.id, local_view, page_view));
    let from_key: &str = match local {
        Some(e) => rarity_label_from_key(e.rarity.as_str()),
        None => "",
    };
    let rarity: String = if !from_key.is_empty() {
        from_key.to_owned()
    } else {
        match page {
            Some(p) if !p.rarity.as_str().is_empty() => p.rarity.clone(),
            _ => "Silver".to_owned(),
        }
    };
    let catalog_description: Option<&String> = match local {
        Some(e) => if trim_str(e.description_tra.as_str()).len() > 0 {
            Some(&e.description_tra)
        } else {
            None
        },
        None => None,
    };
    let description = match catalog_description {
        Some(d) => compact_description(d.as_str(), name.as_str()),
        None => match page {
            Some(p) => compact_description(p.description.as_str(), name.as_str()),
            None => compact_description("", name.as_str()),
        },
    };
    let tier: i32 = match stat.tier {
        Some(t) => t,
        None => 0,
    };
    AugmentRecommendation {
        id: stat.id,
        name,
        tier,
        rarity,
        popularity: stat.popular,
        performance: stat.performance,
        description,
    }
}

/// Builds the recommendations for the first `MAX_AUGMENTS` ranked augments,
/// in ranking order, with names, rarities and descriptions taken first from
/// the client catalog and then, as a fallback, from the OP.GG page.
pub fn assemble_augments(
    stats: &Vec<StatsItem>,
    page_details: &HashMap<i64, PageDetail>,
    client_details: &HashMap<i64, ClientAugment>,
) -> (res: Result<Vec<AugmentRecommendation>, MayhemError>)
    ensures
        res is Err <==> stats.len() == 0,
        res matches Ok(items) ==> {
            &&& items.len() == if stats.len() < MAX_AUGMENTS { stats.len() } else { MAX_AUGMENTS }
            &&& forall|i: int| 0 <= i < items.len() ==> (#[trigger] items@[i])@ == spec_recommendation(
                stats@[i],
                catalog_view(client_details@).get(stats@[i].id),
                page_details_view(page_details@).get(stats@[i].id),
            )
            &&& forall|i: int| 0 <= i < items.len() ==> {
                &&& (#[trigger] items@[i]).id == stats@[i].id
                &&& items@[i].popularity == stats@[i].popular
                &&& items@[i].performance == stats@[i].performance
            }
        },
{
    let n: usize = if stats.len() < MAX_AUGMENTS { stats.len() } else { MAX_AUGMENTS };
    let mut items: Vec<AugmentRecommendation> = Vec::new();
    let mut i: usize = 0;
    while i < n
        invariant
            i <= n <= stats.len(),
            n == if stats.len() < MAX_AUGMENTS { stats.len() } else { MAX_AUGMENTS },
            items.len() == i,
            forall|k: int| 0 <= k < i ==> (#[trigger] items@[k])@ == spec_recommendation(
                stats@[k],
                catalog_view(client_details@).get(stats@[k].id),
                page_details_view(page_details@).get(stats@[k].id),
            ),
            forall|k: int| 0 <= k < i ==> {
                &&& (#[trigger] items@[k]).id == stats@[k].id
                &&& items@[k].popularity == stats@[k].popular
                &&& items@[k].performance == stats@[k].performance
            },
        decreases n - i,
    {
        let stat = &stats[i];
        let page = page_details.get(&stat.id);
        let local = client_details.get(&stat.id);
        let item = recommendation(stat, local, page);
        proof {
            assert(catalog_view(client_details@).get(stat.id) == match local {
                Some(e) => Some(e@),
                None => None::<ClientAugmentView>,
            });
            assert(page_details_view(page_details@).get(stat.id) == match page {
                Some(p) => Some(p@),
                None => None::<PageDetailView>,
            });
        }
        items.push(item);
        i = i + 1;
    }
    if items.len() == 0 {
        return Err(MayhemError::NoAugments);
    }
    Ok(items)
}

/// The OP.GG endpoint with the ARAM Mayhem augment statistics of a champion.
pub open spec fn spec_stats_url(champion_id: i64) -> Seq<char> {
    "https://lol-api-champion.op.gg/api/contents/stats/champions/"@ + signed_decimal(champion_id as int)
        + "/aram-augments"@
}

/// The OP.GG ARAM Mayhem augment page of a champion.
pub open spec fn spec_page_url(champion_alias: Seq<char>) -> Seq<char> {
    "https://op.gg/zh-cn/lol/modes/aram-mayhem/"@ + spec_champion_slug(champion_alias) + "/augments"@
}

/// The localized augment catalog of the running League client.
pub open spec fn spec_client_catalog_url(auth_url: Seq<char>) -> Seq<char> {
    "https://"@ + auth_url + "/lol-game-data/assets/v1/cherry-augments.json"@
}

fn join3(a: &str, b: &Vec<char>, c: &str) -> (res: String)
    ensures
        res@ == a@ + b@ + c@,
{
    let mut out = chars_of(a);
    let mut middle = copy_range(b, 0, b.len());
    assert(b@.subrange(0, b.len() as int) =~= b@);
    let mut last = chars_of(c);
    out.append(&mut middle);
    out.append(&mut last);
    string_from_chars(out.as_slice())
}

pub fn stats_url(champion_id: i64) -> (res: String)
    ensures
        res@ == spec_stats_url(champion_id),
{
    join3(
        "https://lol-api-champion.op.gg/api/contents/stats/champions/",
        &i64_decimal(champion_id),
        "/aram-augments",
    )
}

pub fn page_url(champion_alias: &str) -> (res: String)
    ensures
        res@ == spec_page_url(champion_alias@),
{
    let slug = champion_slug(champion_alias);
    join3("https://op.gg/zh-cn/lol/modes/aram-mayhem/", &chars_of(slug.as_str()), "/augments")
}

pub fn client_catalog_url(auth_url: &str) -> (res: String)
    ensures
        res@ == spec_client_catalog_url(auth_url@),
{
    join3("https://", &chars_of(auth_url), "/lol-game-data/assets/v1/cherry-augments.json")
}

/// A rarity label that the page and the catalog use.
pub open spec fn is_known_rarity(r: Seq<char>) -> bool {
    r == "Gold"@ || r == "Prismatic"@ || r == "Silver"@
}

/// Slugs are stable: the slug of a slug is the slug itself, since every slug
/// is in ASCII lower case and no special alias is.
pub proof fn lemma_champion_slug_idempotent(alias: Seq<char>)
    ensures
        spec_champion_slug(spec_champion_slug(alias)) == spec_champion_slug(alias),
{
    reveal_strlit("MonkeyKing");
    reveal_strlit("KSante");
    reveal_strlit("Kaisa");
    reveal_strlit("Khazix");
    reveal_strlit("Velkoz");
    reveal_strlit("RekSai");
    reveal_strlit("Belveth");
    reveal_strlit("Chogath");
    reveal_strlit("wukong");
    reveal_strlit("ksante");
    reveal_strlit("kaisa");
    reveal_strlit("khazix");
    reveal_strlit("velkoz");
    reveal_strlit("reksai");
    reveal_strlit("belveth");
    reveal_strlit("chogath");
    let slug = spec_champion_slug(alias);
    // No slug starts with an upper-case letter, and every special alias does.
    if slug.len() > 0 {
        assert(!('A' <= slug[0] <= 'Z')) by {
            if slug == ascii_lower_seq(alias) {
                assert(slug[0] == crate::text::ascii_lower(alias[0]));
            }
        }
    }
    assert(slug != "MonkeyKing"@ && slug != "KSante"@ && slug != "Kaisa"@ && slug != "Khazix"@) by {
        if slug.len() > 0 {
            assert("MonkeyKing"@[0] == 'M');
        }
    }
    assert(slug != "Velkoz"@ && slug != "RekSai"@ && slug != "Belveth"@ && slug != "Chogath"@);
    assert(ascii_lower_seq(slug) =~= slug) by {
        assert forall|k: int| 0 <= k < slug.len() implies crate::text::ascii_lower(#[trigger] slug[k]) == slug[k] by {
            if slug == ascii_lower_seq(alias) {
                assert(slug[k] == crate::text::ascii_lower(alias[k]));
            }
        }
    }
}

/// A shown description is never empty and never longer than
/// `DESCRIPTION_LIMIT` characters plus the cut mark.
pub proof fn lemma_compact_description_fits(value: Seq<char>, name: Seq<char>)
    ensures
        0 < spec_compact_description(value, name).len() <= DESCRIPTION_LIMIT + 1,
{
    reveal_strlit("偏暴击 / 暴击收益");
    reveal_strlit("偏攻速 / 普攻强化");
    reveal_strlit("回复 / 吸血 / 生存");
    reveal_strlit("移速 / 机动性");
    reveal_strlit("生命 / 防御 / 坦度");
    reveal_strlit("技能循环 / 技能急速");
    reveal_strlit("法术 / 技能伤害");
    reveal_strlit("英雄适配型强化");
}

/// Every augment read from a page has a nonzero id and one of the three
/// known rarities.
pub proof fn lemma_page_details_well_formed(rows: Seq<Seq<Option<Seq<char>>>>)
    ensures
        forall|id: i64| #[trigger] spec_page_details(rows).contains_key(id) ==> {
            &&& id != 0
            &&& is_known_rarity(spec_page_details(rows)[id].rarity)
        },
    decreases rows.len(),
{
    if rows.len() > 0 {
        lemma_page_details_well_formed(rows.drop_last());
        let earlier = spec_page_details(rows.drop_last());
        let row = rows.last();
        let id = record_id(row);
        assert(is_known_rarity(spec_record_detail(row).rarity));
        if !(id == 0 || earlier.contains_key(id)) {
            assert forall|k: i64| #[trigger] spec_page_details(rows).contains_key(k) implies {
                &&& k != 0
                &&& is_known_rarity(spec_page_details(rows)[k].rarity)
            } by {
                if k != id {
                    assert(earlier.contains_key(k));
                }
            }
        }
    }
}

/// Every recommendation has a name, and its rarity is one of the three known
/// ones whenever the page's rarity (if the page lists the augment) is.
pub proof fn lemma_recommendation_well_formed(
    stat: StatsItem,
    local: Option<ClientAugmentView>,
    page: Option<PageDetailView>,
)
    requires
        page matches Some(p) ==> is_known_rarity(p.rarity),
    ensures
        spec_recommendation(stat, local, page).name.len() > 0,
        spec_recommendation(stat, local, page).description.len() > 0,
        is_known_rarity(spec_recommendation(stat, local, page).rarity),
{
    reveal_strlit("Augment ");
    reveal_strlit("");
    lemma_compact_description_fits(spec_description_source(local, page), spec_augment_name(stat.id, local, page));
}

/// Recommendations assembled from a parsed page always carry a known rarity:
/// what `parse_page_details` returns satisfies what
/// `lemma_recommendation_well_formed` asks of the page.
pub proof fn lemma_parsed_page_rarities_known(raw: Seq<char>, id: i64)
    requires
        spec_page_details(page_records(raw)).contains_key(id),
    ensures
        is_known_rarity(spec_page_details(page_records(raw))[id].rarity),
{
    lemma_page_details_well_formed(page_records(raw));
}

/// A description longer than 58 characters (after trimming) is cut to its
/// first 58 characters and marked with `…`; a shorter one is shown whole,
/// trimmed; a blank one gives way to the summary of the name.
pub proof fn lemma_compact_description_cuts_the_end(value: Seq<char>, name: Seq<char>)
    ensures
        spec_trim(value).len() == 0 ==> spec_compact_description(value, name) == spec_summary_from_name(name),
        0 < spec_trim(value).len() <= 58 ==> spec_compact_description(value, name) == spec_trim(value),
        spec_trim(value).len() > 58 ==> {
            &&& spec_compact_description(value, name).len() == 59
            &&& spec_compact_description(value, name).last() == '…'
            &&& spec_compact_description(value, name).drop_last() == spec_trim(value).take(58)
        },
{
    let v = spec_trim(value);
    if v.len() > 58 {
        assert(spec_compact_description(value, name).drop_last() =~= v.take(58));
    }
}

/// A recommendation keeps its ranking row: the same augment id, the tier of
/// the row (0 when it has none), and the row's popularity and performance
/// scores, each in its own place.
pub proof fn lemma_recommendation_carries_the_row(
    stat: StatsItem,
    local: Option<ClientAugmentView>,
    page: Option<PageDetailView>,
)
    ensures
        spec_recommendation(stat, local, page).id == stat.id,
        spec_recommendation(stat, local, page).popularity == stat.popular,
        spec_recommendation(stat, local, page).performance == stat.performance,
        spec_recommendation(stat, local, page).tier == (match stat.tier {
            Some(t) => t,
            None => 0i32,
        }),
{
}

/// The client catalog comes first and the page is the fallback: a usable
/// catalog name (non-blank once trimmed, not a string-table key) is the name,
/// a catalog rarity key that names a rarity gives the rarity, and a non-blank
/// catalog description is the one shown; otherwise the page's name, rarity
/// and description are used where they are not blank; failing both, the name
/// is `Augment <id>` and the rarity Silver.
pub proof fn lemma_catalog_first_page_second(stat: StatsItem, local: Option<ClientAugmentView>, page: Option<PageDetailView>)
    ensures
        (local is Some && spec_trim(local->0.name_tra).len() > 0 && !spec_looks_like_string_key(spec_trim(local->0.name_tra)))
            ==> spec_recommendation(stat, local, page).name == spec_trim(local->0.name_tra),
        (local is None && page is Some && page->0.name.len() > 0)
            ==> spec_recommendation(stat, local, page).name == page->0.name,
        (local is None && page is None) ==> spec_recommendation(stat, local, page).name == "Augment "@ + signed_decimal(stat.id as int),
        (local is Some && spec_rarity_from_key(local->0.rarity).len() > 0)
            ==> spec_recommendation(stat, local, page).rarity == spec_rarity_from_key(local->0.rarity),
        (local is None && page is Some && page->0.rarity.len() > 0)
            ==> spec_recommendation(stat, local, page).rarity == page->0.rarity,
        (local is None && page is None) ==> spec_recommendation(stat, local, page).rarity == "Silver"@,
        (local is Some && spec_trim(local->0.description_tra).len() > 0)
            ==> spec_recommendation(stat, local, page).description == spec_compact_description(
                local->0.description_tra,
                spec_recommendation(stat, local, page).name,
            ),
        (local is None && page is Some)
            ==> spec_recommendation(stat, local, page).description == spec_compact_description(
                page->0.description,
                spec_recommendation(stat, local, page).name,
            ),
{
}

/// `q` is the first record of the page with augment id `id`.
pub open spec fn is_first_record(rows: Seq<Seq<Option<Seq<char>>>>, q: int, id: i64) -> bool {
    &&& 0 <= q < rows.len()
    &&& record_id(rows[q]) == id
    &&& forall|j: int| 0 <= j < q ==> record_id(#[trigger] rows[j]) != id
}

/// The augments read from a page are those of its records with a nonzero
/// id; each takes its rarity from the first record with its id: Gold for
/// code 4, Prismatic for code 8, Silver for any other code.
pub proof fn lemma_page_rarity_from_first_record(rows: Seq<Seq<Option<Seq<char>>>>)
    ensures
        forall|q: int| 0 <= q < rows.len() && record_id(#[trigger] rows[q]) != 0 ==> spec_page_details(rows).contains_key(
            record_id(rows[q]),
        ),
        forall|id: i64| #[trigger] spec_page_details(rows).contains_key(id) ==> {
            &&& id != 0
            &&& exists|q: int| {
                &&& is_first_record(rows, q, id)
                &&& spec_page_details(rows)[id] == spec_record_detail(rows[q])
                &&& spec_page_details(rows)[id].rarity == (if record_rarity_code(rows[q]) == 4 {
                    "Gold"@
                } else if record_rarity_code(rows[q]) == 8 {
                    "Prismatic"@
                } else {
                    "Silver"@
                })
            }
        },
    decreases rows.len(),
{
    if rows.len() > 0 {
        let d = rows.drop_last();
        lemma_page_rarity_from_first_record(d);
        let earlier = spec_page_details(d);
        let n = rows.len() - 1;
        let row = rows.last();
        let id = record_id(row);
        assert forall|q: int| 0 <= q < rows.len() && record_id(#[trigger] rows[q]) != 0 implies spec_page_details(
            rows,
        ).contains_key(record_id(rows[q])) by {
            if q < n {
                assert(d[q] == rows[q]);
            }
        }
        assert forall|k: i64| #[trigger] spec_page_details(rows).contains_key(k) implies {
            &&& k != 0
            &&& exists|q: int| {
                &&& is_first_record(rows, q, k)
                &&& spec_page_details(rows)[k] == spec_record_detail(rows[q])
                &&& spec_page_details(rows)[k].rarity == (if record_rarity_code(rows[q]) == 4 {
                    "Gold"@
                } else if record_rarity_code(rows[q]) == 8 {
                    "Prismatic"@
                } else {
                    "Silver"@
                })
            }
        } by {
            if earlier.contains_key(k) {
                let q = choose|q: int| {
                    &&& is_first_record(d, q, k)
                    &&& earlier[k] == spec_record_detail(d[q])
                    &&& earlier[k].rarity == (if record_rarity_code(d[q]) == 4 {
                        "Gold"@
                    } else if record_rarity_code(d[q]) == 8 {
                        "Prismatic"@
                    } else {
                        "Silver"@
                    })
                };
                assert(rows[q] == d[q]);
                assert forall|j: int| 0 <= j < q implies record_id(#[trigger] rows[j]) != k by {
                    assert(rows[j] == d[j]);
                }
                assert(is_first_record(rows, q, k));
            } else {
                assert(k == id && id != 0);
                assert forall|j: int| 0 <= j < n implies record_id(#[trigger] rows[j]) != k by {
                    assert(rows[j] == d[j]);
                    if record_id(d[j]) == k {
                        assert(record_id(d[j]) != 0);
                    }
                }
                assert(is_first_record(rows, n, k));
            }
        }
    }
}

} // verus!
