//! Builds from OP.GG's native champion statistics: which sources are served
//! natively, the ranked positions of a champion, and the transform of the
//! statistics into rune pages, item sets and build sections.

use std::time::{Duration, SystemTime};

use vstd::prelude::*;

use std::collections::HashSet;

use crate::builds::{
    blocks_view, item_builds_view, items_view, runes_view, strings_view, Block, BlockView,
    BuildSection, BuildSectionView, Item, ItemBuild, ItemBuildView, ItemView, Rune, RuneView,
};
use crate::order::{desc_order, lemma_desc_order_exists, precedes, stable_desc_order};
use crate::source::spec_builtin_sources;
use crate::text::{
    chars_eq_ignore_ascii_case, chars_of, decimal, eq_ignore_ascii_case,
    str_equal, string_from_chars, u64_decimal,
};

verus! {

/// The native source for ranked Summoner's Rift builds.
pub const OP_GG_RANKED: &'static str = "op.gg";

/// The native source for ARAM builds.
pub const OP_GG_ARAM: &'static str = "op.gg-aram";

/// A source whose builds come straight from OP.GG's statistics.
pub open spec fn spec_is_native_source(source: Seq<char>) -> bool {
    source == OP_GG_RANKED@ || source == OP_GG_ARAM@
}

pub fn is_native_source(source: &str) -> (res: bool)
    ensures
        res == spec_is_native_source(source@),
{
    str_equal(source, OP_GG_RANKED) || str_equal(source, OP_GG_ARAM)
}

/// The game modes OP.GG publishes statistics for.
#[derive(Debug, PartialEq, Eq, Structural, Clone, Copy)]
pub enum GameMode {
    Aram,
    Ranked,
}

/// The game mode a native source serves.
pub open spec fn spec_native_mode(source: Seq<char>) -> Option<GameMode> {
    if source == OP_GG_RANKED@ {
        Some(GameMode::Ranked)
    } else if source == OP_GG_ARAM@ {
        Some(GameMode::Aram)
    } else {
        None
    }
}

/// The game mode a native source serves, or `None` for any other source.
pub fn native_mode(source: &str) -> (res: Option<GameMode>)
    ensures
        res == spec_native_mode(source@),
{
    if str_equal(source, OP_GG_RANKED) {
        Some(GameMode::Ranked)
    } else if str_equal(source, OP_GG_ARAM) {
        Some(GameMode::Aram)
    } else {
        None
    }
}

/// A source is native exactly when it has a game mode: the metadata and
/// build fetchers accept exactly the sources that `is_native_source` names.
pub proof fn lemma_native_source_has_mode(source: Seq<char>)
    ensures
        spec_is_native_source(source) <==> spec_native_mode(source) is Some,
{
}

/// The positions OP.GG reports; `NoPosition` stands for no position (ARAM).
#[derive(Debug, PartialEq, Eq, Structural, Clone, Copy)]
pub enum ChampionPosition {
    NoPosition,
    Top,
    Mid,
    Jungle,
    Support,
    Adc,
}

/// The name OP.GG gives a position.
pub open spec fn spec_position_label(p: ChampionPosition) -> Seq<char> {
    match p {
        ChampionPosition::NoPosition => "none"@,
        ChampionPosition::Top => "TOP"@,
        ChampionPosition::Mid => "MID"@,
        ChampionPosition::Jungle => "JUNGLE"@,
        ChampionPosition::Support => "SUPPORT"@,
        ChampionPosition::Adc => "ADC"@,
    }
}

pub fn position_label(p: ChampionPosition) -> (res: &'static str)
    ensures
        res@ == spec_position_label(p),
{
    match p {
        ChampionPosition::NoPosition => "none",
        ChampionPosition::Top => "TOP",
        ChampionPosition::Mid => "MID",
        ChampionPosition::Jungle => "JUNGLE",
        ChampionPosition::Support => "SUPPORT",
        ChampionPosition::Adc => "ADC",
    }
}

/// The metadata of a statistics response.
pub struct SourceMeta {
    pub version: String,
    pub cached_at: Option<String>,
    pub analyzed_at: Option<String>,
}

/// The update time of a statistics response: when it was analyzed, else when
/// it was cached, else empty.
pub open spec fn spec_updated_at(analyzed_at: Option<Seq<char>>, cached_at: Option<Seq<char>>) -> Seq<char> {
    match analyzed_at {
        Some(a) => a,
        None => match cached_at {
            Some(c) => c,
            None => Seq::empty(),
        },
    }
}

/// The version and update time of a source, from its metadata.
pub fn source_metadata_from(meta: SourceMeta) -> (res: (String, String))
    ensures
        res.0@ == meta.version@,
        res.1@ == spec_updated_at(
            match meta.analyzed_at {
                Some(a) => Some(a@),
                None => None,
            },
            match meta.cached_at {
                Some(c) => Some(c@),
                None => None,
            },
        ),
{
    let updated_at = match meta.analyzed_at {
        Some(a) => a,
        None => match meta.cached_at {
            Some(c) => c,
            None => String::new(),
        },
    };
    (meta.version, updated_at)
}

/// Why native builds could not be made.
#[derive(Debug)]
pub enum NativeError {
    /// The champion id does not fit OP.GG's unsigned 32-bit ids.
    InvalidChampionId,
    /// The source is not a native one.
    UnsupportedSource,
    /// The ranked champion list does not hold the champion.
    ChampionNotFound,
    /// The champion has no ranked position.
    NoRankedPositions,
    /// No ranked position gave a build.
    NoRankedBuilds,
}

/// The champion id as OP.GG takes it, where it fits a `u32`.
pub fn champion_id_u32(champion_id: i64) -> (res: Option<u32>)
    ensures
        res == (if 0 <= champion_id <= u32::MAX { Some(champion_id as u32) } else { None::<u32> }),
{
    if 0 <= champion_id && champion_id <= 0xFFFF_FFFF {
        Some(champion_id as u32)
    } else {
        None
    }
}

/// A champion of OP.GG's ranked champion list, with the positions it is
/// played in.
pub struct ChampionSummary {
    pub id: usize,
    pub positions: Option<Vec<ChampionPosition>>,
}

/// The positions listed for a champion; none when the list is absent.
pub open spec fn listed_positions(s: ChampionSummary) -> Seq<ChampionPosition> {
    match s.positions {
        Some(v) => v@,
        None => Seq::empty(),
    }
}

/// `p` as a one-element list when it is listed, else nothing.
pub open spec fn keep_if_listed(p: ChampionPosition, listed: Seq<ChampionPosition>) -> Seq<ChampionPosition> {
    if listed.contains(p) {
        seq![p]
    } else {
        Seq::empty()
    }
}

/// The distinct listed positions other than `NoPosition`, in the alphabetical order
/// of their names: ADC, JUNGLE, MID, SUPPORT, TOP.
pub open spec fn spec_ranked_positions(listed: Seq<ChampionPosition>) -> Seq<ChampionPosition> {
    keep_if_listed(ChampionPosition::Adc, listed) + keep_if_listed(ChampionPosition::Jungle, listed)
        + keep_if_listed(ChampionPosition::Mid, listed) + keep_if_listed(ChampionPosition::Support, listed)
        + keep_if_listed(ChampionPosition::Top, listed)
}

/// Text `a` sorts before text `b`, character by character.
pub open spec fn text_less(a: Seq<char>, b: Seq<char>) -> bool
    decreases a.len(),
{
    if b.len() == 0 {
        false
    } else if a.len() == 0 {
        true
    } else if a[0] != b[0] {
        (a[0] as u32) < (b[0] as u32)
    } else {
        text_less(a.drop_first(), b.drop_first())
    }
}

/// The ranked positions come in ascending order of their names, which is how
/// they are sorted before their builds are fetched.
pub proof fn lemma_ranked_position_names_ascend()
    ensures
        text_less(spec_position_label(ChampionPosition::Adc), spec_position_label(ChampionPosition::Jungle)),
        text_less(spec_position_label(ChampionPosition::Jungle), spec_position_label(ChampionPosition::Mid)),
        text_less(spec_position_label(ChampionPosition::Mid), spec_position_label(ChampionPosition::Support)),
        text_less(spec_position_label(ChampionPosition::Support), spec_position_label(ChampionPosition::Top)),
{
    reveal_strlit("ADC");
    reveal_strlit("JUNGLE");
    reveal_strlit("MID");
    reveal_strlit("SUPPORT");
    reveal_strlit("TOP");
}

fn has_position(listed: &Vec<ChampionPosition>, p: ChampionPosition) -> (res: bool)
    ensures
        res == listed@.contains(p),
{
    let mut k: usize = 0;
    while k < listed.len()
        invariant
            k <= listed.len(),
            forall|q: int| 0 <= q < k ==> listed@[q] != p,
        decreases listed.len() - k,
    {
        if listed[k] == p {
            return true;
        }
        k = k + 1;
    }
    false
}

/// The ranked positions of a champion: of the first summary with the
/// champion's id, the distinct positions other than `NoPosition`, sorted by name.
pub fn ranked_positions(summaries: &Vec<ChampionSummary>, champion_id: u32) -> (res: Result<
    Vec<ChampionPosition>,
    NativeError,
>)
    ensures
        (forall|k: int| 0 <= k < summaries.len() ==> (#[trigger] summaries@[k]).id != champion_id as usize)
            ==> res matches Err(NativeError::ChampionNotFound),
        forall|k: int|
            0 <= k < summaries.len() && (#[trigger] summaries@[k]).id == champion_id as usize
                && (forall|j: int| 0 <= j < k ==> summaries@[j].id != champion_id as usize) ==> {
                let positions = spec_ranked_positions(listed_positions(summaries@[k]));
                if positions.len() == 0 {
                    res matches Err(NativeError::NoRankedPositions)
                } else {
                    res matches Ok(v) && v@ == positions
                }
            },
{
    let target: usize = champion_id as usize;
    let mut k: usize = 0;
    while k < summaries.len()
        invariant
            k <= summaries.len(),
            target == champion_id as usize,
            forall|j: int| 0 <= j < k ==> summaries@[j].id != target,
        decreases summaries.len() - k,
    {
        if summaries[k].id == target {
            let empty: Vec<ChampionPosition> = Vec::new();
            let listed: &Vec<ChampionPosition> = match &summaries[k].positions {
                Some(v) => v,
                None => &empty,
            };
            assert(listed@ == listed_positions(summaries@[k as int]));
            let mut out: Vec<ChampionPosition> = Vec::new();
            if has_position(listed, ChampionPosition::Adc) {
                out.push(ChampionPosition::Adc);
            }
            if has_position(listed, ChampionPosition::Jungle) {
                out.push(ChampionPosition::Jungle);
            }
            if has_position(listed, ChampionPosition::Mid) {
                out.push(ChampionPosition::Mid);
            }
            if has_position(listed, ChampionPosition::Support) {
                out.push(ChampionPosition::Support);
            }
            if has_position(listed, ChampionPosition::Top) {
                out.push(ChampionPosition::Top);
            }
            assert(out@ =~= spec_ranked_positions(listed@));
            if out.len() == 0 {
                return Err(NativeError::NoRankedPositions);
            }
            return Ok(out);
        }
        k = k + 1;
    }
    Err(NativeError::ChampionNotFound)
}

#[verifier::external_type_specification]
#[verifier::external_body]
pub struct ExSystemTime(SystemTime);

/// The current time (std `SystemTime::now`). Nothing is claimed of it.
#[verifier::external_body]
fn system_now() -> SystemTime {
    SystemTime::now()
}

/// The time from the Unix epoch to `t`, or `None` when `t` is earlier (std
/// `SystemTime::duration_since`). Nothing is claimed of the value.
#[verifier::external_body]
fn since_unix_epoch(t: &SystemTime) -> Option<Duration> {
    t.duration_since(std::time::UNIX_EPOCH).ok()
}

/// The whole milliseconds of a duration (std `Duration::as_millis`). Nothing
/// is claimed of the value, since the duration is opaque here.
#[verifier::external_body]
fn whole_millis(d: &Duration) -> u128 {
    d.as_millis()
}

/// A timestamp in milliseconds from the time elapsed since the Unix epoch:
/// zero for a time before the epoch, capped at `i64::MAX`.
pub open spec fn spec_timestamp(elapsed_millis: Option<u128>) -> i64 {
    match elapsed_millis {
        Some(ms) => if ms <= i64::MAX { ms as i64 } else { i64::MAX },
        None => 0,
    }
}

pub fn timestamp_from_elapsed(elapsed_millis: Option<u128>) -> (res: i64)
    ensures
        res == spec_timestamp(elapsed_millis),
{
    match elapsed_millis {
        Some(ms) => if ms <= 0x7FFF_FFFF_FFFF_FFFF {
            ms as i64
        } else {
            0x7FFF_FFFF_FFFF_FFFF
        },
        None => 0,
    }
}

/// The current time in milliseconds since the Unix epoch; never negative.
pub fn unix_timestamp_millis() -> (res: i64)
    ensures
        res >= 0,
{
    let now = system_now();
    let elapsed: Option<u128> = match since_unix_epoch(&now) {
        Some(d) => Some(whole_millis(&d)),
        None => None,
    };
    timestamp_from_elapsed(elapsed)
}

/// A fresh random identifier for a rune page (`uuid::Uuid::new_v4`, in its
/// hyphenated text form).
///
/// Trusted: the text is 36 characters long, as the hyphenated form always
/// is; nothing else is claimed of the random value.
#[verifier::external_body]
fn gen_uuid() -> (res: String)
    ensures
        res@.len() == 36,
{
    uuid::Uuid::new_v4().to_string()
}

/// The characters of a string in Unicode lower case (`str::to_lowercase`).
pub uninterp spec fn unicode_lowercase(s: Seq<char>) -> Seq<char>;

/// Trusted: the result is what `unicode_lowercase` names for the text.
#[verifier::external_body]
fn to_lowercase(s: &str) -> (res: String)
    ensures
        res@ == unicode_lowercase(s@),
{
    s.to_lowercase()
}

/// The statistics of one rune page. `win_rate` is the page's win rate as
/// text, already formatted by the caller.
pub struct RuneStat {
    pub play: usize,
    pub win_rate: String,
    pub primary_page_id: usize,
    pub secondary_page_id: usize,
    pub primary_rune_ids: Vec<usize>,
    pub secondary_rune_ids: Vec<usize>,
    pub stat_mod_ids: Vec<usize>,
}

pub struct RuneStatView {
    pub play: usize,
    pub win_rate: Seq<char>,
    pub primary_page_id: usize,
    pub secondary_page_id: usize,
    pub primary_rune_ids: Seq<usize>,
    pub secondary_rune_ids: Seq<usize>,
    pub stat_mod_ids: Seq<usize>,
}

impl View for RuneStat {
    type V = RuneStatView;

    open spec fn view(&self) -> RuneStatView {
        RuneStatView {
            play: self.play,
            win_rate: self.win_rate@,
            primary_page_id: self.primary_page_id,
            secondary_page_id: self.secondary_page_id,
            primary_rune_ids: self.primary_rune_ids@,
            secondary_rune_ids: self.secondary_rune_ids@,
            stat_mod_ids: self.stat_mod_ids@,
        }
    }
}

/// The statistics of one row of items. `win_rate_key` orders rows by win
/// rate: a larger key is a higher rate, equal keys are equal rates.
pub struct ItemStat {
    pub ids: Vec<usize>,
    pub play: usize,
    pub win_rate_key: u64,
}

pub struct ItemStatView {
    pub ids: Seq<usize>,
    pub play: usize,
    pub win_rate_key: u64,
}

impl View for ItemStat {
    type V = ItemStatView;

    open spec fn view(&self) -> ItemStatView {
        ItemStatView { ids: self.ids@, play: self.play, win_rate_key: self.win_rate_key }
    }
}

/// The statistics of a champion that the builds are made of.
pub struct ChampionInfo {
    pub runes: Vec<RuneStat>,
    pub starter_items: Vec<ItemStat>,
    pub boots: Vec<ItemStat>,
    pub core_items: Vec<ItemStat>,
    pub last_items: Vec<ItemStat>,
}

pub struct ChampionInfoView {
    pub runes: Seq<RuneStatView>,
    pub starter_items: Seq<ItemStatView>,
    pub boots: Seq<ItemStatView>,
    pub core_items: Seq<ItemStatView>,
    pub last_items: Seq<ItemStatView>,
}

pub open spec fn rune_stats_view(s: Seq<RuneStat>) -> Seq<RuneStatView> {
    s.map_values(|r: RuneStat| r@)
}

pub open spec fn item_stats_view(s: Seq<ItemStat>) -> Seq<ItemStatView> {
    s.map_values(|r: ItemStat| r@)
}

impl View for ChampionInfo {
    type V = ChampionInfoView;

    open spec fn view(&self) -> ChampionInfoView {
        ChampionInfoView {
            runes: rune_stats_view(self.runes@),
            starter_items: item_stats_view(self.starter_items@),
            boots: item_stats_view(self.boots@),
            core_items: item_stats_view(self.core_items@),
            last_items: item_stats_view(self.last_items@),
        }
    }
}

/// The most rune pages kept for one section.
pub const MAX_RUNE_PAGES: usize = 4;

/// The smaller of `a` and `b`.
pub open spec fn min_len(a: nat, b: nat) -> nat {
    if a < b { a } else { b }
}

/// Rune pages are ranked by how often they were played.
pub open spec fn rune_keys(stats: Seq<RuneStatView>) -> Seq<u64> {
    stats.map_values(|r: RuneStatView| r.play as u64)
}

/// The perks a rune page selects: its primary runes, then its secondary
/// runes, then its stat shards.
pub open spec fn spec_perk_ids(r: RuneStatView) -> Seq<i64> {
    (r.primary_rune_ids + r.secondary_rune_ids + r.stat_mod_ids).map_values(|id: usize| id as i64)
}

/// The name of the rune page at `index` (from 0) of a section.
pub open spec fn spec_rune_name(alias: Seq<char>, position: Seq<char>, index: int) -> Seq<char> {
    "[OP.GG] "@ + alias + " "@ + position + " #"@ + decimal((index + 1) as nat)
}

/// The rune page made of one page of statistics.
pub open spec fn spec_rune(
    alias: Seq<char>,
    position: Seq<char>,
    index: int,
    r: RuneStatView,
    uuid: Seq<char>,
) -> RuneView {
    RuneView {
        uuid: uuid,
        alias: alias,
        name: spec_rune_name(alias, position, index),
        position: position,
        pick_count: r.play as u64,
        win_rate: r.win_rate,
        primary_style_id: r.primary_page_id as i64,
        sub_style_id: r.secondary_page_id as i64,
        selected_perk_ids: spec_perk_ids(r),
        score: None,
        type_field: Seq::empty(),
    }
}

/// The rune pages of a section: the `MAX_RUNE_PAGES` most played pages, most
/// played first (ties keep their order), numbered from 1, with the given ids.
pub open spec fn spec_runes(
    alias: Seq<char>,
    position: Seq<char>,
    stats: Seq<RuneStatView>,
    uuids: Seq<Seq<char>>,
) -> Seq<RuneView> {
    let order = desc_order(rune_keys(stats));
    Seq::new(
        min_len(MAX_RUNE_PAGES as nat, stats.len()),
        |i: int| spec_rune(alias, position, i, stats[order[i] as int], uuids[i]),
    )
}

fn push_as_i64(out: &mut Vec<i64>, ids: &Vec<usize>)
    ensures
        final(out)@ == old(out)@ + ids@.map_values(|id: usize| id as i64),
{
    let ghost start = out@;
    let mut k: usize = 0;
    while k < ids.len()
        invariant
            k <= ids.len(),
            out@ == start + ids@.subrange(0, k as int).map_values(|id: usize| id as i64),
        decreases ids.len() - k,
    {
        out.push(ids[k] as i64);
        k = k + 1;
        assert(out@ =~= start + ids@.subrange(0, k as int).map_values(|id: usize| id as i64));
    }
    assert(ids@.subrange(0, ids.len() as int) =~= ids@);
}

fn rune_name(alias: &str, position: &str, index: usize) -> (res: String)
    requires
        index < 0xFFFF_FFFF,
    ensures
        res@ == spec_rune_name(alias@, position@, index as int),
{
    let mut out = chars_of("[OP.GG] ");
    let mut a = chars_of(alias);
    out.append(&mut a);
    let mut sp = chars_of(" ");
    out.append(&mut sp);
    let mut p = chars_of(position);
    out.append(&mut p);
    let mut hash = chars_of(" #");
    out.append(&mut hash);
    let mut number = u64_decimal((index + 1) as u64);
    out.append(&mut number);
    string_from_chars(out.as_slice())
}

/// The rune pages of a section, with the given page ids.
pub fn runes_with_ids(alias: &str, position: &str, source: &Vec<RuneStat>, uuids: &Vec<String>) -> (res:
    Vec<Rune>)
    requires
        uuids.len() >= min_len(MAX_RUNE_PAGES as nat, source.len() as nat),
    ensures
        runes_view(res@) == spec_runes(alias@, position@, rune_stats_view(source@), strings_view(uuids@)),
{
    let ghost stats = rune_stats_view(source@);
    let mut keys: Vec<u64> = Vec::new();
    let mut k: usize = 0;
    while k < source.len()
        invariant
            k <= source.len(),
            keys@ == rune_keys(stats).subrange(0, k as int),
            stats == rune_stats_view(source@),
        decreases source.len() - k,
    {
        keys.push(source[k].play as u64);
        k = k + 1;
        assert(keys@ =~= rune_keys(stats).subrange(0, k as int));
    }
    assert(keys@ =~= rune_keys(stats));
    let order = stable_desc_order(&keys);
    let n: usize = if source.len() < MAX_RUNE_PAGES { source.len() } else { MAX_RUNE_PAGES };
    let ghost expected = spec_runes(alias@, position@, stats, strings_view(uuids@));
    let mut out: Vec<Rune> = Vec::new();
    let mut i: usize = 0;
    while i < n
        invariant
            i <= n <= MAX_RUNE_PAGES,
            n == min_len(MAX_RUNE_PAGES as nat, source.len() as nat),
            n <= uuids.len(),
            order@ == desc_order(rune_keys(stats)),
            order.len() == source.len(),
            forall|q: int| 0 <= q < order.len() ==> #[trigger] order@[q] < source.len(),
            stats == rune_stats_view(source@),
            expected == spec_runes(alias@, position@, stats, strings_view(uuids@)),
            out.len() == i,
            forall|q: int| 0 <= q < i ==> (#[trigger] out@[q])@ == expected[q],
        decreases n - i,
    {
        let r = &source[order[i]];
        let mut perks: Vec<i64> = Vec::new();
        push_as_i64(&mut perks, &r.primary_rune_ids);
        push_as_i64(&mut perks, &r.secondary_rune_ids);
        push_as_i64(&mut perks, &r.stat_mod_ids);
        let rune = Rune {
            uuid: uuids[i].clone(),
            alias: alias.to_owned(),
            name: rune_name(alias, position, i),
            position: position.to_owned(),
            pick_count: r.play as u64,
            win_rate: r.win_rate.clone(),
            primary_style_id: r.primary_page_id as i64,
            sub_style_id: r.secondary_page_id as i64,
            selected_perk_ids: perks,
            score: None,
            type_field: String::new(),
        };
        proof {
            assert(stats[order@[i as int] as int] == r@);
            assert(rune@.selected_perk_ids =~= spec_perk_ids(r@));
            assert(rune@ == expected[i as int]);
        }
        out.push(rune);
        i = i + 1;
    }
    assert(runes_view(out@) =~= expected);
    out
}

fn fresh_uuids(n: usize) -> (res: Vec<String>)
    ensures
        res.len() == n,
        forall|i: int| 0 <= i < n ==> (#[trigger] res@[i])@.len() == 36,
{
    let mut out: Vec<String> = Vec::new();
    let mut k: usize = 0;
    while k < n
        invariant
            k <= n,
            out.len() == k,
            forall|i: int| 0 <= i < k ==> (#[trigger] out@[i])@.len() == 36,
        decreases n - k,
    {
        out.push(gen_uuid());
        k = k + 1;
    }
    out
}

/// The rune pages of a section, each with a fresh random id.
pub fn transform_runes(alias: &str, position: &str, source: &Vec<RuneStat>) -> (res: Vec<Rune>)
    ensures
        runes_view(res@) == spec_runes(
            alias@,
            position@,
            rune_stats_view(source@),
            res@.map_values(|r: Rune| r.uuid@),
        ),
        forall|i: int| 0 <= i < res.len() ==> (#[trigger] res@[i]).uuid@.len() == 36,
{
    let n: usize = if source.len() < MAX_RUNE_PAGES { source.len() } else { MAX_RUNE_PAGES };
    let uuids = fresh_uuids(n);
    let res = runes_with_ids(alias, position, source, &uuids);
    proof {
        assert forall|i: int| 0 <= i < res.len() implies (#[trigger] res@[i]).uuid@.len() == 36 by {
            assert(runes_view(res@).len() == res@.len());
            assert(i < uuids.len());
            assert(runes_view(res@)[i] == res@[i]@);
            assert(strings_view(uuids@)[i] == uuids@[i]@);
        }
        let ids = res@.map_values(|r: Rune| r.uuid@);
        let a = spec_runes(alias@, position@, rune_stats_view(source@), strings_view(uuids@));
        let b = spec_runes(alias@, position@, rune_stats_view(source@), ids);
        assert forall|q: int| 0 <= q < a.len() implies a[q] == b[q] by {
            assert(runes_view(res@)[q] == a[q]);
        }
        assert(a =~= b);
    }
    res
}

/// Rows of items are ranked by win rate or by how often they were played.
pub open spec fn item_keys(rows: Seq<ItemStatView>, by_win_rate: bool) -> Seq<u64> {
    rows.map_values(|r: ItemStatView| if by_win_rate { r.win_rate_key } else { r.play as u64 })
}

/// The item ids of the rows at the listed indices, row after row.
pub open spec fn concat_ids(rows: Seq<ItemStatView>, picked: Seq<usize>) -> Seq<usize>
    decreases picked.len(),
{
    if picked.len() == 0 {
        Seq::empty()
    } else {
        concat_ids(rows, picked.drop_last()) + rows[picked.last() as int].ids
    }
}

/// The first occurrence of each value, in order.
pub open spec fn first_occurrences(s: Seq<usize>) -> Seq<usize>
    decreases s.len(),
{
    if s.len() == 0 {
        Seq::empty()
    } else {
        let earlier = first_occurrences(s.drop_last());
        if earlier.contains(s.last()) {
            earlier
        } else {
            earlier.push(s.last())
        }
    }
}

/// The item ids of a block: those of the `max_rows` best rows, best first
/// (ties keep their order), each id once, where it first appears.
pub open spec fn spec_block_ids(rows: Seq<ItemStatView>, by_win_rate: bool, max_rows: usize) -> Seq<usize> {
    let order = desc_order(item_keys(rows, by_win_rate));
    first_occurrences(concat_ids(rows, order.take(min_len(max_rows as nat, rows.len()) as int)))
}

/// The items of a block, one of each id.
pub open spec fn spec_block_items(ids: Seq<usize>) -> Seq<ItemView> {
    ids.map_values(|id: usize| ItemView { id: decimal(id as nat), count: 1 })
}

/// The blocks after a block is added: it is added only when it has items.
pub open spec fn spec_push_block(
    blocks: Seq<BlockView>,
    title: Seq<char>,
    rows: Seq<ItemStatView>,
    by_win_rate: bool,
    max_rows: usize,
) -> Seq<BlockView> {
    let ids = spec_block_ids(rows, by_win_rate, max_rows);
    if ids.len() == 0 {
        blocks
    } else {
        blocks.push(BlockView { type_field: title, items: Some(spec_block_items(ids)) })
    }
}

fn item_for(id: usize) -> (res: Item)
    ensures
        res@ == (ItemView { id: decimal(id as nat), count: 1 }),
{
    let text = u64_decimal(id as u64);
    Item { id: string_from_chars(text.as_slice()), count: 1 }
}

/// Adds a block of the best rows' items, unless it would be empty.
pub fn push_item_block(blocks: &mut Vec<Block>, title: &str, rows: &Vec<ItemStat>, by_win_rate: bool, max_rows: usize)
    ensures
        blocks_view(final(blocks)@) == spec_push_block(
            blocks_view(old(blocks)@),
            title@,
            item_stats_view(rows@),
            by_win_rate,
            max_rows,
        ),
{
    let ghost rv = item_stats_view(rows@);
    if rows.len() == 0 {
        proof {
            let order = desc_order(item_keys(rv, by_win_rate));
            assert(order.take(0) =~= Seq::<usize>::empty());
            assert(concat_ids(rv, order.take(0)) =~= Seq::<usize>::empty());
            assert(first_occurrences(Seq::<usize>::empty()) =~= Seq::<usize>::empty());
        }
        return;
    }
    let mut keys: Vec<u64> = Vec::new();
    let mut k: usize = 0;
    while k < rows.len()
        invariant
            k <= rows.len(),
            rv == item_stats_view(rows@),
            keys@ == item_keys(rv, by_win_rate).subrange(0, k as int),
        decreases rows.len() - k,
    {
        let key: u64 = if by_win_rate { rows[k].win_rate_key } else { rows[k].play as u64 };
        keys.push(key);
        k = k + 1;
        assert(keys@ =~= item_keys(rv, by_win_rate).subrange(0, k as int));
    }
    assert(keys@ =~= item_keys(rv, by_win_rate));
    let order = stable_desc_order(&keys);
    let take: usize = if max_rows < rows.len() { max_rows } else { rows.len() };
    let ghost picked = order@.take(take as int);

    let mut seen: HashSet<usize> = HashSet::new();
    let mut ids: Vec<usize> = Vec::new();
    let mut items: Vec<Item> = Vec::new();
    let mut r: usize = 0;
    while r < take
        invariant
            r <= take <= rows.len(),
            take == min_len(max_rows as nat, rows.len() as nat),
            rv == item_stats_view(rows@),
            order.len() == rows.len(),
            forall|q: int| 0 <= q < order.len() ==> #[trigger] order@[q] < rows.len(),
            picked == order@.take(take as int),
            ids@ == first_occurrences(concat_ids(rv, picked.take(r as int))),
            forall|x: usize| #[trigger] seen@.contains(x) <==> ids@.contains(x),
            items_view(items@) == spec_block_items(ids@),
        decreases take - r,
    {
        let row = &rows[order[r]];
        let ghost before = concat_ids(rv, picked.take(r as int));
        let mut j: usize = 0;
        while j < row.ids.len()
            invariant
                j <= row.ids.len(),
                ids@ == first_occurrences(before + row.ids@.take(j as int)),
                forall|x: usize| #[trigger] seen@.contains(x) <==> ids@.contains(x),
                items_view(items@) == spec_block_items(ids@),
            decreases row.ids.len() - j,
        {
            let id = row.ids[j];
            let ghost flat = before + row.ids@.take(j as int);
            assert((before + row.ids@.take(j + 1)).drop_last() =~= flat);
            assert((before + row.ids@.take(j + 1)).last() == id);
            let ghost old_ids = ids@;
            let ghost old_items = items@;
            assert(items_view(old_items).len() == old_items.len());
            assert(spec_block_items(old_ids).len() == old_ids.len());
            if seen.insert(id) {
                ids.push(id);
                items.push(item_for(id));
                assert forall|x: usize| #[trigger] seen@.contains(x) <==> ids@.contains(x) by {
                    if x == id {
                        assert(ids@[old_ids.len() as int] == id);
                    } else if old_ids.contains(x) {
                        let q = choose|q: int| 0 <= q < old_ids.len() && old_ids[q] == x;
                        assert(ids@[q] == x);
                    } else if ids@.contains(x) {
                        let q = choose|q: int| 0 <= q < ids@.len() && ids@[q] == x;
                        assert(q < old_ids.len());
                        assert(old_ids[q] == x);
                    }
                }
                assert forall|q: int| 0 <= q < items@.len() implies #[trigger] items_view(items@)[q] == spec_block_items(ids@)[q] by {
                    if q < old_items.len() {
                        assert(items@[q] == old_items[q]);
                        assert(items_view(old_items)[q] == spec_block_items(old_ids)[q]);
                        assert(ids@[q] == old_ids[q]);
                    } else {
                        assert(ids@[q] == id);
                    }
                }
                assert(items_view(items@) =~= spec_block_items(ids@));
            }
            j = j + 1;
        }
        proof {
            assert(row.ids@.take(row.ids.len() as int) =~= row.ids@);
            assert(picked.take(r + 1).drop_last() =~= picked.take(r as int));
            assert(picked.take(r + 1).last() == order@[r as int]);
            assert(rv[order@[r as int] as int] == row@);
        }
        r = r + 1;
    }
    proof {
        assert(picked.take(take as int) =~= picked);
    }
    if ids.len() > 0 {
        blocks.push(Block { type_field: title.to_owned(), items: Some(items) });
        assert(blocks_view(final(blocks)@) =~= blocks_view(old(blocks)@).push(
            BlockView { type_field: title@, items: Some(spec_block_items(ids@)) },
        ));
    }
}

fn append_str(out: &mut Vec<char>, s: &str)
    ensures
        final(out)@ == old(out)@ + s@,
{
    let mut piece = chars_of(s);
    out.append(&mut piece);
}

/// The blocks of an item set: starter items (best row), boots (six best
/// rows), core build (best row), situational and last items (eight best
/// rows), each only when it has items.
pub open spec fn spec_item_blocks(info: ChampionInfoView, by_win_rate: bool) -> Seq<BlockView> {
    let b0 = spec_push_block(Seq::empty(), "Starter Items"@, info.starter_items, by_win_rate, 1);
    let b1 = spec_push_block(b0, "Boots"@, info.boots, by_win_rate, 6);
    let b2 = spec_push_block(b1, "Core Build"@, info.core_items, by_win_rate, 1);
    spec_push_block(b2, "Situational / Last Items"@, info.last_items, by_win_rate, 8)
}

/// The title of an item set, e.g. `[OP.GG] Ahri ARAM - Build (Highest WR)`:
/// the mode is named unless it is Ranked, the position unless it is empty or
/// the mode's own name, and the win-rate set is marked.
pub open spec fn spec_item_set_title(
    alias: Seq<char>,
    position: Seq<char>,
    mode_label: Seq<char>,
    label: Seq<char>,
) -> Seq<char> {
    let mode_tag = if mode_label == "Ranked"@ { Seq::empty() } else { " "@ + mode_label };
    let position_tag = if position.len() == 0 || eq_ignore_ascii_case(position, mode_label) {
        "Build"@
    } else {
        position
    };
    let suffix = if label == "Highest Win Rate"@ { " (Highest WR)"@ } else { Seq::empty() };
    "[OP.GG] "@ + alias + mode_tag + " - "@ + position_tag + suffix
}

/// The item set of a champion, or `None` when it would have no block.
pub open spec fn spec_item_set(
    champion_id: i64,
    alias: Seq<char>,
    position: Seq<char>,
    mode_label: Seq<char>,
    map_id: i64,
    label: Seq<char>,
    by_win_rate: bool,
    info: ChampionInfoView,
    sortrank: i64,
) -> Option<ItemBuildView> {
    let blocks = spec_item_blocks(info, by_win_rate);
    if blocks.len() == 0 {
        None
    } else {
        Some(ItemBuildView {
            title: spec_item_set_title(alias, position, mode_label, label),
            associated_maps: seq![map_id],
            associated_champions: seq![champion_id],
            blocks: blocks,
            map: "any"@,
            mode: "any"@,
            preferred_item_slots: Some(Seq::empty()),
            sortrank: sortrank,
            started_from: "op.gg"@,
            type_field: Some("custom"@),
        })
    }
}

fn item_set_title(alias: &str, position: &str, mode_label: &str, label: &str) -> (res: String)
    ensures
        res@ == spec_item_set_title(alias@, position@, mode_label@, label@),
{
    proof {
        reveal_strlit("");
    }
    let mut out = chars_of("[OP.GG] ");
    append_str(&mut out, alias);
    if !str_equal(mode_label, "Ranked") {
        append_str(&mut out, " ");
        append_str(&mut out, mode_label);
    }
    append_str(&mut out, " - ");
    let pv = chars_of(position);
    let mv = chars_of(mode_label);
    if pv.len() == 0 || chars_eq_ignore_ascii_case(&pv, &mv) {
        append_str(&mut out, "Build");
    } else {
        append_str(&mut out, position);
    }
    if str_equal(label, "Highest Win Rate") {
        append_str(&mut out, " (Highest WR)");
    }
    let ghost expected = spec_item_set_title(alias@, position@, mode_label@, label@);
    assert(out@ =~= expected);
    string_from_chars(out.as_slice())
}

/// One item set of a champion: the blocks of its best rows, ranked by win
/// rate or by play count, under a title naming champion, mode and position.
pub fn build_item_set(
    champion_id: i64,
    champion_alias: &str,
    position: &str,
    mode_label: &str,
    map_id: i64,
    label: &str,
    by_win_rate: bool,
    info: &ChampionInfo,
    sortrank: i64,
) -> (res: Option<ItemBuild>)
    ensures
        match res {
            Some(b) => spec_item_set(champion_id, champion_alias@, position@, mode_label@, map_id, label@, by_win_rate, info@, sortrank) == Some(b@),
            None => spec_item_set(champion_id, champion_alias@, position@, mode_label@, map_id, label@, by_win_rate, info@, sortrank) is None,
        },
        res matches Some(b) ==> blocks_lead_with_best_rows(blocks_view(b.blocks@), info@, by_win_rate),
{
    proof {
        assert(info@.starter_items.len() == info.starter_items.len());
        assert(info@.boots.len() == info.boots.len());
        assert(info@.core_items.len() == info.core_items.len());
        assert(info@.last_items.len() == info.last_items.len());
        lemma_item_set_blocks_come_from_best_rows(info@, by_win_rate);
    }
    let mut blocks: Vec<Block> = Vec::new();
    assert(blocks_view(blocks@) =~= Seq::<BlockView>::empty());
    push_item_block(&mut blocks, "Starter Items", &info.starter_items, by_win_rate, 1);
    push_item_block(&mut blocks, "Boots", &info.boots, by_win_rate, 6);
    push_item_block(&mut blocks, "Core Build", &info.core_items, by_win_rate, 1);
    push_item_block(&mut blocks, "Situational / Last Items", &info.last_items, by_win_rate, 8);
    assert(blocks_view(blocks@) == spec_item_blocks(info@, by_win_rate));
    if blocks.len() == 0 {
        return None;
    }
    let mut maps: Vec<i64> = Vec::new();
    maps.push(map_id);
    let mut champions: Vec<i64> = Vec::new();
    champions.push(champion_id);
    let build = ItemBuild {
        title: item_set_title(champion_alias, position, mode_label, label),
        associated_maps: maps,
        associated_champions: champions,
        blocks,
        map: "any".to_owned(),
        mode: "any".to_owned(),
        preferred_item_slots: Some(Vec::new()),
        sortrank,
        started_from: "op.gg".to_owned(),
        type_field: Some("custom".to_owned()),
    };
    assert(build@.associated_maps =~= seq![map_id]);
    assert(build@.associated_champions =~= seq![champion_id]);
    assert(strings_view(Seq::<String>::empty()) =~= Seq::<Seq<char>>::empty());
    Some(build)
}

/// The present item set of an option, as a list of zero or one.
pub open spec fn present(o: Option<ItemBuildView>) -> Seq<ItemBuildView> {
    match o {
        Some(b) => seq![b],
        None => Seq::empty(),
    }
}

/// The item sets of a section: the most popular set, then the highest
/// win-rate set, each when it has blocks.
pub open spec fn spec_item_builds(
    champion_id: i64,
    alias: Seq<char>,
    position: Seq<char>,
    mode_label: Seq<char>,
    map_id: i64,
    info: ChampionInfoView,
) -> Seq<ItemBuildView> {
    present(spec_item_set(champion_id, alias, position, mode_label, map_id, "Most Popular"@, false, info, 0))
        + present(spec_item_set(champion_id, alias, position, mode_label, map_id, "Highest Win Rate"@, true, info, 1))
}

pub fn transform_item_builds(
    champion_id: i64,
    champion_alias: &str,
    position: &str,
    mode_label: &str,
    map_id: i64,
    info: &ChampionInfo,
) -> (res: Vec<ItemBuild>)
    ensures
        item_builds_view(res@) == spec_item_builds(champion_id, champion_alias@, position@, mode_label@, map_id, info@),
{
    let popular = build_item_set(champion_id, champion_alias, position, mode_label, map_id, "Most Popular", false, info, 0);
    let high_wr = build_item_set(champion_id, champion_alias, position, mode_label, map_id, "Highest Win Rate", true, info, 1);
    let mut out: Vec<ItemBuild> = Vec::new();
    if let Some(b) = popular {
        out.push(b);
    }
    if let Some(b) = high_wr {
        out.push(b);
    }
    assert(item_builds_view(out@) =~= spec_item_builds(champion_id, champion_alias@, position@, mode_label@, map_id, info@));
    out
}

/// The name of a game mode in section ids and titles.
pub open spec fn spec_mode_label(mode: GameMode) -> Seq<char> {
    match mode {
        GameMode::Aram => "ARAM"@,
        GameMode::Ranked => "Ranked"@,
    }
}

/// The League client map a game mode is played on.
pub open spec fn spec_map_id(mode: GameMode) -> i64 {
    match mode {
        GameMode::Aram => 12,
        GameMode::Ranked => 11,
    }
}

/// The build section of a champion for one mode and position, with the
/// given rune page ids and timestamp.
pub open spec fn spec_section(
    champion_id: i64,
    alias: Seq<char>,
    position: Seq<char>,
    mode: GameMode,
    version: Seq<char>,
    info: ChampionInfoView,
    uuids: Seq<Seq<char>>,
    timestamp: i64,
) -> BuildSectionView {
    let mode_label = spec_mode_label(mode);
    let runes = spec_runes(alias, position, info.runes, uuids);
    BuildSectionView {
        index: 0,
        id: "opgg-"@ + unicode_lowercase(alias) + "-"@ + unicode_lowercase(mode_label) + "-"@
            + unicode_lowercase(position),
        version: version,
        official_version: version,
        pick_count: if runes.len() > 0 { runes[0].pick_count as i64 } else { 0 },
        win_rate: if runes.len() > 0 { runes[0].win_rate } else { "0.00%"@ },
        timestamp: timestamp,
        alias: alias,
        name: alias,
        position: position,
        skills: None,
        spells: None,
        champion_tier: None,
        item_builds: spec_item_builds(champion_id, alias, position, mode_label, spec_map_id(mode), info),
        runes: runes,
    }
}

/// The build section of a champion, with the given rune page ids and
/// timestamp.
pub fn section_with(
    champion_id: i64,
    champion_alias: &str,
    position: &str,
    mode: GameMode,
    version: &str,
    info: &ChampionInfo,
    uuids: &Vec<String>,
    timestamp: i64,
) -> (res: BuildSection)
    requires
        uuids.len() >= min_len(MAX_RUNE_PAGES as nat, info.runes.len() as nat),
    ensures
        res@ == spec_section(champion_id, champion_alias@, position@, mode, version@, info@, strings_view(uuids@), timestamp),
        res.runes.len() > 0 <==> info.runes.len() > 0,
        res.runes.len() > 0 ==> {
            &&& res.pick_count == res.runes@[0].pick_count as i64
            &&& res.win_rate@ == res.runes@[0].win_rate@
            &&& forall|j: int| 0 <= j < info.runes.len() ==> (#[trigger] info.runes@[j]).play as u64 <= res.runes@[0].pick_count
        },
        res.runes.len() == 0 ==> res.pick_count == 0 && res.win_rate@ == "0.00%"@,
{
    proof {
        lemma_section_reports_most_played_page(
            champion_id, champion_alias@, position@, mode, version@, info@, strings_view(uuids@), timestamp,
        );
    }
    let map_id: i64 = match mode {
        GameMode::Aram => 12,
        GameMode::Ranked => 11,
    };
    let mode_label: &str = match mode {
        GameMode::Aram => "ARAM",
        GameMode::Ranked => "Ranked",
    };
    let runes = runes_with_ids(champion_alias, position, &info.runes, uuids);
    let item_builds = transform_item_builds(champion_id, champion_alias, position, mode_label, map_id, info);
    let ghost rv = runes_view(runes@);
    let (pick_count, win_rate): (i64, String) = if runes.len() > 0 {
        assert(rv[0] == runes@[0]@);
        (runes[0].pick_count as i64, runes[0].win_rate.clone())
    } else {
        (0, "0.00%".to_owned())
    };
    let mut id = chars_of("opgg-");
    append_str(&mut id, to_lowercase(champion_alias).as_str());
    append_str(&mut id, "-");
    append_str(&mut id, to_lowercase(mode_label).as_str());
    append_str(&mut id, "-");
    append_str(&mut id, to_lowercase(position).as_str());
    let res = BuildSection {
        index: 0,
        id: string_from_chars(id.as_slice()),
        version: version.to_owned(),
        official_version: version.to_owned(),
        pick_count,
        win_rate,
        timestamp,
        alias: champion_alias.to_owned(),
        name: champion_alias.to_owned(),
        position: position.to_owned(),
        skills: None,
        spells: None,
        champion_tier: None,
        item_builds,
        runes,
    };
    proof {
        assert forall|j: int| 0 <= j < info.runes.len() implies (#[trigger] info.runes@[j]).play == info@.runes[j].play by {}
        if res.runes.len() > 0 {
            assert(runes_view(res.runes@)[0] == res.runes@[0]@);
        }
    }
    res
}

/// The build section of a champion for one mode and position. The rune
/// pages get fresh random ids and the section the current time.
pub fn transform_info(
    champion_id: i64,
    champion_alias: &str,
    position: &str,
    mode: GameMode,
    version: &str,
    info: &ChampionInfo,
) -> (res: BuildSection)
    ensures
        res@ == spec_section(
            champion_id,
            champion_alias@,
            position@,
            mode,
            version@,
            info@,
            res.runes@.map_values(|r: Rune| r.uuid@),
            res.timestamp,
        ),
        res.timestamp >= 0,
        forall|i: int| 0 <= i < res.runes.len() ==> (#[trigger] res.runes@[i]).uuid@.len() == 36,
{
    let n: usize = if info.runes.len() < MAX_RUNE_PAGES { info.runes.len() } else { MAX_RUNE_PAGES };
    let uuids = fresh_uuids(n);
    let timestamp = unix_timestamp_millis();
    let res = section_with(champion_id, champion_alias, position, mode, version, info, &uuids, timestamp);
    proof {
        assert forall|i: int| 0 <= i < res.runes.len() implies (#[trigger] res.runes@[i]).uuid@.len() == 36 by {
            assert(runes_view(res.runes@)[i] == res.runes@[i]@);
        }
        let ids = res.runes@.map_values(|r: Rune| r.uuid@);
        let a = spec_runes(champion_alias@, position@, info@.runes, strings_view(uuids@));
        let b = spec_runes(champion_alias@, position@, info@.runes, ids);
        assert forall|q: int| 0 <= q < a.len() implies a[q] == b[q] by {
            assert(runes_view(res.runes@)[q] == a[q]);
        }
        assert(a =~= b);
    }
    res
}

/// What OP.GG returned for one ranked position: its statistics and their
/// version, or nothing where the request failed.
pub struct FetchedInfo {
    pub version: String,
    pub info: ChampionInfo,
}

pub struct PositionBuild {
    pub position: ChampionPosition,
    pub fetched: Option<FetchedInfo>,
}

/// The positions whose statistics were fetched, in order.
pub open spec fn fetched_builds(rs: Seq<PositionBuild>) -> Seq<PositionBuild>
    decreases rs.len(),
{
    if rs.len() == 0 {
        Seq::empty()
    } else {
        let earlier = fetched_builds(rs.drop_last());
        if rs.last().fetched is Some {
            earlier.push(rs.last())
        } else {
            earlier
        }
    }
}

/// The ranked build section of one fetched position, with the given rune page
/// ids and timestamp.
pub open spec fn spec_ranked_section(
    champion_id: i64,
    alias: Seq<char>,
    b: PositionBuild,
    uuids: Seq<Seq<char>>,
    timestamp: i64,
) -> BuildSectionView {
    let f = b.fetched.unwrap();
    spec_section(
        champion_id,
        alias,
        spec_position_label(b.position),
        GameMode::Ranked,
        f.version@,
        f.info@,
        uuids,
        timestamp,
    )
}

/// The ranked build sections of a champion: one for each position whose
/// statistics were fetched, in order; an error when there is none.
pub fn ranked_sections(champion_id: i64, champion_alias: &str, responses: &Vec<PositionBuild>) -> (res:
    Result<Vec<BuildSection>, NativeError>)
    ensures
        res is Err <==> fetched_builds(responses@).len() == 0,
        res is Err ==> res matches Err(NativeError::NoRankedBuilds),
        res matches Ok(sections) ==> {
            &&& sections.len() == fetched_builds(responses@).len()
            &&& forall|k: int| 0 <= k < sections.len() ==> {
                &&& (#[trigger] sections@[k])@ == spec_ranked_section(
                    champion_id,
                    champion_alias@,
                    fetched_builds(responses@)[k],
                    sections@[k].runes@.map_values(|r: Rune| r.uuid@),
                    sections@[k].timestamp,
                )
                &&& sections@[k].timestamp >= 0
            }
        },
{
    let mut sections: Vec<BuildSection> = Vec::new();
    let mut i: usize = 0;
    while i < responses.len()
        invariant
            i <= responses.len(),
            sections.len() == fetched_builds(responses@.take(i as int)).len(),
            forall|k: int| 0 <= k < sections.len() ==> {
                &&& (#[trigger] sections@[k])@ == spec_ranked_section(
                    champion_id,
                    champion_alias@,
                    fetched_builds(responses@.take(i as int))[k],
                    sections@[k].runes@.map_values(|r: Rune| r.uuid@),
                    sections@[k].timestamp,
                )
                &&& sections@[k].timestamp >= 0
            },
        decreases responses.len() - i,
    {
        let ghost before = fetched_builds(responses@.take(i as int));
        assert(responses@.take(i + 1).drop_last() =~= responses@.take(i as int));
        assert(responses@.take(i + 1).last() == responses@[i as int]);
        let b = &responses[i];
        match &b.fetched {
            Some(f) => {
                let section = transform_info(
                    champion_id,
                    champion_alias,
                    position_label(b.position),
                    GameMode::Ranked,
                    f.version.as_str(),
                    &f.info,
                );
                sections.push(section);
            },
            None => {},
        }
        i = i + 1;
    }
    assert(responses@.take(responses.len() as int) =~= responses@);
    if sections.len() == 0 {
        return Err(NativeError::NoRankedBuilds);
    }
    Ok(sections)
}

/// The ranked positions never include `NoPosition` and never repeat one.
pub proof fn lemma_ranked_positions_distinct(listed: Seq<ChampionPosition>)
    ensures
        !spec_ranked_positions(listed).contains(ChampionPosition::NoPosition),
        forall|i: int, j: int|
            0 <= i < j < spec_ranked_positions(listed).len() ==> spec_ranked_positions(listed)[i]
                != spec_ranked_positions(listed)[j],
        forall|p: ChampionPosition|
            p != ChampionPosition::NoPosition ==> (spec_ranked_positions(listed).contains(p) <==> listed.contains(p)),
{
    let r = spec_ranked_positions(listed);
    assert(r.len() <= 5);
    assert forall|i: int, j: int| 0 <= i < j < r.len() implies r[i] != r[j] by {
        // Each position sits at a place fixed by its rank.
    }
    assert forall|p: ChampionPosition| p != ChampionPosition::NoPosition implies (r.contains(p) <==> listed.contains(p)) by {
        if listed.contains(p) {
            let idx: int = match p {
                ChampionPosition::Adc => 0,
                ChampionPosition::Jungle => keep_if_listed(ChampionPosition::Adc, listed).len() as int,
                ChampionPosition::Mid => (keep_if_listed(ChampionPosition::Adc, listed) + keep_if_listed(ChampionPosition::Jungle, listed)).len() as int,
                ChampionPosition::Support => (keep_if_listed(ChampionPosition::Adc, listed) + keep_if_listed(ChampionPosition::Jungle, listed)
                    + keep_if_listed(ChampionPosition::Mid, listed)).len() as int,
                _ => (keep_if_listed(ChampionPosition::Adc, listed) + keep_if_listed(ChampionPosition::Jungle, listed)
                    + keep_if_listed(ChampionPosition::Mid, listed) + keep_if_listed(ChampionPosition::Support, listed)).len() as int,
            };
            assert(r[idx] == p);
        }
    }
}

/// The rune pages come most played first, and there are at most
/// `MAX_RUNE_PAGES` of them.
pub proof fn lemma_runes_most_played_first(
    alias: Seq<char>,
    position: Seq<char>,
    stats: Seq<RuneStatView>,
    uuids: Seq<Seq<char>>,
)
    requires
        stats.len() <= usize::MAX,
    ensures
        spec_runes(alias, position, stats, uuids).len() <= MAX_RUNE_PAGES,
        forall|i: int, j: int|
            0 <= i < j < spec_runes(alias, position, stats, uuids).len() ==> spec_runes(alias, position, stats, uuids)[i].pick_count
                >= spec_runes(alias, position, stats, uuids)[j].pick_count,
{
    let keys = rune_keys(stats);
    let order = desc_order(keys);
    lemma_desc_order_exists(keys);
    let runes = spec_runes(alias, position, stats, uuids);
    assert forall|i: int, j: int| 0 <= i < j < runes.len() implies runes[i].pick_count >= runes[j].pick_count by {
        assert(precedes(keys, order[i] as int, order[j] as int));
        assert(keys[order[i] as int] == stats[order[i] as int].play as u64);
        assert(keys[order[j] as int] == stats[order[j] as int].play as u64);
    }
}

/// Within a block, no item appears twice.
pub proof fn lemma_first_occurrences_distinct(s: Seq<usize>)
    ensures
        forall|i: int, j: int|
            0 <= i < j < first_occurrences(s).len() ==> first_occurrences(s)[i] != first_occurrences(s)[j],
    decreases s.len(),
{
    if s.len() > 0 {
        lemma_first_occurrences_distinct(s.drop_last());
        let e = first_occurrences(s.drop_last());
        if !e.contains(s.last()) {
            assert forall|i: int, j: int| 0 <= i < j < e.push(s.last()).len() implies e.push(s.last())[i] != e.push(s.last())[j] by {
                if j == e.len() {
                    assert(e[i] == e.push(s.last())[i]);
                }
            }
        }
    }
}

/// Each native built-in source is offered for the game mode it serves: its
/// ARAM flag is set exactly when it is served in ARAM, and it is never URF.
pub proof fn lemma_builtin_native_sources_match_modes()
    ensures
        forall|i: int|
            0 <= i < spec_builtin_sources().len() && spec_is_native_source(#[trigger] spec_builtin_sources()[i].value) ==> {
                &&& (spec_native_mode(spec_builtin_sources()[i].value) == Some(GameMode::Aram)
                    <==> spec_builtin_sources()[i].is_aram == Some(true))
                &&& spec_builtin_sources()[i].is_urf != Some(true)
            },
{
    reveal_strlit("op.gg");
    reveal_strlit("op.gg-aram");
    reveal_strlit("lolalytics");
    reveal_strlit("murderbridge");
    let b = spec_builtin_sources();
    assert(b[2].value != OP_GG_RANKED@ && b[2].value != OP_GG_ARAM@) by {
        assert(b[2].value[0] != OP_GG_RANKED@[0]);
    }
    assert(b[3].value != OP_GG_RANKED@ && b[3].value != OP_GG_ARAM@) by {
        assert(b[3].value[0] != OP_GG_RANKED@[0]);
    }
    assert(b[1].value != OP_GG_RANKED@) by {
        assert(b[1].value.len() != OP_GG_RANKED@.len());
    }
}

/// The ARAM build sections of a champion: one section, for the position
/// `ARAM`, made of the fetched statistics.
pub fn aram_sections(champion_id: i64, champion_alias: &str, version: &str, info: &ChampionInfo) -> (res: Vec<
    BuildSection,
>)
    ensures
        res.len() == 1,
        res@[0]@ == spec_section(
            champion_id,
            champion_alias@,
            "ARAM"@,
            GameMode::Aram,
            version@,
            info@,
            res@[0].runes@.map_values(|r: Rune| r.uuid@),
            res@[0].timestamp,
        ),
        res@[0].timestamp >= 0,
{
    let section = transform_info(champion_id, champion_alias, "ARAM", GameMode::Aram, version, info);
    let mut res: Vec<BuildSection> = Vec::new();
    res.push(section);
    res
}

/// The place of a position in the alphabetical order of the ranked position
/// names; `NoPosition` comes last.
pub open spec fn position_rank(p: ChampionPosition) -> int {
    match p {
        ChampionPosition::Adc => 0,
        ChampionPosition::Jungle => 1,
        ChampionPosition::Mid => 2,
        ChampionPosition::Support => 3,
        ChampionPosition::Top => 4,
        ChampionPosition::NoPosition => 5,
    }
}

proof fn lemma_label_order(p: ChampionPosition, q: ChampionPosition)
    requires
        position_rank(p) < position_rank(q) < 5,
    ensures
        text_less(spec_position_label(p), spec_position_label(q)),
{
    reveal_strlit("ADC");
    reveal_strlit("JUNGLE");
    reveal_strlit("MID");
    reveal_strlit("SUPPORT");
    reveal_strlit("TOP");
}

proof fn lemma_append_kept(s: Seq<ChampionPosition>, p: ChampionPosition, listed: Seq<ChampionPosition>)
    requires
        position_rank(p) < 5,
        forall|i: int, j: int| 0 <= i < j < s.len() ==> position_rank(s[i]) < position_rank(s[j]),
        forall|i: int| 0 <= i < s.len() ==> position_rank(#[trigger] s[i]) < position_rank(p) && listed.contains(s[i]),
    ensures
        forall|i: int, j: int|
            0 <= i < j < (s + keep_if_listed(p, listed)).len() ==> position_rank((s + keep_if_listed(p, listed))[i])
                < position_rank((s + keep_if_listed(p, listed))[j]),
        forall|i: int|
            0 <= i < (s + keep_if_listed(p, listed)).len() ==> position_rank(#[trigger] (s + keep_if_listed(p, listed))[i])
                <= position_rank(p) && listed.contains((s + keep_if_listed(p, listed))[i]),
{
}

proof fn lemma_ranked_positions_ascend(listed: Seq<ChampionPosition>)
    ensures
        forall|i: int, j: int|
            0 <= i < j < spec_ranked_positions(listed).len() ==> position_rank(spec_ranked_positions(listed)[i])
                < position_rank(spec_ranked_positions(listed)[j]),
        forall|i: int|
            0 <= i < spec_ranked_positions(listed).len() ==> position_rank(#[trigger] spec_ranked_positions(listed)[i]) < 5
                && listed.contains(spec_ranked_positions(listed)[i]),
{
    let s0 = Seq::<ChampionPosition>::empty();
    lemma_append_kept(s0, ChampionPosition::Adc, listed);
    let s1 = s0 + keep_if_listed(ChampionPosition::Adc, listed);
    lemma_append_kept(s1, ChampionPosition::Jungle, listed);
    let s2 = s1 + keep_if_listed(ChampionPosition::Jungle, listed);
    lemma_append_kept(s2, ChampionPosition::Mid, listed);
    let s3 = s2 + keep_if_listed(ChampionPosition::Mid, listed);
    lemma_append_kept(s3, ChampionPosition::Support, listed);
    let s4 = s3 + keep_if_listed(ChampionPosition::Support, listed);
    lemma_append_kept(s4, ChampionPosition::Top, listed);
    let s5 = s4 + keep_if_listed(ChampionPosition::Top, listed);
    assert(s1 =~= keep_if_listed(ChampionPosition::Adc, listed));
    assert(s5 =~= spec_ranked_positions(listed));
}

proof fn lemma_fetched_in_rank_order(rs: Seq<PositionBuild>)
    requires
        forall|i: int, j: int| 0 <= i < j < rs.len() ==> position_rank(rs[i].position) < position_rank(rs[j].position),
    ensures
        forall|k: int, l: int|
            0 <= k < l < fetched_builds(rs).len() ==> position_rank(fetched_builds(rs)[k].position)
                < position_rank(fetched_builds(rs)[l].position),
        forall|k: int|
            0 <= k < fetched_builds(rs).len() ==> rs.contains(#[trigger] fetched_builds(rs)[k])
                && fetched_builds(rs)[k].fetched is Some,
        forall|i: int| 0 <= i < rs.len() && (#[trigger] rs[i]).fetched is Some ==> fetched_builds(rs).contains(rs[i]),
    decreases rs.len(),
{
    if rs.len() > 0 {
        let d = rs.drop_last();
        lemma_fetched_in_rank_order(d);
        let e = fetched_builds(d);
        let f = fetched_builds(rs);
        assert forall|k: int| 0 <= k < e.len() implies rs.contains(#[trigger] e[k]) && position_rank(e[k].position)
            < position_rank(rs.last().position) by {
            assert(d.contains(e[k]));
            let q = choose|q: int| 0 <= q < d.len() && d[q] == e[k];
            assert(rs[q] == e[k]);
        }
        assert forall|k: int| 0 <= k < f.len() implies rs.contains(#[trigger] f[k]) && f[k].fetched is Some by {
            if k == e.len() {
                assert(rs[rs.len() - 1] == f[k]);
            }
        }
        assert forall|i: int| 0 <= i < rs.len() && (#[trigger] rs[i]).fetched is Some implies f.contains(rs[i]) by {
            if i < rs.len() - 1 {
                assert(d[i] == rs[i]);
                assert(e.contains(d[i]));
                let q = choose|q: int| 0 <= q < e.len() && e[q] == d[i];
                assert(f[q] == rs[i]);
            } else {
                assert(f[e.len() as int] == rs[i]);
            }
        }
    }
}

/// The ranked flow: when one request is made for each position that
/// `ranked_positions` gives, in its order, the positions whose statistics came
/// back, which `ranked_sections` turns into one section each, are exactly the
/// fetched ones among them, each once, in ascending order of their names, and
/// each a listed position other than `NoPosition`.
pub proof fn lemma_ranked_flow(listed: Seq<ChampionPosition>, responses: Seq<PositionBuild>)
    requires
        responses.len() == spec_ranked_positions(listed).len(),
        forall|i: int| 0 <= i < responses.len() ==> (#[trigger] responses[i]).position == spec_ranked_positions(listed)[i],
    ensures
        forall|k: int, l: int|
            0 <= k < l < fetched_builds(responses).len() ==> text_less(
                spec_position_label(fetched_builds(responses)[k].position),
                spec_position_label(fetched_builds(responses)[l].position),
            ),
        forall|k: int|
            0 <= k < fetched_builds(responses).len() ==> {
                &&& responses.contains(#[trigger] fetched_builds(responses)[k])
                &&& fetched_builds(responses)[k].fetched is Some
                &&& fetched_builds(responses)[k].position != ChampionPosition::NoPosition
                &&& listed.contains(fetched_builds(responses)[k].position)
            },
        forall|i: int|
            0 <= i < responses.len() && (#[trigger] responses[i]).fetched is Some ==> fetched_builds(responses).contains(
                responses[i],
            ),
{
    lemma_ranked_positions_ascend(listed);
    let r = spec_ranked_positions(listed);
    assert forall|i: int, j: int| 0 <= i < j < responses.len() implies position_rank(responses[i].position)
        < position_rank(responses[j].position) by {
        assert(responses[i].position == r[i] && responses[j].position == r[j]);
    }
    lemma_fetched_in_rank_order(responses);
    let f = fetched_builds(responses);
    assert forall|k: int| 0 <= k < f.len() implies position_rank(#[trigger] f[k].position) < 5 && listed.contains(
        f[k].position,
    ) by {
        assert(responses.contains(f[k]));
        let q = choose|q: int| 0 <= q < responses.len() && responses[q] == f[k];
        assert(responses[q].position == r[q]);
        assert(position_rank(r[q]) < 5 && listed.contains(r[q]));
    }
    assert forall|k: int, l: int| 0 <= k < l < f.len() implies text_less(
        spec_position_label(f[k].position),
        spec_position_label(f[l].position),
    ) by {
        assert(position_rank(f[k].position) < 5 && position_rank(f[l].position) < 5);
        lemma_label_order(f[k].position, f[l].position);
    }
}

/// The first rune page is the most played one: no page of the statistics
/// was played more often. There is a first page exactly when there are
/// statistics.
pub proof fn lemma_first_rune_page_most_played(
    alias: Seq<char>,
    position: Seq<char>,
    stats: Seq<RuneStatView>,
    uuids: Seq<Seq<char>>,
)
    requires
        stats.len() <= usize::MAX,
    ensures
        spec_runes(alias, position, stats, uuids).len() > 0 <==> stats.len() > 0,
        stats.len() > 0 ==> forall|j: int|
            0 <= j < stats.len() ==> (#[trigger] stats[j]).play as u64 <= spec_runes(alias, position, stats, uuids)[0].pick_count,
{
    let keys = rune_keys(stats);
    let order = desc_order(keys);
    lemma_desc_order_exists(keys);
    if stats.len() > 0 {
        assert forall|j: int| 0 <= j < stats.len() implies (#[trigger] stats[j]).play as u64
            <= spec_runes(alias, position, stats, uuids)[0].pick_count by {
            assert(keys[j] == stats[j].play as u64);
            assert(order.contains(j as usize));
            let l = choose|l: int| 0 <= l < order.len() && order[l] == j as usize;
            if l > 0 {
                assert(precedes(keys, order[0] as int, order[l] as int));
            }
            assert(keys[order[0] as int] == stats[order[0] as int].play as u64);
        }
    }
}

/// A section reports the play count and win rate of its first rune page,
/// which is the most played page of the statistics; without rune pages it
/// reports 0 and `0.00%`.
pub proof fn lemma_section_reports_most_played_page(
    champion_id: i64,
    alias: Seq<char>,
    position: Seq<char>,
    mode: GameMode,
    version: Seq<char>,
    info: ChampionInfoView,
    uuids: Seq<Seq<char>>,
    timestamp: i64,
)
    requires
        info.runes.len() <= usize::MAX,
    ensures
        ({
            let s = spec_section(champion_id, alias, position, mode, version, info, uuids, timestamp);
            &&& s.runes.len() > 0 <==> info.runes.len() > 0
            &&& s.runes.len() > 0 ==> {
                &&& s.pick_count == s.runes[0].pick_count as i64
                &&& s.win_rate == s.runes[0].win_rate
                &&& forall|j: int| 0 <= j < info.runes.len() ==> (#[trigger] info.runes[j]).play as u64 <= s.runes[0].pick_count
            }
            &&& s.runes.len() == 0 ==> s.pick_count == 0 && s.win_rate == "0.00%"@
        }),
{
    lemma_first_rune_page_most_played(alias, position, info.runes, uuids);
}

/// Row `b` is the best of `rows`: none has a larger key (win rate key when
/// ranking by win rate, else play count), and every earlier row has a smaller
/// one.
pub open spec fn is_best_row(rows: Seq<ItemStatView>, by_win_rate: bool, b: int) -> bool {
    &&& 0 <= b < rows.len()
    &&& forall|j: int|
        0 <= j < rows.len() ==> (if by_win_rate { (#[trigger] rows[j]).win_rate_key } else { rows[j].play as u64 })
            <= (if by_win_rate { rows[b].win_rate_key } else { rows[b].play as u64 })
    &&& forall|j: int|
        0 <= j < b ==> (if by_win_rate { (#[trigger] rows[j]).win_rate_key } else { rows[j].play as u64 })
            < (if by_win_rate { rows[b].win_rate_key } else { rows[b].play as u64 })
}

proof fn lemma_best_row_comes_first(rows: Seq<ItemStatView>, by_win_rate: bool, b: int)
    requires
        rows.len() <= usize::MAX,
        is_best_row(rows, by_win_rate, b),
    ensures
        desc_order(item_keys(rows, by_win_rate)).len() == rows.len(),
        desc_order(item_keys(rows, by_win_rate))[0] == b,
{
    let keys = item_keys(rows, by_win_rate);
    lemma_desc_order_exists(keys);
    let order = desc_order(keys);
    assert(keys[b] == (if by_win_rate { rows[b].win_rate_key } else { rows[b].play as u64 }));
    assert(order.contains(b as usize));
    let l = choose|l: int| 0 <= l < order.len() && order[l] == b as usize;
    if l > 0 {
        let f = order[0] as int;
        assert(precedes(keys, f, order[l] as int));
        assert(keys[f] == (if by_win_rate { rows[f].win_rate_key } else { rows[f].play as u64 }));
        assert(false);
    }
}

proof fn lemma_concat_ids_front(rows: Seq<ItemStatView>, picked: Seq<usize>)
    requires
        picked.len() > 0,
    ensures
        concat_ids(rows, picked) == rows[picked[0] as int].ids + concat_ids(rows, picked.drop_first()),
    decreases picked.len(),
{
    if picked.len() == 1 {
        assert(picked.drop_last() =~= Seq::<usize>::empty());
        assert(picked.drop_first() =~= Seq::<usize>::empty());
        assert(concat_ids(rows, picked.drop_last()) == Seq::<usize>::empty());
        assert(concat_ids(rows, picked.drop_first()) == Seq::<usize>::empty());
        assert(picked.last() == picked[0]);
        assert(concat_ids(rows, picked) =~= rows[picked[0] as int].ids + Seq::<usize>::empty());
    } else {
        lemma_concat_ids_front(rows, picked.drop_last());
        assert(picked.drop_last().drop_first() =~= picked.drop_first().drop_last());
        assert(picked.drop_first().last() == picked.last());
        assert(concat_ids(rows, picked) =~= rows[picked[0] as int].ids + concat_ids(rows, picked.drop_first()));
    }
}

proof fn lemma_first_occurrences_prefix(a: Seq<usize>, c: Seq<usize>)
    ensures
        first_occurrences(a).is_prefix_of(first_occurrences(a + c)),
    decreases c.len(),
{
    if c.len() == 0 {
        assert(a + c =~= a);
    } else {
        lemma_first_occurrences_prefix(a, c.drop_last());
        assert((a + c).drop_last() =~= a + c.drop_last());
    }
}

/// A block starts with the distinct items of the best of its rows, and holds
/// exactly those when it takes one row.
pub proof fn lemma_block_leads_with_best_row(rows: Seq<ItemStatView>, by_win_rate: bool, max_rows: usize, b: int)
    requires
        rows.len() <= usize::MAX,
        max_rows >= 1,
        is_best_row(rows, by_win_rate, b),
    ensures
        first_occurrences(rows[b].ids).is_prefix_of(spec_block_ids(rows, by_win_rate, max_rows)),
        max_rows == 1 ==> spec_block_ids(rows, by_win_rate, max_rows) == first_occurrences(rows[b].ids),
{
    lemma_best_row_comes_first(rows, by_win_rate, b);
    let order = desc_order(item_keys(rows, by_win_rate));
    let m = min_len(max_rows as nat, rows.len()) as int;
    let picked = order.take(m);
    assert(picked[0] == b);
    lemma_concat_ids_front(rows, picked);
    lemma_first_occurrences_prefix(rows[b].ids, concat_ids(rows, picked.drop_first()));
    if max_rows == 1 {
        assert(picked.drop_first() =~= Seq::<usize>::empty());
        assert(rows[b].ids + concat_ids(rows, picked.drop_first()) =~= rows[b].ids);
    }
}

/// The items of a block titled `title` among `blocks`, when there is one.
pub open spec fn has_block(blocks: Seq<BlockView>, title: Seq<char>, items: Seq<ItemView>, exact: bool) -> bool {
    exists|k: int|
        0 <= k < blocks.len() && (#[trigger] blocks[k]).type_field == title && blocks[k].items is Some && (if exact {
            blocks[k].items->0 == items
        } else {
            items.is_prefix_of(blocks[k].items->0)
        })
}

proof fn lemma_push_keeps_block(blocks: Seq<BlockView>, title: Seq<char>, items: Seq<ItemView>, exact: bool, t: Seq<char>, rows: Seq<ItemStatView>, bw: bool, m: usize)
    requires
        has_block(blocks, title, items, exact),
    ensures
        has_block(spec_push_block(blocks, t, rows, bw, m), title, items, exact),
{
    let k = choose|k: int|
        0 <= k < blocks.len() && (#[trigger] blocks[k]).type_field == title && blocks[k].items is Some && (if exact {
            blocks[k].items->0 == items
        } else {
            items.is_prefix_of(blocks[k].items->0)
        });
    let after = spec_push_block(blocks, t, rows, bw, m);
    assert(after[k] == blocks[k]);
}

proof fn lemma_pushed_block(blocks: Seq<BlockView>, title: Seq<char>, rows: Seq<ItemStatView>, bw: bool, m: usize, b: int)
    requires
        rows.len() <= usize::MAX,
        m >= 1,
        is_best_row(rows, bw, b),
        first_occurrences(rows[b].ids).len() > 0,
    ensures
        has_block(spec_push_block(blocks, title, rows, bw, m), title, spec_block_items(first_occurrences(rows[b].ids)), m == 1),
{
    lemma_block_leads_with_best_row(rows, bw, m, b);
    let ids = spec_block_ids(rows, bw, m);
    let lead = first_occurrences(rows[b].ids);
    assert(ids.len() > 0);
    let after = spec_push_block(blocks, title, rows, bw, m);
    let k = blocks.len() as int;
    assert(after[k].type_field == title);
    assert(spec_block_items(lead).is_prefix_of(spec_block_items(ids))) by {
        assert(spec_block_items(lead) =~= spec_block_items(ids).subrange(0, lead.len() as int));
    }
}

/// Each block of `blocks` that has a best row comes from it: the Starter
/// Items and Core Build blocks hold exactly the distinct items of their best
/// row, and the Boots and Situational / Last Items blocks start with them.
pub open spec fn blocks_lead_with_best_rows(blocks: Seq<BlockView>, info: ChampionInfoView, by_win_rate: bool) -> bool {
    &&& forall|b: int| is_best_row(info.starter_items, by_win_rate, b) && first_occurrences(info.starter_items[b].ids).len() > 0
            ==> has_block(blocks, "Starter Items"@, spec_block_items(first_occurrences(info.starter_items[b].ids)), true)
    &&& forall|b: int| is_best_row(info.boots, by_win_rate, b) && first_occurrences(info.boots[b].ids).len() > 0
            ==> has_block(blocks, "Boots"@, spec_block_items(first_occurrences(info.boots[b].ids)), false)
    &&& forall|b: int| is_best_row(info.core_items, by_win_rate, b) && first_occurrences(info.core_items[b].ids).len() > 0
            ==> has_block(blocks, "Core Build"@, spec_block_items(first_occurrences(info.core_items[b].ids)), true)
    &&& forall|b: int| is_best_row(info.last_items, by_win_rate, b) && first_occurrences(info.last_items[b].ids).len() > 0
            ==> has_block(blocks, "Situational / Last Items"@, spec_block_items(first_occurrences(info.last_items[b].ids)), false)
}

/// Each block of an item set comes from the best of its rows, ranked by win
/// rate in the win-rate set and by play count otherwise: the Starter Items and
/// Core Build blocks hold exactly the distinct items of their best row, and
/// the Boots and Situational / Last Items blocks start with them.
pub proof fn lemma_item_set_blocks_come_from_best_rows(info: ChampionInfoView, by_win_rate: bool)
    requires
        info.starter_items.len() <= usize::MAX,
        info.boots.len() <= usize::MAX,
        info.core_items.len() <= usize::MAX,
        info.last_items.len() <= usize::MAX,
    ensures
        blocks_lead_with_best_rows(spec_item_blocks(info, by_win_rate), info, by_win_rate),
{
    let bw = by_win_rate;
    let b0 = spec_push_block(Seq::empty(), "Starter Items"@, info.starter_items, bw, 1);
    let b1 = spec_push_block(b0, "Boots"@, info.boots, bw, 6);
    let b2 = spec_push_block(b1, "Core Build"@, info.core_items, bw, 1);
    let b3 = spec_push_block(b2, "Situational / Last Items"@, info.last_items, bw, 8);
    assert forall|b: int| is_best_row(info.starter_items, bw, b) && first_occurrences(info.starter_items[b].ids).len() > 0
        implies has_block(b3, "Starter Items"@, spec_block_items(first_occurrences(info.starter_items[b].ids)), true) by {
        let items = spec_block_items(first_occurrences(info.starter_items[b].ids));
        lemma_pushed_block(Seq::empty(), "Starter Items"@, info.starter_items, bw, 1, b);
        lemma_push_keeps_block(b0, "Starter Items"@, items, true, "Boots"@, info.boots, bw, 6);
        lemma_push_keeps_block(b1, "Starter Items"@, items, true, "Core Build"@, info.core_items, bw, 1);
        lemma_push_keeps_block(b2, "Starter Items"@, items, true, "Situational / Last Items"@, info.last_items, bw, 8);
    }
    assert forall|b: int| is_best_row(info.boots, bw, b) && first_occurrences(info.boots[b].ids).len() > 0
        implies has_block(b3, "Boots"@, spec_block_items(first_occurrences(info.boots[b].ids)), false) by {
        let items = spec_block_items(first_occurrences(info.boots[b].ids));
        lemma_pushed_block(b0, "Boots"@, info.boots, bw, 6, b);
        lemma_push_keeps_block(b1, "Boots"@, items, false, "Core Build"@, info.core_items, bw, 1);
        lemma_push_keeps_block(b2, "Boots"@, items, false, "Situational / Last Items"@, info.last_items, bw, 8);
    }
    assert forall|b: int| is_best_row(info.core_items, bw, b) && first_occurrences(info.core_items[b].ids).len() > 0
        implies has_block(b3, "Core Build"@, spec_block_items(first_occurrences(info.core_items[b].ids)), true) by {
        let items = spec_block_items(first_occurrences(info.core_items[b].ids));
        lemma_pushed_block(b1, "Core Build"@, info.core_items, bw, 1, b);
        lemma_push_keeps_block(b2, "Core Build"@, items, true, "Situational / Last Items"@, info.last_items, bw, 8);
    }
    assert forall|b: int| is_best_row(info.last_items, bw, b) && first_occurrences(info.last_items[b].ids).len() > 0
        implies has_block(b3, "Situational / Last Items"@, spec_block_items(first_occurrences(info.last_items[b].ids)), false) by {
        lemma_pushed_block(b2, "Situational / Last Items"@, info.last_items, bw, 8, b);
    }
}

/// No item id appears twice in a block.
pub proof fn lemma_block_ids_distinct(rows: Seq<ItemStatView>, by_win_rate: bool, max_rows: usize)
    ensures
        forall|i: int, j: int|
            0 <= i < j < spec_block_ids(rows, by_win_rate, max_rows).len() ==> spec_block_ids(rows, by_win_rate, max_rows)[i]
                != spec_block_ids(rows, by_win_rate, max_rows)[j],
{
    let order = desc_order(item_keys(rows, by_win_rate));
    lemma_first_occurrences_distinct(concat_ids(rows, order.take(min_len(max_rows as nat, rows.len()) as int)));
}

} // verus!
