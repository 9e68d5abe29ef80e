use std::collections::HashMap;

use lcu::mayhem::{
    assemble_augments, catalog_from_rows, champion_slug, client_catalog_url, compact_description,
    decode_json_fragment, looks_like_string_key, page_url, parse_page_details,
    rarity_label_from_code, rarity_label_from_key, stats_url, summary_from_name, unescape_quotes,
    ClientAugment, MayhemError, PageDetail, StatsItem,
};

#[test]
fn aliases_map_to_opgg_slugs() {
    assert_eq!(champion_slug("MonkeyKing"), "wukong");
    assert_eq!(champion_slug("Fizz"), "fizz");
    assert_eq!(champion_slug("Kaisa"), "kaisa");
}

#[test]
fn special_aliases_and_ascii_lowering() {
    assert_eq!(champion_slug("KSante"), "ksante");
    assert_eq!(champion_slug("Khazix"), "khazix");
    assert_eq!(champion_slug("Velkoz"), "velkoz");
    assert_eq!(champion_slug("RekSai"), "reksai");
    assert_eq!(champion_slug("Belveth"), "belveth");
    assert_eq!(champion_slug("Chogath"), "chogath");
    assert_eq!(champion_slug("MissFortune"), "missfortune");
    assert_eq!(champion_slug("ÄhriX"), "Ähri".to_string() + "x");
    assert_eq!(champion_slug(""), "");
}

#[test]
fn slug_of_a_slug_is_itself() {
    for alias in ["MonkeyKing", "KSante", "Fizz", "Jarvan IV", "wukong"] {
        let slug = champion_slug(alias);
        assert_eq!(champion_slug(&slug), slug);
    }
}

#[test]
fn rarity_codes_and_keys() {
    assert_eq!(rarity_label_from_code(4), "Gold");
    assert_eq!(rarity_label_from_code(8), "Prismatic");
    assert_eq!(rarity_label_from_code(0), "Silver");
    assert_eq!(rarity_label_from_code(2), "Silver");
    assert_eq!(rarity_label_from_key("kGold"), "Gold");
    assert_eq!(rarity_label_from_key("Gold"), "Gold");
    assert_eq!(rarity_label_from_key("kPrismatic"), "Prismatic");
    assert_eq!(rarity_label_from_key("Prismatic"), "Prismatic");
    assert_eq!(rarity_label_from_key("kSilver"), "Silver");
    assert_eq!(rarity_label_from_key("kBronze"), "Silver");
    assert_eq!(rarity_label_from_key("Silver"), "Silver");
    assert_eq!(rarity_label_from_key("gold"), "");
    assert_eq!(rarity_label_from_key(""), "");
}

#[test]
fn string_keys_are_recognised() {
    assert!(looks_like_string_key("Augment_Name_12"));
    assert!(looks_like_string_key("xx augment_yy"));
    assert!(looks_like_string_key("ARAM_Mayhem"));
    assert!(looks_like_string_key("game_StringTable_x"));
    assert!(!looks_like_string_key("暴击狂热"));
    assert!(!looks_like_string_key("Augment"));
    assert!(!looks_like_string_key(""));
}

#[test]
fn summaries_follow_key_words_in_order() {
    assert_eq!(summary_from_name("无尽之刃"), "偏暴击 / 暴击收益");
    assert_eq!(summary_from_name("攻速暴击"), "偏暴击 / 暴击收益");
    assert_eq!(summary_from_name("狂热"), "偏攻速 / 普攻强化");
    assert_eq!(summary_from_name("虹吸"), "回复 / 吸血 / 生存");
    assert_eq!(summary_from_name("踢踏舞"), "移速 / 机动性");
    assert_eq!(summary_from_name("巨人"), "生命 / 防御 / 坦度");
    assert_eq!(summary_from_name("终极技能"), "技能循环 / 技能急速");
    assert_eq!(summary_from_name("魔法飞弹"), "法术 / 技能伤害");
    assert_eq!(summary_from_name("Something"), "英雄适配型强化");
}

#[test]
fn descriptions_are_trimmed_and_cut() {
    assert_eq!(compact_description("  hello world \n", "x"), "hello world");
    assert_eq!(compact_description(" \t ", "吸血鬼"), "回复 / 吸血 / 生存");
    assert_eq!(compact_description("", "x"), "英雄适配型强化");
    let exact: String = "a".repeat(58);
    assert_eq!(compact_description(&exact, "x"), exact);
    let long: String = "b".repeat(70);
    let cut = compact_description(&long, "x");
    assert_eq!(cut, "b".repeat(58) + "…");
    assert_eq!(cut.chars().count(), 59);
    let wide: String = "暴".repeat(60);
    assert_eq!(compact_description(&wide, "x"), "暴".repeat(58) + "…");
    assert_eq!(compact_description("\u{3000}x\u{a0}", "y"), "x");
}

#[test]
fn json_fragments_decode_or_pass_through() {
    assert_eq!(decode_json_fragment("a\\nb"), "a\nb");
    assert_eq!(decode_json_fragment("\\u4e2d"), "中");
    assert_eq!(decode_json_fragment("plain"), "plain");
    assert_eq!(decode_json_fragment("bad\\x"), "bad\\x");
}

#[test]
fn escaped_quotes_become_plain() {
    let v: Vec<char> = "a\\\"b\\\\\"c\\".chars().collect();
    let out: String = unescape_quotes(&v).into_iter().collect();
    assert_eq!(out, "a\"b\\\"c\\");
}

fn record(id: &str, rarity: &str, name: &str, desc: &str) -> String {
    format!(
        "{{\"id\":{id},\"tier\":1,\"performance\":0.5,\"popular\":0.25,\"name\":\"{name}\",\"key\":\"k\",\"largeIcon\":\"l\",\"smallIcon\":\"s\",\"rarity\":{rarity},\"desc\":\"{desc}\",\"tooltip\""
    )
}

#[test]
fn page_records_are_read_once_each() {
    let page = format!(
        "<script>{}{}{}{}</script>",
        record("11", "4", "Fast", "<b>Gain</b>   speed\\n now"),
        record("0", "8", "Zero", "ignored"),
        record("11", "8", "Again", "second copy"),
        record("12", "9", "\\u4e2d", "x"),
    );
    let escaped = page.replace('"', "\\\"");
    let details = match parse_page_details(&escaped) {
        Ok(d) => d,
        Err(e) => panic!("{e:?}"),
    };
    assert_eq!(details.len(), 2);
    let first = &details[&11];
    assert_eq!(first.name, "Fast");
    assert_eq!(first.rarity, "Gold");
    assert_eq!(first.description, "Gain speed now");
    let second = &details[&12];
    assert_eq!(second.name, "中");
    assert_eq!(second.rarity, "Silver");
    assert!(!details.contains_key(&0));
}

#[test]
fn page_without_records_is_empty() {
    let details = parse_page_details("<html>nothing here</html>").unwrap();
    assert!(details.is_empty());
}

fn client(id: i64, name: &str, simple: &str, rarity: &str) -> ClientAugment {
    client_with_description(id, name, simple, rarity, "")
}

fn client_with_description(id: i64, name: &str, simple: &str, rarity: &str, description: &str) -> ClientAugment {
    ClientAugment {
        id,
        name_tra: name.to_string(),
        simple_name_tra: simple.to_string(),
        rarity: rarity.to_string(),
        description_tra: description.to_string(),
    }
}

#[test]
fn catalog_keeps_the_last_row_of_an_id() {
    let catalog = catalog_from_rows(vec![
        client(1, "First", "", "kGold"),
        client(2, "Two", "", ""),
        client(1, "Later", "", "kSilver"),
    ]);
    assert_eq!(catalog.len(), 2);
    assert_eq!(catalog[&1].name_tra, "Later");
    assert_eq!(catalog[&2].name_tra, "Two");
}

fn stat(id: i64, tier: Option<i32>) -> StatsItem {
    StatsItem { id, tier, performance: Some(0.5f64.to_bits()), popular: None }
}

fn page_detail(name: &str, rarity: &str, description: &str) -> PageDetail {
    PageDetail {
        name: name.to_string(),
        rarity: rarity.to_string(),
        description: description.to_string(),
    }
}

#[test]
fn no_stats_is_an_error() {
    let res = assemble_augments(&vec![], &HashMap::new(), &HashMap::new());
    assert!(matches!(res, Err(MayhemError::NoAugments)));
}

#[test]
fn at_most_six_augments_in_ranking_order() {
    let stats: Vec<StatsItem> = (1..=8).map(|i| stat(i * 10, Some(i as i32))).collect();
    let items = assemble_augments(&stats, &HashMap::new(), &HashMap::new()).unwrap();
    assert_eq!(items.len(), 6);
    let ids: Vec<i64> = items.iter().map(|a| a.id).collect();
    assert_eq!(ids, vec![10, 20, 30, 40, 50, 60]);
    assert_eq!(items[0].name, "Augment 10");
    assert_eq!(items[0].rarity, "Silver");
    assert_eq!(items[0].tier, 1);
    assert_eq!(items[0].performance, Some(0.5f64.to_bits()));
    assert_eq!(items[0].popularity, None);
    assert_eq!(items[0].description, "英雄适配型强化");
}

#[test]
fn names_rarities_and_descriptions_pick_the_best_source() {
    let stats = vec![stat(1, None), stat(2, Some(3)), stat(3, None), stat(-4, None)];
    let mut pages = HashMap::new();
    pages.insert(1, page_detail("Page One", "Prismatic", "  A page description.  "));
    pages.insert(2, page_detail("Page Two", "Gold", ""));
    pages.insert(3, page_detail("", "", ""));
    let mut local = HashMap::new();
    local.insert(1, client(1, "  本地暴击  ", "short", "kGold"));
    local.insert(2, client(2, "Augment_Key", "", "unknown"));
    local.insert(3, client(3, " ", " 简称 ", ""));
    let items = assemble_augments(&stats, &pages, &local).unwrap();
    assert_eq!(items.len(), 4);
    assert_eq!(items[0].name, "本地暴击");
    assert_eq!(items[0].rarity, "Gold");
    assert_eq!(items[0].description, "A page description.");
    assert_eq!(items[1].name, "Page Two");
    assert_eq!(items[1].rarity, "Gold");
    assert_eq!(items[1].tier, 3);
    assert_eq!(items[1].description, "英雄适配型强化");
    assert_eq!(items[2].name, "简称");
    assert_eq!(items[2].rarity, "Silver");
    assert_eq!(items[3].name, "Augment -4");
}

#[test]
fn every_recommendation_has_a_known_rarity_and_a_name() {
    let stats = vec![stat(5, None), stat(6, None)];
    let mut pages = HashMap::new();
    pages.insert(5, page_detail("", "Prismatic", "d"));
    let items = assemble_augments(&stats, &pages, &HashMap::new()).unwrap();
    for item in &items {
        assert!(!item.name.is_empty());
        assert!(!item.description.is_empty());
        assert!(["Gold", "Prismatic", "Silver"].contains(&item.rarity.as_str()));
    }
    assert_eq!(items[0].rarity, "Prismatic");
}

#[test]
fn endpoints_are_built_from_their_parts() {
    assert_eq!(
        stats_url(157),
        "https://lol-api-champion.op.gg/api/contents/stats/champions/157/aram-augments"
    );
    assert_eq!(
        page_url("MonkeyKing"),
        "https://op.gg/zh-cn/lol/modes/aram-mayhem/wukong/augments"
    );
    assert_eq!(
        client_catalog_url("riot:pw@127.0.0.1:5000"),
        "https://riot:pw@127.0.0.1:5000/lol-game-data/assets/v1/cherry-augments.json"
    );
}

#[test]
fn catalog_descriptions_come_before_the_page() {
    let stats = vec![stat(1, None), stat(2, None), stat(3, None)];
    let mut pages = HashMap::new();
    pages.insert(1, page_detail("P1", "Gold", "page text one"));
    pages.insert(2, page_detail("P2", "Gold", "page text two"));
    let mut local = HashMap::new();
    local.insert(1, client_with_description(1, "L1", "", "kGold", "  本地描述  "));
    local.insert(2, client_with_description(2, "L2", "", "kGold", " \t "));
    let long = "c".repeat(80);
    local.insert(3, client_with_description(3, "L3", "", "kGold", &long));
    let items = assemble_augments(&stats, &pages, &local).unwrap();
    assert_eq!(items[0].description, "本地描述");
    assert_eq!(items[1].description, "page text two");
    assert_eq!(items[2].description, "c".repeat(58) + "…");
}
