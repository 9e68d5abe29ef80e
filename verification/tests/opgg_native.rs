use lcu::builds::{Block, Rune};
use lcu::opgg_native::{
    aram_sections, build_item_set, champion_id_u32, is_native_source, native_mode, position_label,
    push_item_block, ranked_positions, ranked_sections, runes_with_ids, section_with,
    source_metadata_from, timestamp_from_elapsed, transform_info, transform_item_builds,
    transform_runes, unix_timestamp_millis, ChampionInfo, ChampionPosition, ChampionSummary,
    FetchedInfo, GameMode, ItemStat, NativeError, PositionBuild, RuneStat, SourceMeta,
};

#[test]
fn native_sources_are_the_two_opgg_ones() {
    assert!(is_native_source("op.gg"));
    assert!(is_native_source("op.gg-aram"));
    assert!(!is_native_source("OP.GG"));
    assert!(!is_native_source("lolalytics"));
    assert!(!is_native_source(""));
    assert_eq!(native_mode("op.gg"), Some(GameMode::Ranked));
    assert_eq!(native_mode("op.gg-aram"), Some(GameMode::Aram));
    assert_eq!(native_mode("murderbridge"), None);
    for s in ["op.gg", "op.gg-aram", "x", "op.gg-arams"] {
        assert_eq!(is_native_source(s), native_mode(s).is_some());
    }
}

#[test]
fn champion_ids_must_fit_u32() {
    assert_eq!(champion_id_u32(157), Some(157));
    assert_eq!(champion_id_u32(0), Some(0));
    assert_eq!(champion_id_u32(-1), None);
    assert_eq!(champion_id_u32(4_294_967_295), Some(u32::MAX));
    assert_eq!(champion_id_u32(4_294_967_296), None);
}

#[test]
fn metadata_prefers_analysis_time() {
    let meta = |a: Option<&str>, c: Option<&str>| SourceMeta {
        version: "15.1".to_string(),
        analyzed_at: a.map(|s| s.to_string()),
        cached_at: c.map(|s| s.to_string()),
    };
    assert_eq!(
        source_metadata_from(meta(Some("A"), Some("C"))),
        ("15.1".to_string(), "A".to_string())
    );
    assert_eq!(source_metadata_from(meta(None, Some("C"))), ("15.1".to_string(), "C".to_string()));
    assert_eq!(source_metadata_from(meta(None, None)), ("15.1".to_string(), String::new()));
}

#[test]
fn position_labels_match_opgg() {
    assert_eq!(position_label(ChampionPosition::NoPosition), "none");
    assert_eq!(position_label(ChampionPosition::Top), "TOP");
    assert_eq!(position_label(ChampionPosition::Mid), "MID");
    assert_eq!(position_label(ChampionPosition::Jungle), "JUNGLE");
    assert_eq!(position_label(ChampionPosition::Support), "SUPPORT");
    assert_eq!(position_label(ChampionPosition::Adc), "ADC");
}

#[test]
fn ranked_positions_sorted_distinct_without_none() {

    let summaries = vec![
        ChampionSummary { id: 1, positions: Some(vec![ChampionPosition::Mid]) },
        ChampionSummary { id: 7, positions: Some(vec![ChampionPosition::Top, ChampionPosition::NoPosition, ChampionPosition::Mid, ChampionPosition::Top, ChampionPosition::Adc]) },
        ChampionSummary { id: 7, positions: Some(vec![ChampionPosition::Jungle]) },
        ChampionSummary { id: 8, positions: None },
        ChampionSummary { id: 9, positions: Some(vec![ChampionPosition::NoPosition]) },
    ];
    assert_eq!(ranked_positions(&summaries, 7).unwrap(), vec![ChampionPosition::Adc, ChampionPosition::Mid, ChampionPosition::Top]);
    assert_eq!(ranked_positions(&summaries, 1).unwrap(), vec![ChampionPosition::Mid]);
    assert!(matches!(ranked_positions(&summaries, 8), Err(NativeError::NoRankedPositions)));
    assert!(matches!(ranked_positions(&summaries, 9), Err(NativeError::NoRankedPositions)));
    assert!(matches!(ranked_positions(&summaries, 2), Err(NativeError::ChampionNotFound)));
    let all = vec![ChampionSummary { id: 3, positions: Some(vec![ChampionPosition::Top, ChampionPosition::Support, ChampionPosition::Mid, ChampionPosition::Jungle, ChampionPosition::Adc]) }];
    let sorted = ranked_positions(&all, 3).unwrap();
    let labels: Vec<&str> = sorted.iter().map(|p| position_label(*p)).collect();
    let mut expected = labels.clone();
    expected.sort();
    assert_eq!(labels, expected);
}

#[test]
fn timestamps_are_clamped() {
    assert_eq!(timestamp_from_elapsed(None), 0);
    assert_eq!(timestamp_from_elapsed(Some(1_700_000_000_000)), 1_700_000_000_000);
    assert_eq!(timestamp_from_elapsed(Some(i64::MAX as u128)), i64::MAX);
    assert_eq!(timestamp_from_elapsed(Some(u128::MAX)), i64::MAX);
    assert!(unix_timestamp_millis() > 1_600_000_000_000);
}

fn rune(play: usize, rate: &str, primary: Vec<usize>) -> RuneStat {
    RuneStat {
        play,
        win_rate: rate.to_string(),
        primary_page_id: 8000,
        secondary_page_id: 8100,
        primary_rune_ids: primary,
        secondary_rune_ids: vec![8126],
        stat_mod_ids: vec![5008, 5002],
    }
}

fn ids(n: usize) -> Vec<String> {
    (0..n).map(|i| format!("id-{i}")).collect()
}

#[test]
fn rune_pages_most_played_first_at_most_four() {
    let source = vec![
        rune(10, "50.00%", vec![1]),
        rune(30, "51.00%", vec![2]),
        rune(30, "52.00%", vec![3]),
        rune(5, "53.00%", vec![4]),
        rune(20, "54.00%", vec![5]),
    ];
    let runes: Vec<Rune> = runes_with_ids("Ahri", "MID", &source, &ids(4));
    assert_eq!(runes.len(), 4);
    let picks: Vec<u64> = runes.iter().map(|r| r.pick_count).collect();
    assert_eq!(picks, vec![30, 30, 20, 10]);
    assert_eq!(runes[0].win_rate, "51.00%");
    assert_eq!(runes[1].win_rate, "52.00%");
    assert_eq!(runes[0].name, "[OP.GG] Ahri MID #1");
    assert_eq!(runes[3].name, "[OP.GG] Ahri MID #4");
    assert_eq!(runes[0].uuid, "id-0");
    assert_eq!(runes[0].selected_perk_ids, vec![2, 8126, 5008, 5002]);
    assert_eq!(runes[0].primary_style_id, 8000);
    assert_eq!(runes[0].sub_style_id, 8100);
    assert_eq!(runes[0].alias, "Ahri");
    assert_eq!(runes[0].position, "MID");
    assert_eq!(runes[0].score, None);
    assert_eq!(runes[0].type_field, "");
}

#[test]
fn generated_rune_ids_are_uuids() {
    let source = vec![rune(1, "1.00%", vec![]), rune(2, "2.00%", vec![])];
    let runes = transform_runes("Zed", "", &source);
    assert_eq!(runes.len(), 2);
    assert_eq!(runes[0].pick_count, 2);
    assert_eq!(runes[0].name, "[OP.GG] Zed  #1");
    assert_eq!(runes[0].uuid.len(), 36);
    assert_ne!(runes[0].uuid, runes[1].uuid);
}

fn row(ids: Vec<usize>, play: usize, rate_key: u64) -> ItemStat {
    ItemStat { ids, play, win_rate_key: rate_key }
}

fn block_ids(b: &Block) -> Vec<String> {
    b.items.as_ref().unwrap().iter().map(|i| i.id.clone()).collect()
}

#[test]
fn item_blocks_take_the_best_rows_once_each() {
    let rows = vec![row(vec![1, 2], 5, 9), row(vec![2, 3], 50, 1), row(vec![4], 20, 9)];
    let mut blocks: Vec<Block> = Vec::new();
    push_item_block(&mut blocks, "Core", &rows, false, 2);
    assert_eq!(blocks.len(), 1);
    assert_eq!(blocks[0].type_field, "Core");
    assert_eq!(block_ids(&blocks[0]), vec!["2", "3", "4"]);
    assert!(blocks[0].items.as_ref().unwrap().iter().all(|i| i.count == 1));
    push_item_block(&mut blocks, "WR", &rows, true, 8);
    assert_eq!(block_ids(&blocks[1]), vec!["1", "2", "4", "3"]);
    push_item_block(&mut blocks, "Empty", &vec![], true, 8);
    push_item_block(&mut blocks, "NoIds", &vec![row(vec![], 3, 3)], true, 8);
    assert_eq!(blocks.len(), 2);
}

fn info(runes: Vec<RuneStat>, items: bool) -> ChampionInfo {
    let rows = |ids: Vec<usize>| if items { vec![row(ids, 10, 5)] } else { vec![] };
    ChampionInfo {
        runes,
        starter_items: rows(vec![1055, 2003]),
        boots: rows(vec![3006]),
        core_items: rows(vec![3031, 3094]),
        last_items: rows(vec![3036]),
    }
}

#[test]
fn item_set_titles_name_mode_and_position() {
    let full = info(vec![], true);
    let set = build_item_set(103, "Ahri", "MID", "Ranked", 11, "Most Popular", false, &full, 0).unwrap();
    assert_eq!(set.title, "[OP.GG] Ahri - MID");
    assert_eq!(set.associated_maps, vec![11]);
    assert_eq!(set.associated_champions, vec![103]);
    assert_eq!(set.blocks.len(), 4);
    assert_eq!(set.blocks[0].type_field, "Starter Items");
    assert_eq!(set.blocks[1].type_field, "Boots");
    assert_eq!(set.blocks[2].type_field, "Core Build");
    assert_eq!(set.blocks[3].type_field, "Situational / Last Items");
    assert_eq!(set.map, "any");
    assert_eq!(set.mode, "any");
    assert_eq!(set.preferred_item_slots, Some(vec![]));
    assert_eq!(set.sortrank, 0);
    assert_eq!(set.started_from, "op.gg");
    assert_eq!(set.type_field, Some("custom".to_string()));
    let aram = build_item_set(103, "Ahri", "aram", "ARAM", 12, "Highest Win Rate", true, &full, 1).unwrap();
    assert_eq!(aram.title, "[OP.GG] Ahri ARAM - Build (Highest WR)");
    let blank = build_item_set(103, "Ahri", "", "ARAM", 12, "Most Popular", false, &full, 0).unwrap();
    assert_eq!(blank.title, "[OP.GG] Ahri ARAM - Build");
    assert!(build_item_set(103, "Ahri", "MID", "Ranked", 11, "x", false, &info(vec![], false), 0).is_none());
}

#[test]
fn item_builds_are_popular_then_win_rate() {
    let builds = transform_item_builds(1, "Annie", "TOP", "Ranked", 11, &info(vec![], true));
    assert_eq!(builds.len(), 2);
    assert_eq!(builds[0].title, "[OP.GG] Annie - TOP");
    assert_eq!(builds[0].sortrank, 0);
    assert_eq!(builds[1].title, "[OP.GG] Annie - TOP (Highest WR)");
    assert_eq!(builds[1].sortrank, 1);
    assert!(transform_item_builds(1, "Annie", "TOP", "Ranked", 11, &info(vec![], false)).is_empty());
}

#[test]
fn sections_gather_runes_and_items() {
    let data = info(vec![rune(7, "57.14%", vec![8112])], true);
    let section = section_with(103, "Ahri", "ARAM", GameMode::Aram, "15.2", &data, &ids(1), 42);
    assert_eq!(section.id, "opgg-ahri-aram-aram");
    assert_eq!(section.index, 0);
    assert_eq!(section.version, "15.2");
    assert_eq!(section.official_version, "15.2");
    assert_eq!(section.pick_count, 7);
    assert_eq!(section.win_rate, "57.14%");
    assert_eq!(section.timestamp, 42);
    assert_eq!(section.alias, "Ahri");
    assert_eq!(section.name, "Ahri");
    assert_eq!(section.position, "ARAM");
    assert!(section.skills.is_none() && section.spells.is_none() && section.champion_tier.is_none());
    assert_eq!(section.runes.len(), 1);
    assert_eq!(section.item_builds.len(), 2);
    assert_eq!(section.item_builds[0].associated_maps, vec![12]);
    assert_eq!(section.item_builds[0].title, "[OP.GG] Ahri ARAM - Build");

    let empty = section_with(103, "Ahri", "TOP", GameMode::Ranked, "15.2", &info(vec![], false), &ids(0), 1);
    assert_eq!(empty.id, "opgg-ahri-ranked-top");
    assert_eq!(empty.pick_count, 0);
    assert_eq!(empty.win_rate, "0.00%");
    assert!(empty.runes.is_empty() && empty.item_builds.is_empty());

    let live = transform_info(1, "Annie", "MID", GameMode::Ranked, "15.3", &data);
    assert!(live.timestamp > 0);
    assert_eq!(live.runes[0].uuid.len(), 36);
    assert_eq!(live.item_builds[0].associated_maps, vec![11]);
}

#[test]
fn ranked_sections_skip_failed_positions() {
    let fetched = |v: &str| Some(FetchedInfo { version: v.to_string(), info: info(vec![], true) });
    let responses = vec![
        PositionBuild { position: ChampionPosition::Adc, fetched: None },
        PositionBuild { position: ChampionPosition::Mid, fetched: fetched("a") },
        PositionBuild { position: ChampionPosition::Top, fetched: fetched("b") },
    ];
    let sections = ranked_sections(103, "Ahri", &responses).unwrap();
    assert_eq!(sections.len(), 2);
    assert_eq!(sections[0].position, "MID");
    assert_eq!(sections[0].version, "a");
    assert_eq!(sections[1].id, "opgg-ahri-ranked-top");
    let failed = vec![PositionBuild { position: ChampionPosition::Adc, fetched: None }];
    assert!(matches!(ranked_sections(103, "Ahri", &failed), Err(NativeError::NoRankedBuilds)));
    assert!(matches!(ranked_sections(103, "Ahri", &vec![]), Err(NativeError::NoRankedBuilds)));
}

#[test]
fn native_builtin_sources_match_their_modes() {
    let sources = lcu::source::builtin_sources();
    let mut native = 0;
    for s in &sources {
        if is_native_source(&s.value) {
            native += 1;
            assert_eq!(native_mode(&s.value) == Some(GameMode::Aram), s.is_aram == Some(true));
            assert_ne!(s.is_urf, Some(true));
        }
    }
    assert_eq!(native, 2);
}

#[test]
fn aram_builds_are_one_section_for_position_aram() {
    let data = info(vec![rune(3, "33.33%", vec![8010])], true);
    let sections = aram_sections(103, "Ahri", "15.4", &data);
    assert_eq!(sections.len(), 1);
    assert_eq!(sections[0].position, "ARAM");
    assert_eq!(sections[0].id, "opgg-ahri-aram-aram");
    assert_eq!(sections[0].item_builds[0].associated_maps, vec![12]);
    assert!(sections[0].timestamp > 0);
}

#[test]
fn ranked_flow_gives_fetched_positions_in_name_order() {
    let summaries = vec![ChampionSummary {
        id: 5,
        positions: Some(vec![
            ChampionPosition::Top,
            ChampionPosition::Support,
            ChampionPosition::Adc,
            ChampionPosition::Top,
        ]),
    }];
    let positions = ranked_positions(&summaries, 5).unwrap();
    let responses: Vec<PositionBuild> = positions
        .iter()
        .map(|p| PositionBuild {
            position: *p,
            fetched: if *p == ChampionPosition::Support {
                None
            } else {
                Some(FetchedInfo { version: "v".to_string(), info: info(vec![], true) })
            },
        })
        .collect();
    let sections = ranked_sections(5, "Annie", &responses).unwrap();
    let names: Vec<&str> = sections.iter().map(|s| s.position.as_str()).collect();
    assert_eq!(names, vec!["ADC", "TOP"]);
}
