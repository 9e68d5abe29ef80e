use lcu::source::{builtin_sources, SourceItem};

fn item(is_aram: Option<bool>, is_urf: Option<bool>) -> SourceItem {
    SourceItem { label: "x".to_string(), value: "y".to_string(), is_aram, is_urf }
}

#[test]
fn mode_label_prefers_aram_then_urf() {
    assert_eq!(item(Some(true), Some(true)).mode_label(), "ARAM");
    assert_eq!(item(Some(false), Some(true)).mode_label(), "URF");
    assert_eq!(item(None, Some(true)).mode_label(), "URF");
    assert_eq!(item(Some(false), Some(false)).mode_label(), "SR");
    assert_eq!(item(None, None).mode_label(), "SR");
}

#[test]
fn builtin_sources_are_the_classic_four() {
    let sources = builtin_sources();
    let values: Vec<&str> = sources.iter().map(|s| s.value.as_str()).collect();
    assert_eq!(values, vec!["op.gg", "op.gg-aram", "lolalytics", "murderbridge"]);
    let labels: Vec<&str> = sources.iter().map(|s| s.label.as_str()).collect();
    assert_eq!(labels, vec!["OP.GG", "OP.GG ARAM", "Lolalytics", "MurderBridge"]);
    let modes: Vec<&str> = sources.iter().map(|s| s.mode_label()).collect();
    assert_eq!(modes, vec!["SR", "ARAM", "SR", "ARAM"]);
    assert!(sources.iter().all(|s| s.is_urf == Some(false)));
}

#[test]
fn source_items_compare_and_clone_by_fields() {
    let a = item(Some(true), None);
    let b = a.clone();
    assert_eq!(a, b);
    assert_ne!(a, item(Some(false), None));
}
