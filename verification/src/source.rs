//! The list of build sources and the game mode each one serves.

use vstd::prelude::*;

verus! {

/// One build source as the service lists it.
#[derive(Debug, Clone, PartialEq)]
pub struct SourceItem {
    pub label: String,
    pub value: String,
    pub is_aram: Option<bool>,
    pub is_urf: Option<bool>,
}

/// The mathematical model of a [`SourceItem`].
pub struct SourceItemView {
    pub label: Seq<char>,
    pub value: Seq<char>,
    pub is_aram: Option<bool>,
    pub is_urf: Option<bool>,
}

impl View for SourceItem {
    type V = SourceItemView;

    open spec fn view(&self) -> SourceItemView {
        SourceItemView {
            label: self.label@,
            value: self.value@,
            is_aram: self.is_aram,
            is_urf: self.is_urf,
        }
    }
}

/// The mode label of a source: ARAM wins over URF, and anything else is
/// Summoner's Rift.
pub open spec fn spec_mode_label(is_aram: Option<bool>, is_urf: Option<bool>) -> Seq<char> {
    if is_aram == Some(true) {
        "ARAM"@
    } else if is_urf == Some(true) {
        "URF"@
    } else {
        "SR"@
    }
}

impl SourceItem {
    pub fn mode_label(&self) -> (res: &'static str)
        ensures
            res@ == spec_mode_label(self.is_aram, self.is_urf),
    {
        if self.is_aram == Some(true) {
            "ARAM"
        } else if self.is_urf == Some(true) {
            "URF"
        } else {
            "SR"
        }
    }
}

/// The classic package sources, in the order they are offered.
pub open spec fn spec_builtin_sources() -> Seq<SourceItemView> {
    seq![
        SourceItemView { label: "OP.GG"@, value: "op.gg"@, is_aram: Some(false), is_urf: Some(false) },
        SourceItemView { label: "OP.GG ARAM"@, value: "op.gg-aram"@, is_aram: Some(true), is_urf: Some(false) },
        SourceItemView { label: "Lolalytics"@, value: "lolalytics"@, is_aram: Some(false), is_urf: Some(false) },
        SourceItemView { label: "MurderBridge"@, value: "murderbridge"@, is_aram: Some(true), is_urf: Some(false) },
    ]
}

fn source_item(label: &str, value: &str, is_aram: bool) -> (res: SourceItem)
    ensures
        res@ == (SourceItemView { label: label@, value: value@, is_aram: Some(is_aram), is_urf: Some(false) }),
{
    SourceItem {
        label: label.to_owned(),
        value: value.to_owned(),
        is_aram: Some(is_aram),
        is_urf: Some(false),
    }
}

/// Classic ChampR package-backed sources.
///
/// These are merged with the live service source list at runtime. Live
/// service entries override labels for duplicate keys, while the classic
/// package sources stay available for the old multi-source workflow.
pub fn builtin_sources() -> (res: Vec<SourceItem>)
    ensures
        res@.map_values(|s: SourceItem| s@) == spec_builtin_sources(),
{
    let mut res = Vec::new();
    res.push(source_item("OP.GG", "op.gg", false));
    res.push(source_item("OP.GG ARAM", "op.gg-aram", true));
    res.push(source_item("Lolalytics", "lolalytics", false));
    res.push(source_item("MurderBridge", "murderbridge", true));
    assert(res@.map_values(|s: SourceItem| s@) =~= spec_builtin_sources());
    res
}

} // verus!
