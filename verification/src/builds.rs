//! The build data handed to the League client: item sets made of blocks of
//! items, rune pages, and the section that gathers them for one champion,
//! mode and position.

use vstd::prelude::*;

verus! {

/// One item of a block.
pub struct Item {
    pub id: String,
    pub count: i64,
}

pub struct ItemView {
    pub id: Seq<char>,
    pub count: i64,
}

impl View for Item {
    type V = ItemView;

    open spec fn view(&self) -> ItemView {
        ItemView { id: self.id@, count: self.count }
    }
}

/// A titled block of items in an item set.
pub struct Block {
    pub type_field: String,
    pub items: Option<Vec<Item>>,
}

pub struct BlockView {
    pub type_field: Seq<char>,
    pub items: Option<Seq<ItemView>>,
}

/// The view of a list of items.
pub open spec fn items_view(items: Seq<Item>) -> Seq<ItemView> {
    items.map_values(|i: Item| i@)
}

impl View for Block {
    type V = BlockView;

    open spec fn view(&self) -> BlockView {
        BlockView {
            type_field: self.type_field@,
            items: match self.items {
                Some(v) => Some(items_view(v@)),
                None => None,
            },
        }
    }
}

/// The view of a list of blocks.
pub open spec fn blocks_view(blocks: Seq<Block>) -> Seq<BlockView> {
    blocks.map_values(|b: Block| b@)
}

/// The view of a list of strings.
pub open spec fn strings_view(strings: Seq<String>) -> Seq<Seq<char>> {
    strings.map_values(|s: String| s@)
}

/// An item set as the League client stores it.
pub struct ItemBuild {
    pub title: String,
    pub associated_maps: Vec<i64>,
    pub associated_champions: Vec<i64>,
    pub blocks: Vec<Block>,
    pub map: String,
    pub mode: String,
    pub preferred_item_slots: Option<Vec<String>>,
    pub sortrank: i64,
    pub started_from: String,
    pub type_field: Option<String>,
}

pub struct ItemBuildView {
    pub title: Seq<char>,
    pub associated_maps: Seq<i64>,
    pub associated_champions: Seq<i64>,
    pub blocks: Seq<BlockView>,
    pub map: Seq<char>,
    pub mode: Seq<char>,
    pub preferred_item_slots: Option<Seq<Seq<char>>>,
    pub sortrank: i64,
    pub started_from: Seq<char>,
    pub type_field: Option<Seq<char>>,
}

impl View for ItemBuild {
    type V = ItemBuildView;

    open spec fn view(&self) -> ItemBuildView {
        ItemBuildView {
            title: self.title@,
            associated_maps: self.associated_maps@,
            associated_champions: self.associated_champions@,
            blocks: blocks_view(self.blocks@),
            map: self.map@,
            mode: self.mode@,
            preferred_item_slots: match self.preferred_item_slots {
                Some(v) => Some(strings_view(v@)),
                None => None,
            },
            sortrank: self.sortrank,
            started_from: self.started_from@,
            type_field: match self.type_field {
                Some(s) => Some(s@),
                None => None,
            },
        }
    }
}

/// The view of a list of item sets.
pub open spec fn item_builds_view(builds: Seq<ItemBuild>) -> Seq<ItemBuildView> {
    builds.map_values(|b: ItemBuild| b@)
}

/// A rune page as the League client stores it.
pub struct Rune {
    pub uuid: String,
    pub alias: String,
    pub name: String,
    pub position: String,
    pub pick_count: u64,
    pub win_rate: String,
    pub primary_style_id: i64,
    pub sub_style_id: i64,
    pub selected_perk_ids: Vec<i64>,
    pub score: Option<i64>,
    pub type_field: String,
}

pub struct RuneView {
    pub uuid: Seq<char>,
    pub alias: Seq<char>,
    pub name: Seq<char>,
    pub position: Seq<char>,
    pub pick_count: u64,
    pub win_rate: Seq<char>,
    pub primary_style_id: i64,
    pub sub_style_id: i64,
    pub selected_perk_ids: Seq<i64>,
    pub score: Option<i64>,
    pub type_field: Seq<char>,
}

impl View for Rune {
    type V = RuneView;

    open spec fn view(&self) -> RuneView {
        RuneView {
            uuid: self.uuid@,
            alias: self.alias@,
            name: self.name@,
            position: self.position@,
            pick_count: self.pick_count,
            win_rate: self.win_rate@,
            primary_style_id: self.primary_style_id,
            sub_style_id: self.sub_style_id,
            selected_perk_ids: self.selected_perk_ids@,
            score: self.score,
            type_field: self.type_field@,
        }
    }
}

/// The view of a list of rune pages.
pub open spec fn runes_view(runes: Seq<Rune>) -> Seq<RuneView> {
    runes.map_values(|r: Rune| r@)
}

/// The builds of one champion for one mode and position.
pub struct BuildSection {
    pub index: i64,
    pub id: String,
    pub version: String,
    pub official_version: String,
    pub pick_count: i64,
    pub win_rate: String,
    pub timestamp: i64,
    pub alias: String,
    pub name: String,
    pub position: String,
    pub skills: Option<Vec<String>>,
    pub spells: Option<Vec<String>>,
    pub champion_tier: Option<String>,
    pub item_builds: Vec<ItemBuild>,
    pub runes: Vec<Rune>,
}

pub struct BuildSectionView {
    pub index: i64,
    pub id: Seq<char>,
    pub version: Seq<char>,
    pub official_version: Seq<char>,
    pub pick_count: i64,
    pub win_rate: Seq<char>,
    pub timestamp: i64,
    pub alias: Seq<char>,
    pub name: Seq<char>,
    pub position: Seq<char>,
    pub skills: Option<Seq<Seq<char>>>,
    pub spells: Option<Seq<Seq<char>>>,
    pub champion_tier: Option<Seq<char>>,
    pub item_builds: Seq<ItemBuildView>,
    pub runes: Seq<RuneView>,
}

impl View for BuildSection {
    type V = BuildSectionView;

    open spec fn view(&self) -> BuildSectionView {
        BuildSectionView {
            index: self.index,
            id: self.id@,
            version: self.version@,
            official_version: self.official_version@,
            pick_count: self.pick_count,
            win_rate: self.win_rate@,
            timestamp: self.timestamp,
            alias: self.alias@,
            name: self.name@,
            position: self.position@,
            skills: match self.skills {
                Some(v) => Some(strings_view(v@)),
                None => None,
            },
            spells: match self.spells {
                Some(v) => Some(strings_view(v@)),
                None => None,
            },
            champion_tier: match self.champion_tier {
                Some(s) => Some(s@),
                None => None,
            },
            item_builds: item_builds_view(self.item_builds@),
            runes: runes_view(self.runes@),
        }
    }
}

} // verus!
