//! The built-in addon catalog, the configuration defaults, and the merge of
//! stored overrides into the catalog.
use vstd::prelude::*;
use vstd::string::*;
use crate::types::{AddonDefinition, DefinitionView, UpdateMode};

verus! {

/// A catalog entry that tracks branch `main`.
pub open spec fn branch_def(
    local: Seq<char>,
    nice: Seq<char>,
    owner: Seq<char>,
    repo: Seq<char>,
    desc: Seq<char>,
) -> DefinitionView {
    DefinitionView {
        local_name: local,
        nice_name: nice,
        github_owner: owner,
        github_repo: repo,
        description: desc,
        update_mode: UpdateMode::Branch,
        branch: Some("main"@),
    }
}

/// The built-in catalog, entry by entry.
pub open spec fn catalog() -> Seq<DefinitionView> {
    seq![
        branch_def("Nihui_uf"@, "Unit Frames"@, "Nihilop"@, "Nihui_unitframe"@, "Unit frames addon"@),
        branch_def("Nihui_ab"@, "Action Bars"@, "Nihilop"@, "Nihui_actionbars"@, "Action bars addon"@),
        branch_def("Nihui_iv"@, "Inventory"@, "Nihilop"@, "Nihui_inventory"@, "Inventory addon"@),
        branch_def("Nihui_cb"@, "Cast Bars"@, "Nihilop"@, "Nihui_castbars"@, "Castbars addon"@),
        branch_def("Nihui_np"@, "Nameplates"@, "Nihilop"@, "Nihui_nameplate"@, "Nameplate addon"@),
        branch_def("Nihui_chat"@, "Nihui Chatbox"@, "Nihilop"@, "Nihui_chat"@, "Chatbox addon"@),
        branch_def("WaypointUI"@, "Waypoint UI"@, "Adaptvx"@, "Waypoint-UI"@, "waypoint addon"@),
    ]
}

pub open spec fn defs_view(v: Seq<AddonDefinition>) -> Seq<DefinitionView> {
    v.map_values(|d: AddonDefinition| d@)
}

fn branch_entry(local: &str, nice: &str, owner: &str, repo: &str, desc: &str) -> (r: AddonDefinition)
    ensures
        r@ == branch_def(local@, nice@, owner@, repo@, desc@),
{
    AddonDefinition {
        local_name: String::from_str(local),
        nice_name: String::from_str(nice),
        github_owner: String::from_str(owner),
        github_repo: String::from_str(repo),
        description: String::from_str(desc),
        update_mode: UpdateMode::Branch,
        branch: Some(String::from_str("main")),
    }
}

/// The built-in catalog, with no override applied.
pub fn get_addon_definitions() -> (r: Vec<AddonDefinition>)
    ensures
        defs_view(r@) == catalog(),
{
    let mut v: Vec<AddonDefinition> = Vec::new();
    v.push(branch_entry("Nihui_uf", "Unit Frames", "Nihilop", "Nihui_unitframe", "Unit frames addon"));
    v.push(branch_entry("Nihui_ab", "Action Bars", "Nihilop", "Nihui_actionbars", "Action bars addon"));
    v.push(branch_entry("Nihui_iv", "Inventory", "Nihilop", "Nihui_inventory", "Inventory addon"));
    v.push(branch_entry("Nihui_cb", "Cast Bars", "Nihilop", "Nihui_castbars", "Castbars addon"));
    v.push(branch_entry("Nihui_np", "Nameplates", "Nihilop", "Nihui_nameplate", "Nameplate addon"));
    v.push(branch_entry("Nihui_chat", "Nihui Chatbox", "Nihilop", "Nihui_chat", "Chatbox addon"));
    v.push(branch_entry("WaypointUI", "Waypoint UI", "Adaptvx", "Waypoint-UI", "waypoint addon"));
    assert(defs_view(v@) =~= catalog());
    v
}

} // verus!
