use vstd::prelude::*;
use crate::text::str_eq;

verus! {

/// What a tab shows.
#[derive(Debug, Clone, Copy, PartialEq, Eq, Structural)]
pub enum TabKind {
    Terminal,
    Browser,
    ExtensionWebView,
}

/// A pane area as focus routing reads it: its id, its active tab, and the id and kind of
/// each of its tabs.
#[derive(Debug, Clone)]
pub struct AreaTabs {
    pub id: String,
    pub active_tab_id: Option<String>,
    pub tabs: Vec<(String, TabKind)>,
}

/// Index of the first tab of `tabs`, from `from` on, with the given id.
pub open spec fn tab_index(tabs: Seq<(String, TabKind)>, id: Seq<char>, from: int) -> Option<int>
    decreases tabs.len() - from,
{
    if from < 0 || from >= tabs.len() {
        None
    } else if tabs[from].0@ == id {
        Some(from)
    } else {
        tab_index(tabs, id, from + 1)
    }
}

/// Index of the first area, from `from` on, that holds a tab with the given id.
pub open spec fn area_index(areas: Seq<AreaTabs>, id: Seq<char>, from: int) -> Option<int>
    decreases areas.len() - from,
{
    if from < 0 || from >= areas.len() {
        None
    } else if tab_index(areas[from].tabs@, id, 0) is Some {
        Some(from)
    } else {
        area_index(areas, id, from + 1)
    }
}

/// The area that an extension surface's focus goes to: the area holding the surface, when
/// the surface is an extension web view, is that area's active tab, and is shown (the pair
/// of the area and the surface is among the visible area tabs).
pub open spec fn visible_extension_area(
    areas: Seq<AreaTabs>,
    visible_area_tabs: Seq<(String, String)>,
    surface_id: Seq<char>,
) -> Option<Seq<char>> {
    match area_index(areas, surface_id, 0) {
        None => None,
        Some(a) => {
            let area = areas[a];
            match tab_index(area.tabs@, surface_id, 0) {
                None => None,
                Some(t) => if area.tabs@[t].1 == TabKind::ExtensionWebView && (area.active_tab_id
                    matches Some(active) && active@ == surface_id) && exists|k: int|
                    0 <= k < visible_area_tabs.len() && #[trigger] visible_area_tabs[k].0@
                        == area.id@ && visible_area_tabs[k].1@ == surface_id {
                    Some(area.id@)
                } else {
                    None
                },
            }
        },
    }
}

proof fn lemma_tab_index_in_range(tabs: Seq<(String, TabKind)>, id: Seq<char>, from: int)
    requires
        0 <= from,
    ensures
        tab_index(tabs, id, from) matches Some(t) ==> from <= t < tabs.len() && tabs[t].0@ == id,
    decreases tabs.len() - from,
{
    if from < tabs.len() && tabs[from].0@ != id {
        lemma_tab_index_in_range(tabs, id, from + 1);
    }
}

proof fn lemma_area_index_in_range(areas: Seq<AreaTabs>, id: Seq<char>, from: int)
    requires
        0 <= from,
    ensures
        area_index(areas, id, from) matches Some(a) ==> from <= a < areas.len(),
    decreases areas.len() - from,
{
    if from < areas.len() && tab_index(areas[from].tabs@, id, 0) is None {
        lemma_area_index_in_range(areas, id, from + 1);
    }
}

fn find_tab(tabs: &Vec<(String, TabKind)>, id: &str) -> (r: Option<usize>)
    ensures
        match r {
            Some(t) => tab_index(tabs@, id@, 0) == Some(t as int),
            None => tab_index(tabs@, id@, 0) is None,
        },
{
    let mut i: usize = 0;
    while i < tabs.len()
        invariant
            i <= tabs@.len(),
            tab_index(tabs@, id@, 0) == tab_index(tabs@, id@, i as int),
        decreases tabs@.len() - i,
    {
        if str_eq(tabs[i].0.as_str(), id) {
            return Some(i);
        }
        i = i + 1;
    }
    None
}

fn find_area(areas: &Vec<AreaTabs>, id: &str) -> (r: Option<usize>)
    ensures
        match r {
            Some(a) => area_index(areas@, id@, 0) == Some(a as int),
            None => area_index(areas@, id@, 0) is None,
        },
{
    let mut i: usize = 0;
    while i < areas.len()
        invariant
            i <= areas@.len(),
            area_index(areas@, id@, 0) == area_index(areas@, id@, i as int),
        decreases areas@.len() - i,
    {
        if find_tab(&areas[i].tabs, id).is_some() {
            return Some(i);
        }
        i = i + 1;
    }
    None
}

fn contains_pair(pairs: &Vec<(String, String)>, first: &str, second: &str) -> (r: bool)
    ensures
        r == exists|k: int|
            0 <= k < pairs@.len() && #[trigger] pairs@[k].0@ == first@ && pairs@[k].1@ == second@,
{
    let mut k: usize = 0;
    while k < pairs.len()
        invariant
            k <= pairs@.len(),
            forall|j: int|
                0 <= j < k ==> !(#[trigger] pairs@[j].0@ == first@ && pairs@[j].1@ == second@),
        decreases pairs@.len() - k,
    {
        if str_eq(pairs[k].0.as_str(), first) && str_eq(pairs[k].1.as_str(), second) {
            assert(pairs@[k as int].0@ == first@ && pairs@[k as int].1@ == second@);
            return true;
        }
        k = k + 1;
    }
    false
}

/// The area that an extension surface's focus goes to, if the surface is a shown, active
/// extension web view.
pub fn visible_extension_webview_area(
    areas: &Vec<AreaTabs>,
    visible_area_tabs: &Vec<(String, String)>,
    surface_id: &str,
) -> (area: Option<String>)
    ensures
        match area {
            Some(id) => visible_extension_area(areas@, visible_area_tabs@, surface_id@) == Some(id@),
            None => visible_extension_area(areas@, visible_area_tabs@, surface_id@) is None,
        },
{
    let a = match find_area(areas, surface_id) {
        Some(a) => a,
        None => return None,
    };
    proof {
        lemma_area_index_in_range(areas@, surface_id@, 0);
    }
    let area = &areas[a];
    let t = match find_tab(&area.tabs, surface_id) {
        Some(t) => t,
        None => return None,
    };
    proof {
        lemma_tab_index_in_range(area.tabs@, surface_id@, 0);
    }
    let is_active = match &area.active_tab_id {
        Some(active) => str_eq(active.as_str(), surface_id),
        None => false,
    };
    if area.tabs[t].1 != TabKind::ExtensionWebView || !is_active {
        return None;
    }
    if contains_pair(visible_area_tabs, area.id.as_str(), surface_id) {
        Some(area.id.clone())
    } else {
        None
    }
}

} // verus!
