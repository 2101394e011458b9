use vstd::prelude::*;
use crate::text::str_eq;

verus! {

/// A terminal asks for attention unless the user is looking at it: its root tab is active
/// and it is the focused pane.
pub fn shows_terminal_attention(
    root_is_active: bool,
    focused_tab_id: Option<&str>,
    tab_id: &str,
    has_attention: bool,
) -> (r: bool)
    ensures
        r == (has_attention && (!root_is_active || !(focused_tab_id matches Some(f) && f@
            == tab_id@))),
{
    let focused_here = match focused_tab_id {
        Some(focused) => str_eq(focused, tab_id),
        None => false,
    };
    has_attention && (!root_is_active || !focused_here)
}

/// What the glyph of a root tab shows.
#[derive(Debug, Clone, Copy, PartialEq, Eq, Default, Structural)]
pub struct TabIndicator {
    /// Some terminal of the tab reports progress.
    pub progress_active: bool,
    /// Some terminal of the tab asks for attention.
    pub shows_attention: bool,
    /// Some terminal of the tab flashes its bell.
    pub bell_flashing: bool,
    /// The tab has unread notifications.
    pub unread: bool,
}

/// The dot shows attention, or unread notifications when neither progress nor a bell
/// takes the glyph.
pub fn shows_tab_indicator_dot(indicator: TabIndicator) -> (r: bool)
    ensures
        r == (indicator.shows_attention || (indicator.unread && !indicator.progress_active
            && !indicator.bell_flashing)),
{
    indicator.shows_attention || (indicator.unread && !indicator.progress_active
        && !indicator.bell_flashing)
}

/// The state of one pane of a root tab, as the indicator reads it.
#[derive(Debug, Clone)]
pub struct PaneState {
    pub tab_id: String,
    pub is_terminal: bool,
    /// The pane has a live terminal surface.
    pub live: bool,
    pub progress_active: bool,
    /// When the pane's bell flash ends, if it flashes.
    pub bell_deadline: Option<u128>,
    pub has_attention: bool,
}

/// A pane counts for the indicator when it is a live terminal.
pub open spec fn counts(pane: PaneState) -> bool {
    pane.is_terminal && pane.live
}

/// The indicator of a root tab and the pane whose progress it shows: the first counted
/// pane that reports progress; a bell of any counted pane whose flash has not ended; the
/// attention of any counted pane; and the unread state, which only a worktree tab has.
pub fn pane_indicator(
    panes: &Vec<PaneState>,
    now: u128,
    is_active: bool,
    focused_tab_id: Option<&str>,
    unread: Option<bool>,
) -> (result: (TabIndicator, Option<usize>))
    ensures
        match result.1 {
            Some(k) => k < panes@.len() && counts(panes@[k as int]) && panes@[k as int].progress_active
                && forall|j: int|
                0 <= j < k ==> !(counts(#[trigger] panes@[j]) && panes@[j].progress_active),
            None => forall|j: int|
                0 <= j < panes@.len() ==> !(counts(#[trigger] panes@[j]) && panes@[j].progress_active),
        },
        result.0.progress_active == (result.1 is Some),
        result.0.bell_flashing == exists|j: int|
            0 <= j < panes@.len() && counts(#[trigger] panes@[j]) && (panes@[j].bell_deadline matches Some(
                d,
            ) && d > now),
        result.0.shows_attention == exists|j: int|
            0 <= j < panes@.len() && counts(#[trigger] panes@[j]) && panes@[j].has_attention && (
            !is_active || !(focused_tab_id matches Some(f) && f@ == panes@[j].tab_id@)),
        result.0.unread == (unread == Some(true)),
{
    let mut indicator = TabIndicator {
        progress_active: false,
        shows_attention: false,
        bell_flashing: false,
        unread: false,
    };
    let mut progress: Option<usize> = None;
    let mut i: usize = 0;
    while i < panes.len()
        invariant
            i <= panes@.len(),
            match progress {
                Some(k) => k < i && counts(panes@[k as int]) && panes@[k as int].progress_active
                    && forall|j: int|
                    0 <= j < k ==> !(counts(#[trigger] panes@[j]) && panes@[j].progress_active),
                None => forall|j: int|
                    0 <= j < i ==> !(counts(#[trigger] panes@[j]) && panes@[j].progress_active),
            },
            indicator.progress_active == (progress is Some),
            indicator.bell_flashing == exists|j: int|
                0 <= j < i && counts(#[trigger] panes@[j]) && (panes@[j].bell_deadline matches Some(
                    d,
                ) && d > now),
            indicator.shows_attention == exists|j: int|
                0 <= j < i && counts(#[trigger] panes@[j]) && panes@[j].has_attention && (!is_active
                || !(focused_tab_id matches Some(f) && f@ == panes@[j].tab_id@)),
            indicator.unread == false,
        decreases panes@.len() - i,
    {
        let pane = &panes[i];
        if pane.is_terminal && pane.live {
            if progress.is_none() && pane.progress_active {
                progress = Some(i);
                indicator.progress_active = true;
            }
            match pane.bell_deadline {
                Some(deadline) => {
                    if deadline > now {
                        indicator.bell_flashing = true;
                    }
                },
                None => {},
            }
            if shows_terminal_attention(
                is_active,
                focused_tab_id,
                pane.tab_id.as_str(),
                pane.has_attention,
            ) {
                indicator.shows_attention = true;
            }
        }
        i = i + 1;
    }
    indicator.unread = unread == Some(true);
    (indicator, progress)
}

/// The ids of the actions at the end of a tab strip: maximize when a pane can be
/// maximized or restored, the two splits, and applying a layout when layouts exist.
pub fn strip_action_ids(show_maximize: bool, has_layouts: bool) -> (ids: Vec<&'static str>)
    ensures
        ids@.map_values(|id: &'static str| id@) == (if show_maximize {
            seq!["maximize"@]
        } else {
            Seq::empty()
        }) + seq!["split-right"@, "split-down"@] + (if has_layouts {
            seq!["apply-layout"@]
        } else {
            Seq::empty()
        }),
{
    let mut ids: Vec<&'static str> = Vec::new();
    if show_maximize {
        ids.push("maximize");
    }
    ids.push("split-right");
    ids.push("split-down");
    if has_layouts {
        ids.push("apply-layout");
    }
    proof {
        let expected = (if show_maximize {
            seq!["maximize"@]
        } else {
            Seq::empty()
        }) + seq!["split-right"@, "split-down"@] + (if has_layouts {
            seq!["apply-layout"@]
        } else {
            Seq::empty()
        });
        assert(ids@.map_values(|id: &'static str| id@) =~= expected);
    }
    ids
}

/// The root tab that is `delta` steps away from the focused one, wrapping around; the
/// count starts from the first tab when no root tab is focused.
pub open spec fn relative_index(current: int, delta: int, len: int) -> int {
    (current + delta) % len
}

/// Position of the focused root tab in the tab order (the first when it is not there).
pub open spec fn focused_position(order: Seq<Seq<char>>, focused: Option<Seq<char>>) -> int {
    match focused {
        Some(f) => if order.contains(f) {
            choose|i: int| 0 <= i < order.len() && order[i] == f && forall|j: int|
                0 <= j < i ==> order[j] != f
        } else {
            0
        },
        None => 0,
    }
}

proof fn lemma_step_mod(current: int, delta: int, len: int, step: int, index: int)
    requires
        len > 0,
        0 <= current,
        delta >= 0 ==> step == delta % len,
        delta < 0 ==> step == (len - (-delta) % len) % len,
        index == (current + step) % len,
    ensures
        index == (current + delta) % len,
{
    if delta >= 0 {
        vstd::arithmetic::div_mod::lemma_add_mod_noop_right(current, delta, len);
    } else {
        let b = (-delta) % len;
        vstd::arithmetic::div_mod::lemma_fundamental_div_mod(-delta, len);
        let q = (-delta) / len;
        assert(current + delta == len * (-q - 1) + (current + len - b)) by (nonlinear_arith)
            requires
                -delta == len * q + b,
        ;
        vstd::arithmetic::div_mod::lemma_mod_multiples_vanish(-q - 1, current + len - b, len);
        vstd::arithmetic::div_mod::lemma_add_mod_noop_right(current, len - b, len);
    }
}

/// Stepping `delta` tabs and then `delta` tabs back returns to the tab one started from.
pub proof fn lemma_relative_index_round_trip(current: int, delta: int, len: int)
    requires
        0 <= current < len,
    ensures
        relative_index(relative_index(current, delta, len), -delta, len) == current,
        0 <= relative_index(current, delta, len) < len,
{
    let r = (current + delta) % len;
    vstd::arithmetic::div_mod::lemma_fundamental_div_mod(current + delta, len);
    let q = (current + delta) / len;
    assert(r - delta == len * (-q) + current) by (nonlinear_arith)
        requires
            current + delta == len * q + r,
    ;
    vstd::arithmetic::div_mod::lemma_mod_multiples_vanish(-q, current, len);
    vstd::arithmetic::div_mod::lemma_small_mod(current as nat, len as nat);
}

/// Which root tab to select when stepping `delta` tabs from the focused one; `None` for a
/// workspace without tabs.
pub fn relative_root_index(order: &Vec<String>, focused_root_tab_id: Option<&str>, delta: i32) -> (index:
    Option<usize>)
    requires
        order@.len() <= i32::MAX,
    ensures
        order@.len() == 0 ==> index is None,
        order@.len() > 0 ==> (index matches Some(i) && i as int == relative_index(
            focused_position(
                order@.map_values(|s: String| s@),
                match focused_root_tab_id {
                    Some(f) => Some(f@),
                    None => None,
                },
            ),
            delta as int,
            order@.len() as int,
        )),
{
    let n = order.len();
    if n == 0 {
        return None;
    }
    let ghost names = order@.map_values(|s: String| s@);
    let ghost focused = match focused_root_tab_id {
        Some(f) => Some(f@),
        None => None,
    };
    let mut current: usize = 0;
    match focused_root_tab_id {
        Some(focused_id) => {
            let mut i: usize = 0;
            while i < n && !str_eq(order[i].as_str(), focused_id)
                invariant
                    n == order@.len(),
                    i <= n,
                    names == order@.map_values(|s: String| s@),
                    forall|j: int| 0 <= j < i ==> names[j] != focused_id@,
                decreases n - i,
            {
                i = i + 1;
            }
            proof {
                if i < n {
                    assert(names[i as int] == focused_id@);
                    assert(names.contains(focused_id@));
                    let c = choose|c: int|
                        0 <= c < names.len() && names[c] == focused_id@ && forall|j: int|
                            0 <= j < c ==> names[j] != focused_id@;
                    assert(c == i) by {
                        if c < i {
                            assert(names[c] != focused_id@);
                        }
                        if c > i {
                            assert(names[i as int] != focused_id@);
                        }
                    }
                } else {
                    assert(!names.contains(focused_id@));
                }
            }
            if i < n {
                current = i;
            }
        },
        None => {},
    }
    let len = n as u64;
    let step: u64 = if delta >= 0 {
        (delta as u64) % len
    } else {
        let back = ((-(delta as i64)) as u64) % len;
        (len - back) % len
    };
    let index = ((current as u64) + step) % len;
    proof {
        lemma_step_mod(current as int, delta as int, n as int, step as int, index as int);
    }
    Some(index as usize)
}

} // verus!
