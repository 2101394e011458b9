use vstd::prelude::*;

verus! {

/// A pane action of the title bar.
#[derive(Debug, Clone, Copy, PartialEq, Eq, Structural)]
pub enum TitlebarAction {
    SplitRight,
    SplitDown,
    NewTab,
}

/// The pane actions of the title bar, in order.
pub const TITLEBAR_ACTIONS: [TitlebarAction; 3] = [
    TitlebarAction::SplitRight,
    TitlebarAction::SplitDown,
    TitlebarAction::NewTab,
];

/// The element id of a title bar action.
pub open spec fn titlebar_action_id(action: TitlebarAction) -> Seq<char> {
    match action {
        TitlebarAction::SplitRight => "split-right"@,
        TitlebarAction::SplitDown => "split-down"@,
        TitlebarAction::NewTab => "new-tab"@,
    }
}

impl TitlebarAction {
    /// The element id of the action.
    pub fn id(self) -> (id: &'static str)
        ensures
            id@ == titlebar_action_id(self),
    {
        match self {
            TitlebarAction::SplitRight => "split-right",
            TitlebarAction::SplitDown => "split-down",
            TitlebarAction::NewTab => "new-tab",
        }
    }
}

/// The ids of the title bar's pane actions, in order: split right, split down, new tab.
pub fn titlebar_action_ids() -> (ids: Vec<&'static str>)
    ensures
        ids@.len() == 3,
        ids@[0]@ == "split-right"@,
        ids@[1]@ == "split-down"@,
        ids@[2]@ == "new-tab"@,
{
    let actions = TITLEBAR_ACTIONS;
    let mut ids: Vec<&'static str> = Vec::new();
    let mut i: usize = 0;
    while i < 3
        invariant
            i <= 3,
            actions@ == seq![
                TitlebarAction::SplitRight,
                TitlebarAction::SplitDown,
                TitlebarAction::NewTab,
            ],
            ids@.len() == i,
            forall|j: int| 0 <= j < i ==> ids@[j]@ == titlebar_action_id(#[trigger] actions@[j]),
        decreases 3 - i,
    {
        ids.push(actions[i].id());
        i = i + 1;
    }
    ids
}

} // verus!
