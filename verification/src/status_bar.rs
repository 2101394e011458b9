use vstd::prelude::*;
use crate::text::{chars_of, concat2, concat3, push_char, string_of};

verus! {

/// The longest path, in characters, that the status bar shows in full.
pub const PATH_MAX_CHARACTERS: usize = 40;

/// What a repository control of the status bar reports on.
#[derive(Debug, Clone, Copy, PartialEq, Eq, Structural)]
pub enum RepositoryControlKind {
    Branch,
    Changes,
    CommitAi,
    CreatePullRequestAi,
    PullRequest,
}

/// How a repository control is colored.
#[derive(Debug, Clone, Copy, PartialEq, Eq, Structural)]
pub enum RepositoryControlTone {
    Default,
    Clean,
    Dirty,
    Danger,
}

/// A repository control as the repository model presents it.
#[derive(Debug, Clone)]
pub struct RepositoryControl {
    pub kind: RepositoryControlKind,
    pub label: String,
    pub tooltip: String,
    pub enabled: bool,
    pub tone: RepositoryControlTone,
}

/// One slot of the left side of the status bar.
#[derive(Debug, Clone, Copy, PartialEq, Eq, Structural)]
pub enum StatusControl {
    Path,
    Separator,
    Branch,
    Changes,
    CommitAi,
    CreatePullRequestAi,
    PullRequest,
}

/// The repository slots, in the order in which the status bar shows them.
pub open spec fn repository_slots() -> Seq<StatusControl> {
    seq![
        StatusControl::Branch,
        StatusControl::Changes,
        StatusControl::CommitAi,
        StatusControl::CreatePullRequestAi,
        StatusControl::PullRequest,
    ]
}

/// The kind of repository control that a repository slot shows.
pub open spec fn slot_kind(slot: StatusControl) -> RepositoryControlKind {
    match slot {
        StatusControl::Changes => RepositoryControlKind::Changes,
        StatusControl::CommitAi => RepositoryControlKind::CommitAi,
        StatusControl::CreatePullRequestAi => RepositoryControlKind::CreatePullRequestAi,
        StatusControl::PullRequest => RepositoryControlKind::PullRequest,
        _ => RepositoryControlKind::Branch,
    }
}

/// A repository slot is shown when some control of its kind exists; a pull request only
/// when its tone says there is something to act on.
pub open spec fn slot_present(slot: StatusControl, controls: Seq<RepositoryControl>) -> bool {
    exists|i: int|
        0 <= i < controls.len() && #[trigger] controls[i].kind == slot_kind(slot) && (slot
            != StatusControl::PullRequest || controls[i].tone != RepositoryControlTone::Default)
}

/// The slots that are shown, before separators are put between them.
pub open spec fn shown_slots(has_path: bool, controls: Seq<RepositoryControl>) -> Seq<
    StatusControl,
> {
    let path = if has_path {
        seq![StatusControl::Path]
    } else {
        Seq::empty()
    };
    path + repository_slots().filter(|slot: StatusControl| slot_present(slot, controls))
}

/// The slots with a separator between each two neighbours.
pub open spec fn with_separators(slots: Seq<StatusControl>) -> Seq<StatusControl> {
    Seq::new(
        if slots.len() == 0 {
            0
        } else {
            (2 * slots.len() - 1) as nat
        },
        |k: int|
            if k % 2 == 0 {
                slots[k / 2]
            } else {
                StatusControl::Separator
            },
    )
}

fn kind_of(slot: StatusControl) -> (kind: RepositoryControlKind)
    ensures
        kind == slot_kind(slot),
{
    match slot {
        StatusControl::Changes => RepositoryControlKind::Changes,
        StatusControl::CommitAi => RepositoryControlKind::CommitAi,
        StatusControl::CreatePullRequestAi => RepositoryControlKind::CreatePullRequestAi,
        StatusControl::PullRequest => RepositoryControlKind::PullRequest,
        _ => RepositoryControlKind::Branch,
    }
}

fn present(slot: StatusControl, controls: &[RepositoryControl]) -> (r: bool)
    ensures
        r == slot_present(slot, controls@),
{
    let kind = kind_of(slot);
    let mut i: usize = 0;
    while i < controls.len()
        invariant
            i <= controls@.len(),
            kind == slot_kind(slot),
            forall|j: int|
                0 <= j < i ==> !(#[trigger] controls@[j].kind == kind && (slot
                    != StatusControl::PullRequest || controls@[j].tone
                    != RepositoryControlTone::Default)),
        decreases controls@.len() - i,
    {
        if controls[i].kind == kind && (slot != StatusControl::PullRequest || controls[i].tone
            != RepositoryControlTone::Default) {
            return true;
        }
        i = i + 1;
    }
    false
}

/// The slots of the left side of the status bar: the path when there is one, then the
/// branch, changes, the two AI actions and an actionable pull request, each when the
/// repository offers it, with a separator between each two.
pub fn status_controls(has_path: bool, repository_controls: &[RepositoryControl]) -> (controls:
    Vec<StatusControl>)
    ensures
        controls@ == with_separators(shown_slots(has_path, repository_controls@)),
{
    let ghost shown = shown_slots(has_path, repository_controls@);
    let slots = [
        StatusControl::Branch,
        StatusControl::Changes,
        StatusControl::CommitAi,
        StatusControl::CreatePullRequestAi,
        StatusControl::PullRequest,
    ];
    let ghost pred = |slot: StatusControl| slot_present(slot, repository_controls@);
    assert(slots@ == repository_slots());
    let mut picked: Vec<StatusControl> = Vec::new();
    if has_path {
        picked.push(StatusControl::Path);
    }
    let ghost base = picked@;
    let mut i: usize = 0;
    while i < 5
        invariant
            i <= 5,
            slots@ == repository_slots(),
            base == (if has_path {
                seq![StatusControl::Path]
            } else {
                Seq::<StatusControl>::empty()
            }),
            pred == (|slot: StatusControl| slot_present(slot, repository_controls@)),
            picked@ == base + slots@.take(i as int).filter(pred),
        decreases 5 - i,
    {
        let slot = slots[i];
        assert(slots@.take(i as int + 1).drop_last() == slots@.take(i as int));
        reveal_with_fuel(Seq::filter, 1);
        if present(slot, repository_controls) {
            picked.push(slot);
        }
        i = i + 1;
        assert(picked@ == base + slots@.take(i as int).filter(pred));
    }
    assert(slots@.take(5) == slots@);
    assert(picked@ == shown);
    let mut controls: Vec<StatusControl> = Vec::new();
    let mut k: usize = 0;
    while k < picked.len()
        invariant
            k <= picked@.len(),
            controls@ == with_separators(picked@.take(k as int)),
        decreases picked@.len() - k,
    {
        if k > 0 {
            controls.push(StatusControl::Separator);
        }
        controls.push(picked[k]);
        k = k + 1;
        assert(controls@ == with_separators(picked@.take(k as int)));
    }
    assert(picked@.take(picked@.len() as int) == picked@);
    controls
}

/// Separators only ever stand between two slots: never first, never last, never two in a
/// row, and every other position holds a shown slot.
pub proof fn lemma_separators_only_between(has_path: bool, repository_controls: Seq<RepositoryControl>)
    ensures
        ({
            let controls = with_separators(shown_slots(has_path, repository_controls));
            &&& controls.len() > 0 ==> controls[0] != StatusControl::Separator && controls.last()
                != StatusControl::Separator
            &&& forall|k: int|
                0 <= k < controls.len() ==> ((#[trigger] controls[k] == StatusControl::Separator)
                    <==> k % 2 == 1)
        }),
{
    let shown = shown_slots(has_path, repository_controls);
    let path = if has_path {
        seq![StatusControl::Path]
    } else {
        Seq::<StatusControl>::empty()
    };
    let rest = repository_slots().filter(|slot: StatusControl| slot_present(slot, repository_controls));
    assert forall|i: int| 0 <= i < rest.len() implies #[trigger] rest[i] != StatusControl::Separator by {
        assert(rest.contains(rest[i]));
        repository_slots().lemma_filter_contains_rev(
            |slot: StatusControl| slot_present(slot, repository_controls),
            rest[i],
        );
        let j = choose|j: int| 0 <= j < repository_slots().len() && repository_slots()[j] == rest[i];
        assert(repository_slots()[j] != StatusControl::Separator);
    }
    assert forall|i: int| 0 <= i < shown.len() implies #[trigger] shown[i] != StatusControl::Separator by {
        if i >= path.len() {
            assert(shown[i] == rest[i - path.len()]);
        }
    }
}

/// The element id of a status slot.
pub open spec fn status_control_id_of(control: StatusControl) -> Seq<char> {
    match control {
        StatusControl::Path => "status-path"@,
        StatusControl::Separator => "status-separator"@,
        StatusControl::Branch => "status-branch"@,
        StatusControl::Changes => "status-changes"@,
        StatusControl::CommitAi => "status-commit-ai"@,
        StatusControl::CreatePullRequestAi => "status-create-pr-ai"@,
        StatusControl::PullRequest => "status-pull-request"@,
    }
}

/// The element id of a status slot.
pub fn status_control_id(control: &StatusControl) -> (id: &'static str)
    ensures
        id@ == status_control_id_of(*control),
{
    match control {
        StatusControl::Path => "status-path",
        StatusControl::Separator => "status-separator",
        StatusControl::Branch => "status-branch",
        StatusControl::Changes => "status-changes",
        StatusControl::CommitAi => "status-commit-ai",
        StatusControl::CreatePullRequestAi => "status-create-pr-ai",
        StatusControl::PullRequest => "status-pull-request",
    }
}

/// The element ids of the slots shown for a repository that offers no controls.
pub fn status_control_ids(has_path: bool) -> (ids: Vec<&'static str>)
    ensures
        ids@.len() == (if has_path {
            1int
        } else {
            0int
        }),
        has_path ==> ids@[0]@ == "status-path"@,
{
    let empty: Vec<RepositoryControl> = Vec::new();
    let controls = status_controls(has_path, empty.as_slice());
    proof {
        let shown = shown_slots(has_path, empty@);
        assert forall|slot: StatusControl| !slot_present(slot, empty@) by {}
        assert(repository_slots().filter(|slot: StatusControl| slot_present(slot, empty@))
            =~= Seq::<StatusControl>::empty()) by {
            lemma_filter_none(repository_slots(), |slot: StatusControl| slot_present(slot, empty@));
        }
        if has_path {
            assert(shown =~= seq![StatusControl::Path]);
            assert(controls@[0] == StatusControl::Path);
        } else {
            assert(shown =~= Seq::<StatusControl>::empty());
        }
    }
    let mut ids: Vec<&'static str> = Vec::new();
    let mut k: usize = 0;
    while k < controls.len()
        invariant
            k <= controls@.len(),
            controls@ == with_separators(shown_slots(has_path, empty@)),
            ids@.len() == k,
            forall|j: int| 0 <= j < k ==> ids@[j]@ == status_control_id_of(#[trigger] controls@[j]),
        decreases controls@.len() - k,
    {
        ids.push(status_control_id(&controls[k]));
        k = k + 1;
    }
    proof {
        if has_path {
            assert(ids@[0]@ == status_control_id_of(controls@[0]));
        }
    }
    ids
}

proof fn lemma_filter_none<A>(s: Seq<A>, pred: spec_fn(A) -> bool)
    requires
        forall|i: int| 0 <= i < s.len() ==> !pred(#[trigger] s[i]),
    ensures
        s.filter(pred) =~= Seq::<A>::empty(),
    decreases s.len(),
{
    reveal_with_fuel(Seq::filter, 1);
    if s.len() > 0 {
        lemma_filter_none(s.drop_last(), pred);
        assert(!pred(s.last()));
    }
}

/// Which halves of an AI chip respond: the action itself runs while it is enabled and no
/// other repository mutation is busy (or this very action is the one running); the
/// provider menu opens when available and nothing runs.
pub fn ai_chip_availability(
    control_enabled: bool,
    running: bool,
    mutation_busy: bool,
    menu_available: bool,
) -> (availability: (bool, bool))
    ensures
        availability.0 == (control_enabled && (!mutation_busy || running)),
        availability.1 == (menu_available && !mutation_busy && !running),
{
    (control_enabled && (!mutation_busy || running), menu_available && !mutation_busy && !running)
}

/// An AI action is running while its chip's label ends with an ellipsis.
pub open spec fn ai_action_running(label: Seq<char>) -> bool {
    label.len() > 0 && label.last() == '\u{2026}'
}

/// Which halves of the chip of an AI control respond, the action counting as running while
/// its label ends with an ellipsis.
pub fn ai_chip_controls(control: &RepositoryControl, mutation_busy: bool, menu_available: bool) -> (availability:
    (bool, bool))
    ensures
        availability.0 == (control.enabled && (!mutation_busy || ai_action_running(
            control.label@,
        ))),
        availability.1 == (menu_available && !mutation_busy && !ai_action_running(control.label@)),
{
    let chars = chars_of(control.label.as_str());
    let running = chars.len() > 0 && chars[chars.len() - 1] == '\u{2026}';
    ai_chip_availability(control.enabled, running, mutation_busy, menu_available)
}

/// What a click on the status path does.
#[derive(Debug, Clone, Copy, PartialEq, Eq, Structural)]
pub enum StatusPathAction {
    Copy,
    Reveal,
}

/// A plain click copies a remote path and reveals a local one.
pub fn primary_path_action(remote: bool) -> (action: StatusPathAction)
    ensures
        action == (if remote {
            StatusPathAction::Copy
        } else {
            StatusPathAction::Reveal
        }),
{
    if remote {
        StatusPathAction::Copy
    } else {
        StatusPathAction::Reveal
    }
}

/// The context menu always offers copying, and revealing only for a local path.
pub fn context_path_actions(remote: bool) -> (actions: Vec<StatusPathAction>)
    ensures
        actions@ == (if remote {
            seq![StatusPathAction::Copy]
        } else {
            seq![StatusPathAction::Copy, StatusPathAction::Reveal]
        }),
{
    let mut actions = vec![StatusPathAction::Copy];
    if !remote {
        actions.push(StatusPathAction::Reveal);
    }
    actions
}

/// The application command that a path action runs.
#[derive(Debug, Clone, PartialEq, Eq)]
pub enum StatusPathCommand {
    CopyStatusPath(String),
    RevealStatusPath(String),
}

/// The command of a path action on the given path.
pub fn path_command(action: StatusPathAction, path: String) -> (command: StatusPathCommand)
    ensures
        command == (match action {
            StatusPathAction::Copy => StatusPathCommand::CopyStatusPath(path),
            StatusPathAction::Reveal => StatusPathCommand::RevealStatusPath(path),
        }),
{
    match action {
        StatusPathAction::Copy => StatusPathCommand::CopyStatusPath(path),
        StatusPathAction::Reveal => StatusPathCommand::RevealStatusPath(path),
    }
}

/// One entry of the path's context menu.
#[derive(Debug, Clone, PartialEq, Eq)]
pub struct PathMenuItem {
    pub label: String,
    pub command: StatusPathCommand,
}

/// The label of a path action in the context menu.
pub open spec fn path_action_label(action: StatusPathAction) -> Seq<char> {
    match action {
        StatusPathAction::Copy => "Copy Path"@,
        StatusPathAction::Reveal => "Reveal"@,
    }
}

/// The context menu of the status path: "Copy Path", and "Reveal" for a local path, each
/// running its command on the path.
pub fn path_menu_items(path: String, remote: bool) -> (items: Vec<PathMenuItem>)
    ensures
        items@.len() == (if remote {
            1int
        } else {
            2int
        }),
        items@[0].label@ == "Copy Path"@,
        items@[0].command == StatusPathCommand::CopyStatusPath(path),
        !remote ==> items@[1].label@ == "Reveal"@ && items@[1].command
            == StatusPathCommand::RevealStatusPath(path),
{
    let actions = context_path_actions(remote);
    let mut items: Vec<PathMenuItem> = Vec::new();
    let mut i: usize = 0;
    while i < actions.len()
        invariant
            i <= actions@.len(),
            actions@ == (if remote {
                seq![StatusPathAction::Copy]
            } else {
                seq![StatusPathAction::Copy, StatusPathAction::Reveal]
            }),
            items@.len() == i,
            forall|j: int|
                0 <= j < i ==> (#[trigger] items@[j]).label@ == path_action_label(actions@[j])
                    && items@[j].command == (match actions@[j] {
                    StatusPathAction::Copy => StatusPathCommand::CopyStatusPath(path),
                    StatusPathAction::Reveal => StatusPathCommand::RevealStatusPath(path),
                }),
        decreases actions@.len() - i,
    {
        let action = actions[i];
        let label = match action {
            StatusPathAction::Copy => "Copy Path".to_owned(),
            StatusPathAction::Reveal => "Reveal".to_owned(),
        };
        items.push(PathMenuItem { label, command: path_command(action, path.clone()) });
        i = i + 1;
    }
    items
}

/// The alert shown when revealing a path fails: a title, and a message naming the path and
/// the error.
pub fn reveal_failure(path: &str, error: &str) -> (alert: (String, String))
    ensures
        alert.0@ == "Could Not Reveal Path"@,
        alert.1@ == "Muxy could not reveal "@ + path@ + ": "@ + error@,
{
    let message = concat3("Muxy could not reveal ", path, ": ");
    let mut full = message;
    full.append(error);
    ("Could Not Reveal Path".to_owned(), full)
}

/// The shown form of a path: the path itself when it is short enough, otherwise an
/// ellipsis followed by its last characters, so that it is exactly at the limit.
pub open spec fn truncated_path(path: Seq<char>) -> Seq<char> {
    if path.len() <= PATH_MAX_CHARACTERS {
        path
    } else {
        seq!['…'] + path.subrange(
            path.len() - (PATH_MAX_CHARACTERS - 1),
            path.len() as int,
        )
    }
}

/// Shortens a long path to its end, behind an ellipsis.
pub fn truncate_path(path: &str) -> (shown: String)
    ensures
        shown@ == truncated_path(path@),
{
    let chars = chars_of(path);
    let count = chars.len();
    if count <= PATH_MAX_CHARACTERS {
        return path.to_owned();
    }
    let mut shown = String::new();
    push_char(&mut shown, '…');
    let start = count - (PATH_MAX_CHARACTERS - 1);
    let mut i: usize = start;
    while i < count
        invariant
            chars@ == path@,
            count == chars@.len(),
            start <= i <= count,
            shown@ == seq!['…'] + chars@.subrange(start as int, i as int),
        decreases count - i,
    {
        push_char(&mut shown, chars[i]);
        i = i + 1;
        assert(shown@ == seq!['…'] + chars@.subrange(start as int, i as int));
    }
    shown
}

/// A truncated path is never longer than the limit, and ends like the path.
pub proof fn lemma_truncated_path_fits(path: Seq<char>)
    ensures
        truncated_path(path).len() <= PATH_MAX_CHARACTERS,
        path.len() > PATH_MAX_CHARACTERS ==> truncated_path(path).len() == PATH_MAX_CHARACTERS
            && truncated_path(path).subrange(1, PATH_MAX_CHARACTERS as int) == path.subrange(
            path.len() - (PATH_MAX_CHARACTERS - 1),
            path.len() as int,
        ),
{
}

/// The path with the home directory written as `~`, when it starts with it.
pub open spec fn abbreviated_path(path: Seq<char>, home: Seq<char>) -> Seq<char> {
    if home.len() > 0 && home.len() <= path.len() && path.subrange(0, home.len() as int) == home {
        seq!['~'] + path.subrange(home.len() as int, path.len() as int)
    } else {
        path
    }
}

/// Writes a leading home directory as `~`.
pub fn abbreviate_path(path: &str, home: &str) -> (shown: String)
    ensures
        shown@ == abbreviated_path(path@, home@),
{
    let p = chars_of(path);
    let h = chars_of(home);
    if h.len() == 0 || h.len() > p.len() {
        return path.to_owned();
    }
    let mut i: usize = 0;
    while i < h.len()
        invariant
            p@ == path@,
            h@ == home@,
            h@.len() <= p@.len(),
            i <= h@.len(),
            forall|j: int| 0 <= j < i ==> p@[j] == h@[j],
        decreases h@.len() - i,
    {
        if p[i] != h[i] {
            assert(p@.subrange(0, h@.len() as int)[i as int] != h@[i as int]);
            return path.to_owned();
        }
        i = i + 1;
    }
    assert(p@.subrange(0, h@.len() as int) == h@);
    let mut shown = String::new();
    push_char(&mut shown, '~');
    let mut k: usize = h.len();
    while k < p.len()
        invariant
            p@ == path@,
            h@ == home@,
            h@.len() <= k <= p@.len(),
            shown@ == seq!['~'] + p@.subrange(h@.len() as int, k as int),
        decreases p@.len() - k,
    {
        push_char(&mut shown, p[k]);
        k = k + 1;
        assert(shown@ == seq!['~'] + p@.subrange(h@.len() as int, k as int));
    }
    shown
}

} // verus!
