use vstd::prelude::*;
use vstd::string::StringExecFns;
use crate::text::{blank, concat2, contains, is_blank, lemma_trim, str_eq, trim, trim_seq};

verus! {

/// Where new worktrees go.
#[derive(Debug, Clone, Copy, PartialEq, Eq, Structural)]
pub enum WorktreeMode {
    Default,
    Template,
    Folder,
}

/// The stored name of a worktree mode.
pub open spec fn mode_raw(mode: WorktreeMode) -> Seq<char> {
    match mode {
        WorktreeMode::Default => "default"@,
        WorktreeMode::Template => "template"@,
        WorktreeMode::Folder => "folder"@,
    }
}

/// The mode that a stored name selects; unknown names select the default.
pub open spec fn mode_of_raw(raw: Seq<char>) -> WorktreeMode {
    if raw == "template"@ {
        WorktreeMode::Template
    } else if raw == "folder"@ {
        WorktreeMode::Folder
    } else {
        WorktreeMode::Default
    }
}

impl WorktreeMode {
    /// The stored name of the mode.
    pub fn raw(self) -> (raw: &'static str)
        ensures
            raw@ == mode_raw(self),
    {
        match self {
            WorktreeMode::Default => "default",
            WorktreeMode::Template => "template",
            WorktreeMode::Folder => "folder",
        }
    }

    /// The mode that a stored name selects.
    pub fn parse(raw: &str) -> (mode: Self)
        ensures
            mode == mode_of_raw(raw@),
    {
        if str_eq(raw, "template") {
            WorktreeMode::Template
        } else if str_eq(raw, "folder") {
            WorktreeMode::Folder
        } else {
            WorktreeMode::Default
        }
    }
}

/// Reading back the stored name of a mode gives the mode.
pub proof fn lemma_mode_raw_round_trip(mode: WorktreeMode)
    ensures
        mode_of_raw(mode_raw(mode)) == mode,
{
    reveal_strlit("default");
    reveal_strlit("template");
    reveal_strlit("folder");
    assert("default"@.len() == 7);
    assert("template"@.len() == 8);
    assert("folder"@.len() == 6);
}

/// The mode that the stored settings select: a template when one is saved, else a folder
/// when one is saved, else the default.
pub open spec fn stored_mode(saved_template: Seq<char>, saved_parent: Seq<char>) -> WorktreeMode {
    if !is_blank(saved_template) {
        WorktreeMode::Template
    } else if !is_blank(saved_parent) {
        WorktreeMode::Folder
    } else {
        WorktreeMode::Default
    }
}

/// The mode shown in settings: the one picked in this session, else a template when one is
/// saved, else a folder when one is saved, else the default.
pub fn worktree_mode(selection: Option<&str>, saved_template: &str, saved_parent: &str) -> (mode:
    WorktreeMode)
    ensures
        mode == match selection {
            Some(raw) => mode_of_raw(raw@),
            None => stored_mode(saved_template@, saved_parent@),
        },
{
    if let Some(raw) = selection {
        return WorktreeMode::parse(raw);
    }
    if !blank(saved_template) {
        return WorktreeMode::Template;
    }
    if !blank(saved_parent) {
        return WorktreeMode::Folder;
    }
    WorktreeMode::Default
}

/// What is wrong with a path template, if anything: it is blank, or lacks `{branch}`.
pub open spec fn template_error_of(template: Seq<char>) -> Option<Seq<char>> {
    if is_blank(template) {
        Some("Path template is required."@)
    } else if !(exists|i: int|
        0 <= i && i + "{branch}"@.len() <= template.len() && #[trigger] template.subrange(
            i,
            i + "{branch}"@.len(),
        ) == "{branch}"@) {
        Some("Path template must include {branch}."@)
    } else {
        None
    }
}

/// What is wrong with a path template, if anything.
pub fn template_error(template: &str) -> (error: Option<&'static str>)
    ensures
        match error {
            Some(message) => template_error_of(template@) == Some(message@),
            None => template_error_of(template@) is None,
        },
{
    if blank(template) {
        return Some("Path template is required.");
    }
    if !contains(template, "{branch}") {
        return Some("Path template must include {branch}.");
    }
    None
}

/// A stored worktree setting.
#[derive(Debug, Clone, Copy, PartialEq, Eq, Structural)]
pub enum WorktreeSetting {
    /// The path template for new worktrees.
    Template,
    /// The parent folder for new worktrees.
    Parent,
}

/// A write of one stored worktree setting.
#[derive(Debug, Clone, PartialEq, Eq)]
pub struct SettingWrite {
    pub setting: WorktreeSetting,
    pub value: String,
}

/// The writes, as (setting, value) pairs, that store a chosen worktree location.
pub open spec fn location_writes(mode: WorktreeMode, value: Seq<char>) -> Seq<(WorktreeSetting, Seq<char>)> {
    match mode {
        WorktreeMode::Default => seq![
            (WorktreeSetting::Template, Seq::empty()),
            (WorktreeSetting::Parent, Seq::empty()),
        ],
        WorktreeMode::Template => if template_error_of(value) is Some {
            Seq::empty()
        } else {
            seq![(WorktreeSetting::Template, trim_seq(value)), (WorktreeSetting::Parent, Seq::empty())]
        },
        WorktreeMode::Folder => if is_blank(value) {
            Seq::empty()
        } else {
            seq![(WorktreeSetting::Parent, trim_seq(value)), (WorktreeSetting::Template, Seq::empty())]
        },
    }
}

/// The stored (template, folder) after applying `writes` in order.
pub open spec fn apply_writes(
    template: Seq<char>,
    parent: Seq<char>,
    writes: Seq<(WorktreeSetting, Seq<char>)>,
) -> (Seq<char>, Seq<char>)
    decreases writes.len(),
{
    if writes.len() == 0 {
        (template, parent)
    } else {
        let before = apply_writes(template, parent, writes.drop_last());
        match writes.last().0 {
            WorktreeSetting::Template => (writes.last().1, before.1),
            WorktreeSetting::Parent => (before.0, writes.last().1),
        }
    }
}

/// The writes that store a chosen worktree location, in order: the default clears both
/// settings; a valid template is stored trimmed and clears the folder; a non-blank folder
/// is stored trimmed and clears the template. An invalid value writes nothing.
pub fn persist_worktree_location(mode: WorktreeMode, value: &str) -> (writes: Vec<SettingWrite>)
    ensures
        writes@.map_values(|w: SettingWrite| (w.setting, w.value@)) == location_writes(mode, value@),
{
    let mut writes: Vec<SettingWrite> = Vec::new();
    match mode {
        WorktreeMode::Default => {
            writes.push(SettingWrite { setting: WorktreeSetting::Template, value: String::new() });
            writes.push(SettingWrite { setting: WorktreeSetting::Parent, value: String::new() });
        },
        WorktreeMode::Template => {
            if template_error(value).is_some() {
                assert(writes@.map_values(|w: SettingWrite| (w.setting, w.value@)) =~= Seq::<
                    (WorktreeSetting, Seq<char>),
                >::empty());
                return writes;
            }
            writes.push(SettingWrite { setting: WorktreeSetting::Template, value: trim(value) });
            writes.push(SettingWrite { setting: WorktreeSetting::Parent, value: String::new() });
        },
        WorktreeMode::Folder => {
            if blank(value) {
                assert(writes@.map_values(|w: SettingWrite| (w.setting, w.value@)) =~= Seq::<
                    (WorktreeSetting, Seq<char>),
                >::empty());
                return writes;
            }
            writes.push(SettingWrite { setting: WorktreeSetting::Parent, value: trim(value) });
            writes.push(SettingWrite { setting: WorktreeSetting::Template, value: String::new() });
        },
    }
    assert(writes@.map_values(|w: SettingWrite| (w.setting, w.value@)) =~= location_writes(
        mode,
        value@,
    ));
    writes
}

/// How settings describe the stored worktree location.
pub open spec fn persisted_description_of(saved_template: Seq<char>, saved_parent: Seq<char>) -> Seq<
    char,
> {
    if !is_blank(saved_template) {
        "Saved template "@ + trim_seq(saved_template)
    } else if !is_blank(saved_parent) {
        "Saved folder "@ + trim_seq(saved_parent)
    } else {
        "App Default"@
    }
}

/// How settings describe the stored worktree location.
pub fn persisted_worktree_description(saved_template: &str, saved_parent: &str) -> (text: String)
    ensures
        text@ == persisted_description_of(saved_template@, saved_parent@),
{
    if !blank(saved_template) {
        let t = trim(saved_template);
        return concat2("Saved template ", t.as_str());
    }
    if !blank(saved_parent) {
        let p = trim(saved_parent);
        return concat2("Saved folder ", p.as_str());
    }
    "App Default".to_owned()
}

/// What is stored is what settings read back: once a location is stored (the value being
/// valid for its mode), whatever was stored before, settings select that mode and describe
/// that location.
pub proof fn lemma_stored_location_reads_back(
    mode: WorktreeMode,
    value: Seq<char>,
    template: Seq<char>,
    parent: Seq<char>,
)
    requires
        location_writes(mode, value).len() > 0,
    ensures
        ({
            let stored = apply_writes(template, parent, location_writes(mode, value));
            &&& stored_mode(stored.0, stored.1) == mode
            &&& persisted_description_of(stored.0, stored.1) == match mode {
                WorktreeMode::Default => "App Default"@,
                WorktreeMode::Template => "Saved template "@ + trim_seq(value),
                WorktreeMode::Folder => "Saved folder "@ + trim_seq(value),
            }
        }),
{
    let w = location_writes(mode, value);
    lemma_trim(value);
    assert(w.drop_last().drop_last() =~= Seq::<(WorktreeSetting, Seq<char>)>::empty());
    assert(apply_writes(template, parent, w.drop_last().drop_last()) == (template, parent));
    let first = apply_writes(template, parent, w.drop_last());
    assert(w.drop_last().last() == w[0]);
    assert(first == match w[0].0 {
        WorktreeSetting::Template => (w[0].1, parent),
        WorktreeSetting::Parent => (template, w[0].1),
    });
    let empty = Seq::<char>::empty();
    assert(is_blank(empty));
    match mode {
        WorktreeMode::Default => {
            assert(apply_writes(template, parent, w) == (empty, empty));
        },
        WorktreeMode::Template => {
            assert(!is_blank(value));
            assert(apply_writes(template, parent, w) == (trim_seq(value), empty));
        },
        WorktreeMode::Folder => {
            assert(apply_writes(template, parent, w) == (empty, trim_seq(value)));
        },
    }
}

/// The problem with what the user typed for the current mode, if any.
pub open spec fn field_problem(mode: WorktreeMode, field_text: Seq<char>) -> Option<Seq<char>> {
    match mode {
        WorktreeMode::Default => None,
        WorktreeMode::Template => template_error_of(field_text),
        WorktreeMode::Folder => if is_blank(field_text) {
            Some("Folder is required."@)
        } else {
            None
        },
    }
}

/// The message shown under the worktree location: the problem with the typed value,
/// followed by which stored location stays in effect.
pub fn worktree_validation_message(
    mode: WorktreeMode,
    field_text: &str,
    saved_template: &str,
    saved_parent: &str,
) -> (message: Option<String>)
    ensures
        match field_problem(mode, field_text@) {
            None => message is None,
            Some(problem) => message matches Some(m) && m@ == problem + " "@
                + persisted_description_of(saved_template@, saved_parent@) + " remains active."@,
        },
{
    let problem: Option<&'static str> = match mode {
        WorktreeMode::Default => None,
        WorktreeMode::Template => template_error(field_text),
        WorktreeMode::Folder => {
            if blank(field_text) {
                Some("Folder is required.")
            } else {
                None
            }
        },
    };
    match problem {
        None => None,
        Some(problem) => {
            let description = persisted_worktree_description(saved_template, saved_parent);
            let mut text = problem.to_owned();
            text.append(" ");
            text.append(description.as_str());
            text.append(" remains active.");
            Some(text)
        },
    }
}

} // verus!
