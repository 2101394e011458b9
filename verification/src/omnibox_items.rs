use vstd::prelude::*;
use vstd::string::StringExecFns;
use crate::omnibox::{ActionView, Item, ItemAction, ItemView, Scope, lemma_map_push, lemma_views_push, views};
use crate::text::{concat2, eq_ascii_case, eq_ignore_ascii_case, push_char};

verus! {

/// A project of the sidebar.
#[derive(Debug, Clone)]
pub struct Project {
    pub id: String,
    pub name: String,
    pub path: String,
    pub icon: Option<String>,
    /// The built-in home project.
    pub is_home: bool,
    /// Unread notifications of the project.
    pub unread_count: u64,
}

/// A worktree of a project.
#[derive(Debug, Clone)]
pub struct Worktree {
    pub id: String,
    pub name: String,
    pub path: String,
    pub branch: Option<String>,
    pub is_primary: bool,
    /// Unread notifications of the worktree.
    pub unread_count: u64,
}

/// The worktrees known for one project.
#[derive(Debug, Clone)]
pub struct ProjectWorktrees {
    pub project_id: String,
    pub worktrees: Vec<Worktree>,
}

/// A named group of projects.
#[derive(Debug, Clone)]
pub struct WorkspaceGroup {
    pub id: String,
    pub name: String,
    pub project_ids: Vec<String>,
}

/// A tab of a pane area.
#[derive(Debug, Clone)]
pub struct Tab {
    pub id: String,
    pub title: String,
    /// The root tab that this tab belongs to.
    pub root_id: String,
    pub project_path: Option<String>,
}

/// A pane area with its tabs.
#[derive(Debug, Clone)]
pub struct Area {
    pub id: String,
    pub tabs: Vec<Tab>,
}

/// The tabs of one project, or of one of its worktrees.
#[derive(Debug, Clone)]
pub struct TabWorkspace {
    pub project_id: String,
    pub worktree_id: Option<String>,
    pub worktree_path: Option<String>,
    /// The pane areas in layout order; `None` when the workspace has no layout.
    pub areas: Option<Vec<Area>>,
}

/// A user-defined command shortcut.
#[derive(Debug, Clone)]
pub struct CommandShortcut {
    pub id: String,
    pub display_name: String,
    /// The command without surrounding white space.
    pub trimmed_command: String,
}

/// Unread notifications of one root tab.
#[derive(Debug, Clone)]
pub struct TabUnread {
    pub project_id: String,
    pub worktree_id: String,
    pub root_id: String,
    pub count: u64,
}

/// What the omnibox reads of the application state.
#[derive(Debug, Clone)]
pub struct AppState {
    pub projects: Vec<Project>,
    /// Index of the active project in `projects`.
    pub active_project: Option<usize>,
    pub worktrees: Vec<ProjectWorktrees>,
    /// The active worktree of each project, by project id.
    pub active_worktree_ids: Vec<(String, String)>,
    pub tab_workspaces: Vec<TabWorkspace>,
    pub groups: Vec<WorkspaceGroup>,
    pub command_shortcuts: Vec<CommandShortcut>,
    /// Projects removed lately, most recent first.
    pub recently_removed: Vec<Project>,
    pub tab_unread: Vec<TabUnread>,
}

/// The working directory that each live terminal reports, by tab id.
#[derive(Debug, Clone)]
pub struct TerminalSurfaces {
    pub working_directories: Vec<(String, Option<String>)>,
}

impl AppState {
    /// The active project index, when set, points at a project.
    pub open spec fn wf(&self) -> bool {
        self.active_project matches Some(i) ==> i < self.projects@.len()
    }
}

/// `s` or the empty text.
pub open spec fn or_empty(s: Option<Seq<char>>) -> Seq<char> {
    match s {
        Some(t) => t,
        None => Seq::empty(),
    }
}

/// The view of an optional string.
pub open spec fn opt_view(s: Option<String>) -> Option<Seq<char>> {
    match s {
        Some(t) => Some(t@),
        None => None,
    }
}

// Projects

/// The row of a project.
pub open spec fn project_row(p: Project) -> ItemView {
    ItemView {
        id: "project-"@ + p.id@,
        symbol: "folder"@,
        section: "Projects"@,
        title: p.name@,
        subtitle: Some(p.path@),
        search_key: p.name@ + " "@ + p.path@,
        action: ActionView::SelectProject(p.id@),
        unread: p.unread_count > 0,
    }
}

fn join2(a: &str, b: &str) -> (s: String)
    ensures
        s@ == a@ + " "@ + b@,
{
    let mut s = a.to_owned();
    s.append(" ");
    s.append(b);
    s
}

/// One row per project, in sidebar order.
pub fn project_items(state: &AppState) -> (rows: Vec<Item>)
    ensures
        views(rows@) == state.projects@.map_values(|p: Project| project_row(p)),
{
    let mut rows: Vec<Item> = Vec::new();
    let mut i: usize = 0;
    while i < state.projects.len()
        invariant
            i <= state.projects@.len(),
            views(rows@) == state.projects@.take(i as int).map_values(|p: Project| project_row(p)),
        decreases state.projects@.len() - i,
    {
        let p = &state.projects[i];
        let row = Item {
            id: concat2("project-", p.id.as_str()),
            symbol: "folder".to_owned(),
            section: "Projects".to_owned(),
            title: p.name.clone(),
            subtitle: Some(p.path.clone()),
            search_key: join2(p.name.as_str(), p.path.as_str()),
            action: ItemAction::SelectProject(p.id.clone()),
            unread: p.unread_count > 0,
        };
        let ghost old_rows = rows@;
        rows.push(row);
        proof {
            lemma_views_push(old_rows, row);
            assert(state.projects@.take(i as int + 1) == state.projects@.take(i as int).push(
                state.projects@[i as int],
            ));
            lemma_map_push(state.projects@.take(i as int), state.projects@[i as int], |p: Project| project_row(p));
        }
        i = i + 1;
        assert(views(rows@) =~= state.projects@.take(i as int).map_values(
            |p: Project| project_row(p),
        ));
    }
    assert(state.projects@.take(state.projects@.len() as int) == state.projects@);
    rows
}

/// The row of a recently removed project.
pub open spec fn removed_row(p: Project) -> ItemView {
    ItemView {
        id: "recent-project-"@ + p.id@,
        symbol: match p.icon {
            Some(icon) => icon@,
            None => "folder"@,
        },
        section: "Recently Removed"@,
        title: p.name@,
        subtitle: Some(p.path@),
        search_key: p.name@ + " "@ + p.path@,
        action: ActionView::RestoreProject(p.id@),
        unread: false,
    }
}

/// One row per recently removed project, offering to restore it.
pub fn recently_removed_items(state: &AppState) -> (rows: Vec<Item>)
    ensures
        views(rows@) == state.recently_removed@.map_values(|p: Project| removed_row(p)),
{
    let mut rows: Vec<Item> = Vec::new();
    let mut i: usize = 0;
    while i < state.recently_removed.len()
        invariant
            i <= state.recently_removed@.len(),
            views(rows@) == state.recently_removed@.take(i as int).map_values(
                |p: Project| removed_row(p),
            ),
        decreases state.recently_removed@.len() - i,
    {
        let p = &state.recently_removed[i];
        let symbol = match &p.icon {
            Some(icon) => icon.clone(),
            None => "folder".to_owned(),
        };
        let row = Item {
            id: concat2("recent-project-", p.id.as_str()),
            symbol,
            section: "Recently Removed".to_owned(),
            title: p.name.clone(),
            subtitle: Some(p.path.clone()),
            search_key: join2(p.name.as_str(), p.path.as_str()),
            action: ItemAction::RestoreProject(p.id.clone()),
            unread: false,
        };
        let ghost old_rows = rows@;
        rows.push(row);
        proof {
            lemma_views_push(old_rows, row);
            assert(state.recently_removed@.take(i as int + 1) == state.recently_removed@.take(
                i as int,
            ).push(state.recently_removed@[i as int]));
            lemma_map_push(state.recently_removed@.take(i as int), state.recently_removed@[i as int], |p: Project| removed_row(p));
        }
        i = i + 1;
        assert(views(rows@) =~= state.recently_removed@.take(i as int).map_values(
            |p: Project| removed_row(p),
        ));
    }
    assert(state.recently_removed@.take(state.recently_removed@.len() as int)
        == state.recently_removed@);
    rows
}

// Worktrees

/// Index of the first entry of `worktrees` for the project `project_id`, from `from` on.
pub open spec fn worktrees_entry(worktrees: Seq<ProjectWorktrees>, project_id: Seq<char>, from: int) -> Option<
    int,
>
    decreases worktrees.len() - from,
{
    if from < 0 || from >= worktrees.len() {
        None
    } else if worktrees[from].project_id@ == project_id {
        Some(from)
    } else {
        worktrees_entry(worktrees, project_id, from + 1)
    }
}

fn find_worktrees(state: &AppState, project_id: &String) -> (r: Option<usize>)
    ensures
        match r {
            Some(k) => worktrees_entry(state.worktrees@, project_id@, 0) == Some(k as int),
            None => worktrees_entry(state.worktrees@, project_id@, 0) is None,
        },
{
    let mut i: usize = 0;
    while i < state.worktrees.len()
        invariant
            i <= state.worktrees@.len(),
            worktrees_entry(state.worktrees@, project_id@, 0) == worktrees_entry(
                state.worktrees@,
                project_id@,
                i as int,
            ),
        decreases state.worktrees@.len() - i,
    {
        if state.worktrees[i].project_id == *project_id {
            return Some(i);
        }
        i = i + 1;
    }
    None
}

/// The row of a worktree of the active project.
pub open spec fn worktree_row(project_id: Seq<char>, w: Worktree) -> ItemView {
    ItemView {
        id: "worktree-"@ + w.id@,
        symbol: if w.is_primary {
            "folder.badge.gearshape"@
        } else {
            "arrow.triangle.branch"@
        },
        section: "Worktrees"@,
        title: w.name@,
        subtitle: Some(
            match w.branch {
                Some(branch) => "("@ + branch@ + ") "@ + w.path@,
                None => w.path@,
            },
        ),
        search_key: w.name@ + " "@ + w.path@ + " "@ + or_empty(opt_view(w.branch)),
        action: ActionView::SelectWorktree { project_id, worktree_id: w.id@ },
        unread: w.unread_count > 0,
    }
}

/// The worktree rows: none without an active project or without known worktrees for it.
pub open spec fn worktree_rows(state: AppState) -> Seq<ItemView> {
    match state.active_project {
        None => Seq::empty(),
        Some(a) => {
            let project = state.projects@[a as int];
            match worktrees_entry(state.worktrees@, project.id@, 0) {
                None => Seq::empty(),
                Some(k) => state.worktrees@[k].worktrees@.map_values(
                    |w: Worktree| worktree_row(project.id@, w),
                ),
            }
        },
    }
}

/// One row per worktree of the active project.
pub fn worktree_items(state: &AppState) -> (rows: Vec<Item>)
    requires
        state.wf(),
    ensures
        views(rows@) == worktree_rows(*state),
{
    let mut rows: Vec<Item> = Vec::new();
    let a = match state.active_project {
        None => {
            assert(views(rows@) =~= Seq::<ItemView>::empty());
            return rows;
        },
        Some(a) => a,
    };
    let project = &state.projects[a];
    let k = match find_worktrees(state, &project.id) {
        None => {
            assert(views(rows@) =~= Seq::<ItemView>::empty());
            return rows;
        },
        Some(k) => k,
    };
    proof {
        lemma_worktrees_entry_in_range(state.worktrees@, project.id@, 0);
    }
    let list = &state.worktrees[k].worktrees;
    let ghost pid = project.id@;
    let mut i: usize = 0;
    while i < list.len()
        invariant
            i <= list@.len(),
            views(rows@) == list@.take(i as int).map_values(|w: Worktree| worktree_row(pid, w)),
            pid == project.id@,
        decreases list@.len() - i,
    {
        let w = &list[i];
        let symbol = if w.is_primary {
            "folder.badge.gearshape".to_owned()
        } else {
            "arrow.triangle.branch".to_owned()
        };
        let subtitle = match &w.branch {
            Some(branch) => {
                let mut s = "(".to_owned();
                s.append(branch.as_str());
                s.append(") ");
                s.append(w.path.as_str());
                s
            },
            None => w.path.clone(),
        };
        let mut search_key = join2(w.name.as_str(), w.path.as_str());
        search_key.append(" ");
        match &w.branch {
            Some(branch) => search_key.append(branch.as_str()),
            None => {
                search_key.append("");
                proof {
                    reveal_strlit("");
                }
            },
        }
        let row = Item {
            id: concat2("worktree-", w.id.as_str()),
            symbol,
            section: "Worktrees".to_owned(),
            title: w.name.clone(),
            subtitle: Some(subtitle),
            search_key,
            action: ItemAction::SelectWorktree {
                project_id: project.id.clone(),
                worktree_id: w.id.clone(),
            },
            unread: w.unread_count > 0,
        };
        let ghost old_rows = rows@;
        rows.push(row);
        proof {
            lemma_views_push(old_rows, row);
            assert(list@.take(i as int + 1) == list@.take(i as int).push(list@[i as int]));
            lemma_map_push(list@.take(i as int), list@[i as int], |w: Worktree| worktree_row(pid, w));
        }
        i = i + 1;
        assert(views(rows@) =~= list@.take(i as int).map_values(|w: Worktree| worktree_row(pid, w)));
    }
    assert(list@.take(list@.len() as int) == list@);
    rows
}

proof fn lemma_worktrees_entry_in_range(worktrees: Seq<ProjectWorktrees>, project_id: Seq<char>, from: int)
    requires
        0 <= from,
    ensures
        worktrees_entry(worktrees, project_id, from) matches Some(k) ==> from <= k < worktrees.len()
            && worktrees[k].project_id@ == project_id,
    decreases worktrees.len() - from,
{
    if from < worktrees.len() && worktrees[from].project_id@ != project_id {
        lemma_worktrees_entry_in_range(worktrees, project_id, from + 1);
    }
}

// Command shortcuts

/// The row of a command shortcut.
pub open spec fn shortcut_row(s: CommandShortcut) -> ItemView {
    ItemView {
        id: "shortcut-"@ + s.id@,
        symbol: "command"@,
        section: "Custom Commands"@,
        title: s.display_name@,
        subtitle: Some(s.trimmed_command@),
        search_key: s.display_name@ + " "@ + s.trimmed_command@,
        action: ActionView::RunCommand(s.id@),
        unread: false,
    }
}

/// The shortcut rows: none without an active project; otherwise one per shortcut with a
/// command.
pub open spec fn shortcut_rows(state: AppState) -> Seq<ItemView> {
    if state.active_project is None {
        Seq::empty()
    } else {
        state.command_shortcuts@.filter(|s: CommandShortcut| s.trimmed_command@.len() > 0).map_values(
            |s: CommandShortcut| shortcut_row(s),
        )
    }
}

/// One row per custom command shortcut that has a command, when a project is active.
pub fn command_items(state: &AppState) -> (rows: Vec<Item>)
    ensures
        views(rows@) == shortcut_rows(*state),
{
    let mut rows: Vec<Item> = Vec::new();
    if state.active_project.is_none() {
        assert(views(rows@) =~= Seq::<ItemView>::empty());
        return rows;
    }
    let ghost pred = |s: CommandShortcut| s.trimmed_command@.len() > 0;
    let list = &state.command_shortcuts;
    let mut i: usize = 0;
    while i < list.len()
        invariant
            i <= list@.len(),
            list == &state.command_shortcuts,
            pred == (|s: CommandShortcut| s.trimmed_command@.len() > 0),
            views(rows@) == list@.take(i as int).filter(pred).map_values(
                |s: CommandShortcut| shortcut_row(s),
            ),
        decreases list@.len() - i,
    {
        let s = &list[i];
        proof {
            assert(list@.take(i as int + 1) == list@.take(i as int).push(list@[i as int]));
            list@.take(i as int).lemma_filter_push(list@[i as int], pred);
        }
        if !s.trimmed_command.as_str().is_empty() {
            let row = Item {
                id: concat2("shortcut-", s.id.as_str()),
                symbol: "command".to_owned(),
                section: "Custom Commands".to_owned(),
                title: s.display_name.clone(),
                subtitle: Some(s.trimmed_command.clone()),
                search_key: join2(s.display_name.as_str(), s.trimmed_command.as_str()),
                action: ItemAction::RunCommand(s.id.clone()),
                unread: false,
            };
            let ghost old_rows = rows@;
            rows.push(row);
            proof {
                lemma_views_push(old_rows, row);
                lemma_map_push(list@.take(i as int).filter(pred), list@[i as int], |s: CommandShortcut| shortcut_row(s));
            }
        }
        i = i + 1;
        assert(views(rows@) =~= list@.take(i as int).filter(pred).map_values(
            |s: CommandShortcut| shortcut_row(s),
        ));
    }
    assert(list@.take(list@.len() as int) == list@);
    rows
}

// Workspaces

/// The decimal digits of `n`.
pub open spec fn decimal(n: nat) -> Seq<char>
    decreases n,
{
    if n < 10 {
        seq![digit_char(n)]
    } else {
        decimal(n / 10).push(digit_char(n % 10))
    }
}

/// The character of a decimal digit.
pub open spec fn digit_char(d: nat) -> char {
    (48 + d) as char
}

/// `n` written in decimal.
pub fn decimal_string(n: usize) -> (s: String)
    ensures
        s@ == decimal(n as nat),
    decreases n,
{
    if n < 10 {
        let mut s = String::new();
        push_char(&mut s, ((48 + n) as u8) as char);
        s
    } else {
        let mut s = decimal_string(n / 10);
        push_char(&mut s, ((48 + n % 10) as u8) as char);
        s
    }
}

/// Some member id of the group names the project, up to ASCII case.
pub open spec fn group_has_project(g: WorkspaceGroup, p: Project) -> bool {
    exists|i: int| 0 <= i < g.project_ids@.len() && eq_ascii_case(#[trigger] g.project_ids@[i]@, p.id@)
}

/// How many stored projects (all but the home project) the group holds.
pub open spec fn group_project_count(state: AppState, g: WorkspaceGroup) -> nat {
    state.projects@.filter(|p: Project| !p.is_home && group_has_project(g, p)).len()
}

/// The row of a workspace group.
pub open spec fn group_row(state: AppState, g: WorkspaceGroup) -> ItemView {
    let count = group_project_count(state, g);
    ItemView {
        id: "workspace-"@ + g.id@,
        symbol: "square.stack.3d.up"@,
        section: "Workspaces"@,
        title: g.name@,
        subtitle: Some(
            if count == 1 {
                "1 project"@
            } else {
                decimal(count) + " projects"@
            },
        ),
        search_key: g.name@,
        action: ActionView::SelectGroup(Some(g.id@)),
        unread: false,
    }
}

/// The row that selects all projects.
pub open spec fn all_projects_row() -> ItemView {
    ItemView {
        id: "workspace-all"@,
        symbol: "square.grid.2x2"@,
        section: "Workspaces"@,
        title: "All Projects"@,
        subtitle: Some("All projects"@),
        search_key: "All Projects"@,
        action: ActionView::SelectGroup(None),
        unread: false,
    }
}

fn group_has(g: &WorkspaceGroup, p: &Project) -> (r: bool)
    ensures
        r == group_has_project(*g, *p),
{
    let mut i: usize = 0;
    while i < g.project_ids.len()
        invariant
            i <= g.project_ids@.len(),
            forall|j: int| 0 <= j < i ==> !eq_ascii_case(#[trigger] g.project_ids@[j]@, p.id@),
        decreases g.project_ids@.len() - i,
    {
        if eq_ignore_ascii_case(g.project_ids[i].as_str(), p.id.as_str()) {
            return true;
        }
        i = i + 1;
    }
    false
}

fn group_count(state: &AppState, g: &WorkspaceGroup) -> (count: usize)
    ensures
        count == group_project_count(*state, *g),
{
    let ghost pred = |p: Project| !p.is_home && group_has_project(*g, p);
    let mut count: usize = 0;
    let mut i: usize = 0;
    while i < state.projects.len()
        invariant
            i <= state.projects@.len(),
            pred == (|p: Project| !p.is_home && group_has_project(*g, p)),
            count == state.projects@.take(i as int).filter(pred).len(),
            count <= i,
        decreases state.projects@.len() - i,
    {
        proof {
            assert(state.projects@.take(i as int + 1) == state.projects@.take(i as int).push(
                state.projects@[i as int],
            ));
            state.projects@.take(i as int).lemma_filter_push(state.projects@[i as int], pred);
        }
        if !state.projects[i].is_home && group_has(g, &state.projects[i]) {
            count = count + 1;
        }
        i = i + 1;
    }
    assert(state.projects@.take(state.projects@.len() as int) == state.projects@);
    count
}

/// A row for all projects, then one per group with how many stored projects it holds.
pub fn workspace_items(state: &AppState) -> (rows: Vec<Item>)
    ensures
        views(rows@) == seq![all_projects_row()] + state.groups@.map_values(
            |g: WorkspaceGroup| group_row(*state, g),
        ),
{
    let mut rows: Vec<Item> = Vec::new();
    rows.push(
        Item {
            id: "workspace-all".to_owned(),
            symbol: "square.grid.2x2".to_owned(),
            section: "Workspaces".to_owned(),
            title: "All Projects".to_owned(),
            subtitle: Some("All projects".to_owned()),
            search_key: "All Projects".to_owned(),
            action: ItemAction::SelectGroup(None),
            unread: false,
        },
    );
    let mut i: usize = 0;
    while i < state.groups.len()
        invariant
            i <= state.groups@.len(),
            views(rows@) == seq![all_projects_row()] + state.groups@.take(i as int).map_values(
                |g: WorkspaceGroup| group_row(*state, g),
            ),
        decreases state.groups@.len() - i,
    {
        let g = &state.groups[i];
        let count = group_count(state, g);
        let subtitle = if count == 1 {
            "1 project".to_owned()
        } else {
            let mut s = decimal_string(count);
            s.append(" projects");
            s
        };
        let row = Item {
            id: concat2("workspace-", g.id.as_str()),
            symbol: "square.stack.3d.up".to_owned(),
            section: "Workspaces".to_owned(),
            title: g.name.clone(),
            subtitle: Some(subtitle),
            search_key: g.name.clone(),
            action: ItemAction::SelectGroup(Some(g.id.clone())),
            unread: false,
        };
        let ghost old_rows = rows@;
        rows.push(row);
        proof {
            lemma_views_push(old_rows, row);
            assert(state.groups@.take(i as int + 1) == state.groups@.take(i as int).push(
                state.groups@[i as int],
            ));
            lemma_map_push(state.groups@.take(i as int), state.groups@[i as int], |g: WorkspaceGroup| group_row(*state, g));
        }
        i = i + 1;
        assert(views(rows@) =~= seq![all_projects_row()] + state.groups@.take(i as int).map_values(
            |g: WorkspaceGroup| group_row(*state, g),
        ));
    }
    assert(state.groups@.take(state.groups@.len() as int) == state.groups@);
    rows
}


// Open tabs

/// Index of the first worktree in `list`, from `from` on, whose id equals `id` up to ASCII
/// case.
pub open spec fn worktree_index(list: Seq<Worktree>, id: Seq<char>, from: int) -> Option<int>
    decreases list.len() - from,
{
    if from < 0 || from >= list.len() {
        None
    } else if eq_ascii_case(list[from].id@, id) {
        Some(from)
    } else {
        worktree_index(list, id, from + 1)
    }
}

/// The worktree that a tab workspace of project `p` belongs to, if it is known.
pub open spec fn workspace_worktree(state: AppState, p: int, w: int) -> Option<Worktree> {
    let project = state.projects@[p];
    match state.tab_workspaces@[w].worktree_id {
        None => None,
        Some(wid) => match worktrees_entry(state.worktrees@, project.id@, 0) {
            None => None,
            Some(k) => match worktree_index(state.worktrees@[k].worktrees@, wid@, 0) {
                None => None,
                Some(j) => Some(state.worktrees@[k].worktrees@[j]),
            },
        },
    }
}

/// The worktree context shown next to the project: its branch, else its name, unless empty.
pub open spec fn workspace_context(state: AppState, p: int, w: int) -> Option<Seq<char>> {
    match workspace_worktree(state, p, w) {
        None => None,
        Some(wt) => {
            let c = match wt.branch {
                Some(b) => b@,
                None => wt.name@,
            };
            if c.len() > 0 {
                Some(c)
            } else {
                None
            }
        },
    }
}

/// The section of the open tabs of a tab workspace.
pub open spec fn workspace_section(state: AppState, p: int, w: int) -> Seq<char> {
    let name = state.projects@[p].name@;
    match workspace_context(state, p, w) {
        Some(c) => "Open Tabs — "@ + name + " ("@ + c + ")"@,
        None => "Open Tabs — "@ + name,
    }
}

/// The worktree path that selecting a tab of the workspace switches to.
pub open spec fn workspace_path(state: AppState, p: int, w: int) -> Seq<char> {
    match state.tab_workspaces@[w].worktree_path {
        Some(path) => path@,
        None => state.projects@[p].path@,
    }
}

/// Index of the first entry of `entries`, from `from` on, with the given key.
pub open spec fn key_index<V>(entries: Seq<(String, V)>, key: Seq<char>, from: int) -> Option<int>
    decreases entries.len() - from,
{
    if from < 0 || from >= entries.len() {
        None
    } else if entries[from].0@ == key {
        Some(from)
    } else {
        key_index(entries, key, from + 1)
    }
}

/// The active worktree of the active project, as the preferences record it.
pub open spec fn active_worktree(state: AppState) -> Option<Seq<char>> {
    match state.active_project {
        None => None,
        Some(a) => match key_index(state.active_worktree_ids@, state.projects@[a as int].id@, 0) {
            None => None,
            Some(k) => Some(state.active_worktree_ids@[k].1@),
        },
    }
}

/// The tab workspace belongs to the active project and to its active worktree.
pub open spec fn workspace_is_active(state: AppState, p: int, w: int) -> bool {
    &&& state.active_project matches Some(a) && eq_ascii_case(
        state.projects@[a as int].id@,
        state.projects@[p].id@,
    )
    &&& opt_view(state.tab_workspaces@[w].worktree_id) == active_worktree(state)
}

/// The working directory of a tab: the one its terminal reports, else its project path.
pub open spec fn tab_directory(terminals: TerminalSurfaces, tab: Tab) -> Option<Seq<char>> {
    match key_index(terminals.working_directories@, tab.id@, 0) {
        Some(k) => match terminals.working_directories@[k].1 {
            Some(wd) => Some(wd@),
            None => opt_view(tab.project_path),
        },
        None => opt_view(tab.project_path),
    }
}

/// Index of the first unread entry, from `from` on, for the tab.
pub open spec fn tab_unread_index(
    entries: Seq<TabUnread>,
    project_id: Seq<char>,
    worktree_id: Seq<char>,
    root_id: Seq<char>,
    from: int,
) -> Option<int>
    decreases entries.len() - from,
{
    if from < 0 || from >= entries.len() {
        None
    } else if entries[from].project_id@ == project_id && entries[from].worktree_id@ == worktree_id
        && entries[from].root_id@ == root_id {
        Some(from)
    } else {
        tab_unread_index(entries, project_id, worktree_id, root_id, from + 1)
    }
}

/// A tab of a worktree workspace has unread notifications.
pub open spec fn tab_is_unread(state: AppState, p: int, w: int, tab: Tab) -> bool {
    match state.tab_workspaces@[w].worktree_id {
        None => false,
        Some(wid) => match tab_unread_index(
            state.tab_unread@,
            state.projects@[p].id@,
            wid@,
            tab.root_id@,
            0,
        ) {
            None => false,
            Some(k) => state.tab_unread@[k].count > 0,
        },
    }
}

/// The row of one tab of a tab workspace.
pub open spec fn tab_row(
    state: AppState,
    terminals: TerminalSurfaces,
    p: int,
    w: int,
    area: Area,
    tab: Tab,
) -> ItemView {
    let project = state.projects@[p];
    let wt = workspace_worktree(state, p, w);
    let directory = tab_directory(terminals, tab);
    ItemView {
        id: "open-"@ + area.id@ + "-"@ + tab.id@,
        symbol: "terminal"@,
        section: workspace_section(state, p, w),
        title: tab.title@,
        subtitle: directory,
        search_key: tab.title@ + " "@ + or_empty(directory) + " "@ + project.name@ + " "@
            + or_empty(
            match wt {
                Some(x) => Some(x.name@),
                None => None,
            },
        ) + " "@ + or_empty(
            match wt {
                Some(x) => opt_view(x.branch),
                None => None,
            },
        ),
        action: ActionView::SelectTab {
            project_id: project.id@,
            worktree_path: workspace_path(state, p, w),
            tab_id: tab.id@,
        },
        unread: tab_is_unread(state, p, w, tab),
    }
}

/// The rows of the first `n` areas of a tab workspace.
pub open spec fn areas_rows(
    state: AppState,
    terminals: TerminalSurfaces,
    p: int,
    w: int,
    areas: Seq<Area>,
    n: int,
) -> Seq<ItemView>
    decreases n,
{
    if n <= 0 {
        Seq::empty()
    } else {
        areas_rows(state, terminals, p, w, areas, n - 1) + areas[n - 1].tabs@.map_values(
            |tab: Tab| tab_row(state, terminals, p, w, areas[n - 1], tab),
        )
    }
}

/// The rows of a tab workspace when it belongs to project `p` (ids equal up to ASCII case)
/// and has a layout: one per tab of each area.
pub open spec fn workspace_rows(state: AppState, terminals: TerminalSurfaces, p: int, w: int) -> Seq<
    ItemView,
> {
    let ws = state.tab_workspaces@[w];
    if eq_ascii_case(ws.project_id@, state.projects@[p].id@) {
        match ws.areas {
            Some(areas) => areas_rows(state, terminals, p, w, areas@, areas@.len() as int),
            None => Seq::empty(),
        }
    } else {
        Seq::empty()
    }
}

/// The rows of the first `n` tab workspaces of project `p` that are (or are not) active.
pub open spec fn project_rows(
    state: AppState,
    terminals: TerminalSurfaces,
    active: bool,
    p: int,
    n: int,
) -> Seq<ItemView>
    decreases n,
{
    if n <= 0 {
        Seq::empty()
    } else {
        project_rows(state, terminals, active, p, n - 1) + if workspace_is_active(state, p, n - 1)
            == active {
            workspace_rows(state, terminals, p, n - 1)
        } else {
            Seq::empty()
        }
    }
}

/// The rows of the tab workspaces of the first `n` projects that are (or are not) active.
pub open spec fn projects_rows(state: AppState, terminals: TerminalSurfaces, active: bool, n: int) -> Seq<
    ItemView,
>
    decreases n,
{
    if n <= 0 {
        Seq::empty()
    } else {
        projects_rows(state, terminals, active, n - 1) + project_rows(
            state,
            terminals,
            active,
            n - 1,
            state.tab_workspaces@.len() as int,
        )
    }
}

/// The open tab rows: for each project and each of its tab workspaces, one row per tab;
/// the rows of the active project's active worktree first, each group in that order.
pub open spec fn open_tab_rows(state: AppState, terminals: TerminalSurfaces) -> Seq<ItemView> {
    let n = state.projects@.len() as int;
    projects_rows(state, terminals, true, n) + projects_rows(state, terminals, false, n)
}

fn find_key<V>(entries: &Vec<(String, V)>, key: &String) -> (r: Option<usize>)
    ensures
        match r {
            Some(k) => key_index(entries@, key@, 0) == Some(k as int) && k < entries@.len()
                && entries@[k as int].0@ == key@,
            None => key_index(entries@, key@, 0) is None,
        },
{
    let mut i: usize = 0;
    while i < entries.len()
        invariant
            i <= entries@.len(),
            key_index(entries@, key@, 0) == key_index(entries@, key@, i as int),
        decreases entries@.len() - i,
    {
        if entries[i].0 == *key {
            return Some(i);
        }
        i = i + 1;
    }
    None
}

fn find_worktree_ci(list: &Vec<Worktree>, id: &String) -> (r: Option<usize>)
    ensures
        match r {
            Some(j) => worktree_index(list@, id@, 0) == Some(j as int) && j < list@.len(),
            None => worktree_index(list@, id@, 0) is None,
        },
{
    let mut i: usize = 0;
    while i < list.len()
        invariant
            i <= list@.len(),
            worktree_index(list@, id@, 0) == worktree_index(list@, id@, i as int),
        decreases list@.len() - i,
    {
        if eq_ignore_ascii_case(list[i].id.as_str(), id.as_str()) {
            return Some(i);
        }
        i = i + 1;
    }
    None
}

fn find_tab_unread(state: &AppState, project_id: &String, worktree_id: &String, root_id: &String) -> (r:
    bool)
    ensures
        r == match tab_unread_index(state.tab_unread@, project_id@, worktree_id@, root_id@, 0) {
            None => false,
            Some(k) => state.tab_unread@[k].count > 0,
        },
{
    let entries = &state.tab_unread;
    let mut i: usize = 0;
    while i < entries.len()
        invariant
            i <= entries@.len(),
            entries == &state.tab_unread,
            tab_unread_index(entries@, project_id@, worktree_id@, root_id@, 0) == tab_unread_index(
                entries@,
                project_id@,
                worktree_id@,
                root_id@,
                i as int,
            ),
        decreases entries@.len() - i,
    {
        if entries[i].project_id == *project_id && entries[i].worktree_id == *worktree_id
            && entries[i].root_id == *root_id {
            return entries[i].count > 0;
        }
        i = i + 1;
    }
    false
}

fn opt_clone(s: &Option<String>) -> (r: Option<String>)
    ensures
        opt_view(r) == opt_view(*s),
{
    match s {
        Some(t) => Some(t.clone()),
        None => None,
    }
}

fn push_opt(s: &mut String, part: &Option<String>)
    ensures
        final(s)@ == old(s)@ + or_empty(opt_view(*part)),
{
    match part {
        Some(t) => s.append(t.as_str()),
        None => {
            assert(old(s)@ + Seq::<char>::empty() == old(s)@);
        },
    }
}

/// The rows of one tab workspace that belongs to project `p` and has a layout.
fn workspace_tab_items(
    state: &AppState,
    terminals: &TerminalSurfaces,
    p: usize,
    w: usize,
    worktree: Option<&Worktree>,
    section: &String,
    worktree_path: &String,
) -> (rows: Vec<Item>)
    requires
        p < state.projects@.len(),
        w < state.tab_workspaces@.len(),
        eq_ascii_case(state.tab_workspaces@[w as int].project_id@, state.projects@[p as int].id@),
        state.tab_workspaces@[w as int].areas is Some,
        match worktree {
            Some(x) => workspace_worktree(*state, p as int, w as int) == Some(*x),
            None => workspace_worktree(*state, p as int, w as int) is None,
        },
        section@ == workspace_section(*state, p as int, w as int),
        worktree_path@ == workspace_path(*state, p as int, w as int),
    ensures
        views(rows@) == workspace_rows(*state, *terminals, p as int, w as int),
{
    let project = &state.projects[p];
    let ws = &state.tab_workspaces[w];
    let areas = match &ws.areas {
        Some(areas) => areas,
        None => {
            return Vec::new();
        },
    };
    let ghost st = *state;
    let ghost tm = *terminals;
    let mut rows: Vec<Item> = Vec::new();
    let mut a: usize = 0;
    while a < areas.len()
        invariant
            a <= areas@.len(),
            st == *state,
            tm == *terminals,
            p < state.projects@.len(),
            w < state.tab_workspaces@.len(),
            project == &state.projects@[p as int],
            ws == &state.tab_workspaces@[w as int],
            ws.areas == Some(*areas),
            match worktree {
                Some(x) => workspace_worktree(st, p as int, w as int) == Some(*x),
                None => workspace_worktree(st, p as int, w as int) is None,
            },
            section@ == workspace_section(st, p as int, w as int),
            worktree_path@ == workspace_path(st, p as int, w as int),
            views(rows@) == areas_rows(st, tm, p as int, w as int, areas@, a as int),
        decreases areas@.len() - a,
    {
        let area = &areas[a];
        let ghost before = views(rows@);
        let mut t: usize = 0;
        while t < area.tabs.len()
            invariant
                t <= area.tabs@.len(),
                a < areas@.len(),
                area == &areas@[a as int],
                st == *state,
                tm == *terminals,
                p < state.projects@.len(),
                w < state.tab_workspaces@.len(),
                project == &state.projects@[p as int],
                ws == &state.tab_workspaces@[w as int],
                match worktree {
                    Some(x) => workspace_worktree(st, p as int, w as int) == Some(*x),
                    None => workspace_worktree(st, p as int, w as int) is None,
                },
                section@ == workspace_section(st, p as int, w as int),
                worktree_path@ == workspace_path(st, p as int, w as int),
                views(rows@) == before + area.tabs@.take(t as int).map_values(
                    |tab: Tab| tab_row(st, tm, p as int, w as int, *area, tab),
                ),
            decreases area.tabs@.len() - t,
        {
            let tab = &area.tabs[t];
            let directory = match find_key(&terminals.working_directories, &tab.id) {
                Some(k) => match &terminals.working_directories[k].1 {
                    Some(wd) => Some(wd.clone()),
                    None => opt_clone(&tab.project_path),
                },
                None => opt_clone(&tab.project_path),
            };
            let mut id = concat2("open-", area.id.as_str());
            id.append("-");
            id.append(tab.id.as_str());
            let mut search_key = tab.title.clone();
            search_key.append(" ");
            push_opt(&mut search_key, &directory);
            search_key.append(" ");
            search_key.append(project.name.as_str());
            search_key.append(" ");
            match worktree {
                Some(x) => search_key.append(x.name.as_str()),
                None => {
                    assert(search_key@ + Seq::<char>::empty() == search_key@);
                },
            }
            search_key.append(" ");
            match worktree {
                Some(x) => push_opt(&mut search_key, &x.branch),
                None => {
                    assert(search_key@ + Seq::<char>::empty() == search_key@);
                },
            }
            let unread = match &ws.worktree_id {
                Some(wid) => find_tab_unread(state, &project.id, wid, &tab.root_id),
                None => false,
            };
            let row = Item {
                id,
                symbol: "terminal".to_owned(),
                section: section.clone(),
                title: tab.title.clone(),
                subtitle: directory,
                search_key,
                action: ItemAction::SelectTab {
                    project_id: project.id.clone(),
                    worktree_path: worktree_path.clone(),
                    tab_id: tab.id.clone(),
                },
                unread,
            };
            assert(row@ == tab_row(st, tm, p as int, w as int, *area, *tab));
            let ghost old_rows = rows@;
            rows.push(row);
            proof {
                lemma_views_push(old_rows, row);
                assert(area.tabs@.take(t as int + 1) == area.tabs@.take(t as int).push(
                    area.tabs@[t as int],
                ));
                lemma_map_push(
                    area.tabs@.take(t as int),
                    area.tabs@[t as int],
                    |tab: Tab| tab_row(st, tm, p as int, w as int, *area, tab),
                );
            }
            t = t + 1;
            assert(views(rows@) =~= before + area.tabs@.take(t as int).map_values(
                |tab: Tab| tab_row(st, tm, p as int, w as int, *area, tab),
            ));
        }
        assert(area.tabs@.take(area.tabs@.len() as int) == area.tabs@);
        a = a + 1;
    }
    rows
}

/// One row per open tab, those of the active project's active worktree first; otherwise
/// in project order, then tab workspace order, then area and tab order.
pub fn open_tab_items(state: &AppState, terminals: &TerminalSurfaces) -> (rows: Vec<Item>)
    requires
        state.wf(),
    ensures
        views(rows@) == open_tab_rows(*state, *terminals),
{
    let ghost st = *state;
    let ghost tm = *terminals;
    let active_id: Option<&String> = match state.active_project {
        Some(a) => Some(&state.projects[a].id),
        None => None,
    };
    let active_worktree_id: Option<String> = match active_id {
        Some(id) => match find_key(&state.active_worktree_ids, id) {
            Some(k) => Some(state.active_worktree_ids[k].1.clone()),
            None => None,
        },
        None => None,
    };
    assert(opt_view(active_worktree_id) == active_worktree(st));
    let mut first: Vec<Item> = Vec::new();
    let mut rest: Vec<Item> = Vec::new();
    let n = state.projects.len();
    let m = state.tab_workspaces.len();
    let mut p: usize = 0;
    while p < n
        invariant
            st == *state,
            tm == *terminals,
            state.wf(),
            n == state.projects@.len(),
            m == state.tab_workspaces@.len(),
            p <= n,
            match active_id {
                Some(id) => st.active_project matches Some(a) && id == &state.projects@[a as int].id,
                None => st.active_project is None,
            },
            opt_view(active_worktree_id) == active_worktree(st),
            views(first@) == projects_rows(st, tm, true, p as int),
            views(rest@) == projects_rows(st, tm, false, p as int),
        decreases n - p,
    {
        let project = &state.projects[p];
        let ghost first_before = views(first@);
        let ghost rest_before = views(rest@);
        let mut w: usize = 0;
        while w < m
            invariant
                st == *state,
                tm == *terminals,
                n == state.projects@.len(),
                m == state.tab_workspaces@.len(),
                p < n,
                w <= m,
                project == &state.projects@[p as int],
                match active_id {
                    Some(id) => st.active_project matches Some(a) && id == &state.projects@[a as int].id,
                    None => st.active_project is None,
                },
                opt_view(active_worktree_id) == active_worktree(st),
                views(first@) == first_before + project_rows(st, tm, true, p as int, w as int),
                views(rest@) == rest_before + project_rows(st, tm, false, p as int, w as int),
            decreases m - w,
        {
            let ws = &state.tab_workspaces[w];
            let ghost fb = views(first@);
            let ghost rb = views(rest@);
            if eq_ignore_ascii_case(ws.project_id.as_str(), project.id.as_str()) && ws.areas.is_some() {
                let worktree: Option<&Worktree> = match &ws.worktree_id {
                    None => None,
                    Some(wid) => match find_worktrees(state, &project.id) {
                        None => None,
                        Some(k) => {
                            proof {
                                lemma_worktrees_entry_in_range(state.worktrees@, project.id@, 0);
                            }
                            match find_worktree_ci(&state.worktrees[k].worktrees, wid) {
                                None => None,
                                Some(j) => Some(&state.worktrees[k].worktrees[j]),
                            }
                        },
                    },
                };
                let context: Option<String> = match worktree {
                    None => None,
                    Some(x) => {
                        let c = match &x.branch {
                            Some(b) => b.clone(),
                            None => x.name.clone(),
                        };
                        if c.as_str().is_empty() {
                            None
                        } else {
                            Some(c)
                        }
                    },
                };
                let mut section = concat2("Open Tabs — ", project.name.as_str());
                match &context {
                    Some(c) => {
                        section.append(" (");
                        section.append(c.as_str());
                        section.append(")");
                    },
                    None => {},
                }
                let worktree_path = match &ws.worktree_path {
                    Some(path) => path.clone(),
                    None => project.path.clone(),
                };
                let same_project = match active_id {
                    Some(id) => eq_ignore_ascii_case(id.as_str(), project.id.as_str()),
                    None => false,
                };
                let same_worktree = match (&ws.worktree_id, &active_worktree_id) {
                    (Some(x), Some(y)) => *x == *y,
                    (None, None) => true,
                    _ => false,
                };
                let is_active = same_project && same_worktree;
                assert(is_active == workspace_is_active(st, p as int, w as int));
                let mut rows = workspace_tab_items(
                    state,
                    terminals,
                    p,
                    w,
                    worktree,
                    &section,
                    &worktree_path,
                );
                let ghost added = views(rows@);
                if is_active {
                    let ghost old_first = first@;
                    first.append(&mut rows);
                    assert(views(first@) =~= views(old_first) + added);
                } else {
                    let ghost old_rest = rest@;
                    rest.append(&mut rows);
                    assert(views(rest@) =~= views(old_rest) + added);
                }
            } else {
                assert(workspace_rows(st, tm, p as int, w as int) =~= Seq::<ItemView>::empty());
            }
            w = w + 1;
            assert(views(first@) =~= first_before + project_rows(st, tm, true, p as int, w as int));
            assert(views(rest@) =~= rest_before + project_rows(st, tm, false, p as int, w as int));
        }
        p = p + 1;
    }
    let ghost f = views(first@);
    let ghost r = views(rest@);
    first.append(&mut rest);
    assert(views(first@) =~= f + r);
    first
}


/// Tab `tab` of area `area` belongs to tab workspace `w` of project `p`.
pub open spec fn tab_source(state: AppState, p: int, w: int, area: Area, tab: Tab) -> bool {
    &&& 0 <= p < state.projects@.len()
    &&& 0 <= w < state.tab_workspaces@.len()
    &&& eq_ascii_case(state.tab_workspaces@[w].project_id@, state.projects@[p].id@)
    &&& state.tab_workspaces@[w].areas matches Some(areas) && areas@.contains(area)
        && area.tabs@.contains(tab)
}

proof fn lemma_areas_row_source(
    state: AppState,
    terminals: TerminalSurfaces,
    p: int,
    w: int,
    areas: Seq<Area>,
    n: int,
    k: int,
) -> (source: (Area, Tab))
    requires
        0 <= p < state.projects@.len(),
        0 <= w < state.tab_workspaces@.len(),
        eq_ascii_case(state.tab_workspaces@[w].project_id@, state.projects@[p].id@),
        state.tab_workspaces@[w].areas matches Some(v) && v@ == areas,
        0 <= n <= areas.len(),
        0 <= k < areas_rows(state, terminals, p, w, areas, n).len(),
    ensures
        tab_source(state, p, w, source.0, source.1),
        areas_rows(state, terminals, p, w, areas, n)[k] == tab_row(
            state,
            terminals,
            p,
            w,
            source.0,
            source.1,
        ),
    decreases n,
{
    let prev = areas_rows(state, terminals, p, w, areas, n - 1);
    let area = areas[n - 1];
    let added = area.tabs@.map_values(|tab: Tab| tab_row(state, terminals, p, w, area, tab));
    assert(areas_rows(state, terminals, p, w, areas, n) == prev + added);
    if k < prev.len() {
        lemma_areas_row_source(state, terminals, p, w, areas, n - 1, k)
    } else {
        let tab = area.tabs@[k - prev.len()];
        assert(areas.contains(area));
        assert(area.tabs@.contains(tab));
        (area, tab)
    }
}

proof fn lemma_project_row_source(
    state: AppState,
    terminals: TerminalSurfaces,
    active: bool,
    p: int,
    n: int,
    k: int,
) -> (source: (int, Area, Tab))
    requires
        0 <= p < state.projects@.len(),
        0 <= n <= state.tab_workspaces@.len(),
        0 <= k < project_rows(state, terminals, active, p, n).len(),
    ensures
        tab_source(state, p, source.0, source.1, source.2),
        project_rows(state, terminals, active, p, n)[k] == tab_row(
            state,
            terminals,
            p,
            source.0,
            source.1,
            source.2,
        ),
    decreases n,
{
    let prev = project_rows(state, terminals, active, p, n - 1);
    let w = n - 1;
    let ws = state.tab_workspaces@[w];
    let added = if workspace_is_active(state, p, w) == active {
        workspace_rows(state, terminals, p, w)
    } else {
        Seq::empty()
    };
    assert(project_rows(state, terminals, active, p, n) == prev + added);
    if k < prev.len() {
        lemma_project_row_source(state, terminals, active, p, n - 1, k)
    } else {
        let v = ws.areas->0;
        let (area, tab) = lemma_areas_row_source(
            state,
            terminals,
            p,
            w,
            v@,
            v@.len() as int,
            k - prev.len(),
        );
        (w, area, tab)
    }
}

proof fn lemma_projects_row_source(
    state: AppState,
    terminals: TerminalSurfaces,
    active: bool,
    n: int,
    k: int,
) -> (source: (int, int, Area, Tab))
    requires
        0 <= n <= state.projects@.len(),
        0 <= k < projects_rows(state, terminals, active, n).len(),
    ensures
        tab_source(state, source.0, source.1, source.2, source.3),
        projects_rows(state, terminals, active, n)[k] == tab_row(
            state,
            terminals,
            source.0,
            source.1,
            source.2,
            source.3,
        ),
    decreases n,
{
    let prev = projects_rows(state, terminals, active, n - 1);
    let m = state.tab_workspaces@.len() as int;
    let added = project_rows(state, terminals, active, n - 1, m);
    assert(projects_rows(state, terminals, active, n) == prev + added);
    if k < prev.len() {
        lemma_projects_row_source(state, terminals, active, n - 1, k)
    } else {
        let (w, area, tab) = lemma_project_row_source(state, terminals, active, n - 1, m, k - prev.len());
        (n - 1, w, area, tab)
    }
}

/// Every open-tab row stands for a tab of some tab workspace `w` of some project `p` (the
/// result names them): it shows the tab's title, and selecting it selects that tab in that
/// project, switching to `w`'s own worktree path when it has one and to the project's path
/// otherwise. So the path is never empty when the workspace's and the project's are not.
pub proof fn lemma_open_tab_row_selects_its_tab(state: AppState, terminals: TerminalSurfaces, k: int) -> (source: (
    int,
    int,
    Area,
    Tab,
))
    requires
        0 <= k < open_tab_rows(state, terminals).len(),
    ensures
        tab_source(state, source.0, source.1, source.2, source.3),
        open_tab_rows(state, terminals)[k].title == source.3.title@,
        open_tab_rows(state, terminals)[k].section.subrange(0, "Open Tabs — "@.len() as int)
            == "Open Tabs — "@,
        open_tab_rows(state, terminals)[k].unread == (state.tab_workspaces@[source.1].worktree_id matches Some(
            wid,
        ) && tab_unread_index(
            state.tab_unread@,
            state.projects@[source.0].id@,
            wid@,
            source.3.root_id@,
            0,
        ) matches Some(i) && state.tab_unread@[i].count > 0),
        open_tab_rows(state, terminals)[k].action == (ActionView::SelectTab {
            project_id: state.projects@[source.0].id@,
            worktree_path: match state.tab_workspaces@[source.1].worktree_path {
                Some(path) => path@,
                None => state.projects@[source.0].path@,
            },
            tab_id: source.3.id@,
        }),
        state.projects@[source.0].path@.len() > 0 && (state.tab_workspaces@[source.1].worktree_path matches Some(
            path,
        ) ==> path@.len() > 0) ==> open_tab_rows(state, terminals)[k].action->worktree_path.len() > 0,
{
    let n = state.projects@.len() as int;
    let first = projects_rows(state, terminals, true, n);
    let rest = projects_rows(state, terminals, false, n);
    assert(open_tab_rows(state, terminals) == first + rest);
    let source = if k < first.len() {
        lemma_projects_row_source(state, terminals, true, n, k)
    } else {
        lemma_projects_row_source(state, terminals, false, n, k - first.len())
    };
    let section = workspace_section(state, source.0, source.1);
    let prefix = "Open Tabs — "@;
    assert(section.subrange(0, prefix.len() as int) =~= prefix);
    source
}

/// There is one project row per project, in sidebar order: it shows the project's name and
/// path, selects that project, and is unread exactly when the project has unread
/// notifications.
pub proof fn lemma_project_rows_follow_projects(state: AppState, terminals: TerminalSurfaces)
    ensures
        scope_rows(state, terminals, Scope::Projects).len() == state.projects@.len(),
        forall|k: int|
            0 <= k < state.projects@.len() ==> {
                let row = #[trigger] scope_rows(state, terminals, Scope::Projects)[k];
                let p = state.projects@[k];
                &&& row.title == p.name@
                &&& row.subtitle == Some(p.path@)
                &&& row.action == ActionView::SelectProject(p.id@)
                &&& row.unread == (p.unread_count > 0)
            },
{
}

/// There is one row per recently removed project, most recent first: it offers to restore
/// that project and is never unread.
pub proof fn lemma_removed_rows_restore_projects(state: AppState, terminals: TerminalSurfaces)
    ensures
        scope_rows(state, terminals, Scope::RecentlyRemovedProjects).len()
            == state.recently_removed@.len(),
        forall|k: int|
            0 <= k < state.recently_removed@.len() ==> {
                let row = #[trigger] scope_rows(state, terminals, Scope::RecentlyRemovedProjects)[k];
                let p = state.recently_removed@[k];
                &&& row.title == p.name@
                &&& row.action == ActionView::RestoreProject(p.id@)
                &&& !row.unread
            },
{
}

/// Each worktree row stands for one worktree of the active project, in order: it shows the
/// worktree's name, selects that worktree of that project, and is unread exactly when the
/// worktree has unread notifications.
pub proof fn lemma_worktree_rows_follow_worktrees(state: AppState)
    requires
        state.wf(),
    ensures
        match state.active_project {
            None => worktree_rows(state).len() == 0,
            Some(a) => match worktrees_entry(state.worktrees@, state.projects@[a as int].id@, 0) {
                None => worktree_rows(state).len() == 0,
                Some(e) => {
                    let list = state.worktrees@[e].worktrees@;
                    &&& worktree_rows(state).len() == list.len()
                    &&& forall|k: int|
                        0 <= k < list.len() ==> {
                            let row = #[trigger] worktree_rows(state)[k];
                            &&& row.unread == (list[k].unread_count > 0)
                            &&& row.title == list[k].name@
                            &&& row.action == (ActionView::SelectWorktree {
                                project_id: state.projects@[a as int].id@,
                                worktree_id: list[k].id@,
                            })
                            &&& row.id == "worktree-"@ + list[k].id@
                            &&& row.symbol == (if list[k].is_primary {
                                "folder.badge.gearshape"@
                            } else {
                                "arrow.triangle.branch"@
                            })
                            &&& row.subtitle == Some(
                                match list[k].branch {
                                    Some(branch) => "("@ + branch@ + ") "@ + list[k].path@,
                                    None => list[k].path@,
                                },
                            )
                        }
                },
            },
        },
{
}

/// The rows of a scope.
pub open spec fn scope_rows(state: AppState, terminals: TerminalSurfaces, scope: Scope) -> Seq<
    ItemView,
> {
    match scope {
        Scope::Projects => state.projects@.map_values(|p: Project| project_row(p)),
        Scope::RecentlyRemovedProjects => state.recently_removed@.map_values(
            |p: Project| removed_row(p),
        ),
        Scope::Worktrees => worktree_rows(state),
        Scope::Workspaces => seq![all_projects_row()] + state.groups@.map_values(
            |g: WorkspaceGroup| group_row(state, g),
        ),
        Scope::OpenTabs => open_tab_rows(state, terminals),
        Scope::CommandShortcuts => shortcut_rows(state),
    }
}

/// The rows that the omnibox lists for a scope, before any query narrows them.
pub fn items(state: &AppState, terminals: &TerminalSurfaces, scope: Scope) -> (rows: Vec<Item>)
    requires
        state.wf(),
    ensures
        views(rows@) == scope_rows(*state, *terminals, scope),
{
    match scope {
        Scope::Projects => project_items(state),
        Scope::RecentlyRemovedProjects => recently_removed_items(state),
        Scope::Worktrees => worktree_items(state),
        Scope::Workspaces => workspace_items(state),
        Scope::OpenTabs => open_tab_items(state, terminals),
        Scope::CommandShortcuts => command_items(state),
    }
}

// Extension commands

/// A command that an extension contributes.
#[derive(Debug, Clone)]
pub struct ExtensionCommand {
    pub id: String,
    pub title: String,
    pub subtitle: Option<String>,
    /// The command only runs from a place in the interface it is anchored to.
    pub anchored: bool,
}

/// An installed extension and its commands.
#[derive(Debug, Clone)]
pub struct ExtensionRecord {
    pub extension_id: String,
    pub enabled: bool,
    pub display_name: String,
    pub commands: Vec<ExtensionCommand>,
}

/// The row of an extension command.
pub open spec fn extension_command_row(record: ExtensionRecord, command: ExtensionCommand) -> ItemView {
    ItemView {
        id: "extension-command-"@ + record.extension_id@ + "-"@ + command.id@,
        symbol: "puzzlepiece.extension"@,
        section: "Extension Commands"@,
        title: command.title@,
        subtitle: match command.subtitle {
            Some(s) => Some(s@),
            None => Some(record.display_name@),
        },
        search_key: record.display_name@ + " "@ + command.title@ + " "@ + or_empty(
            opt_view(command.subtitle),
        ),
        action: ActionView::RunExtensionCommand {
            extension_id: record.extension_id@,
            command_id: command.id@,
        },
        unread: false,
    }
}

/// The rows of one extension: one per command that is not anchored, when enabled.
pub open spec fn extension_rows(record: ExtensionRecord) -> Seq<ItemView> {
    if record.enabled {
        record.commands@.filter(|c: ExtensionCommand| !c.anchored).map_values(
            |c: ExtensionCommand| extension_command_row(record, c),
        )
    } else {
        Seq::empty()
    }
}

/// The rows of the first `n` extensions.
pub open spec fn extensions_rows(records: Seq<ExtensionRecord>, n: int) -> Seq<ItemView>
    decreases n,
{
    if n <= 0 {
        Seq::empty()
    } else {
        extensions_rows(records, n - 1) + extension_rows(records[n - 1])
    }
}

/// One row per command of each enabled extension, except anchored commands.
pub fn extension_command_items(records: &Vec<ExtensionRecord>) -> (rows: Vec<Item>)
    ensures
        views(rows@) == extensions_rows(records@, records@.len() as int),
{
    let mut rows: Vec<Item> = Vec::new();
    let mut r: usize = 0;
    while r < records.len()
        invariant
            r <= records@.len(),
            views(rows@) == extensions_rows(records@, r as int),
        decreases records@.len() - r,
    {
        let record = &records[r];
        let ghost before = views(rows@);
        if record.enabled {
            let ghost pred = |c: ExtensionCommand| !c.anchored;
            let ghost rec = *record;
            let mut c: usize = 0;
            while c < record.commands.len()
                invariant
                    c <= record.commands@.len(),
                    rec == *record,
                    record.enabled,
                    pred == (|c: ExtensionCommand| !c.anchored),
                    views(rows@) == before + record.commands@.take(c as int).filter(pred).map_values(
                        |x: ExtensionCommand| extension_command_row(rec, x),
                    ),
                decreases record.commands@.len() - c,
            {
                let command = &record.commands[c];
                proof {
                    assert(record.commands@.take(c as int + 1) == record.commands@.take(
                        c as int,
                    ).push(record.commands@[c as int]));
                    record.commands@.take(c as int).lemma_filter_push(
                        record.commands@[c as int],
                        pred,
                    );
                }
                if !command.anchored {
                    let mut id = concat2("extension-command-", record.extension_id.as_str());
                    id.append("-");
                    id.append(command.id.as_str());
                    let subtitle = match &command.subtitle {
                        Some(s) => Some(s.clone()),
                        None => Some(record.display_name.clone()),
                    };
                    let mut search_key = join2(record.display_name.as_str(), command.title.as_str());
                    search_key.append(" ");
                    push_opt(&mut search_key, &command.subtitle);
                    let row = Item {
                        id,
                        symbol: "puzzlepiece.extension".to_owned(),
                        section: "Extension Commands".to_owned(),
                        title: command.title.clone(),
                        subtitle,
                        search_key,
                        action: ItemAction::RunExtensionCommand {
                            extension_id: record.extension_id.clone(),
                            command_id: command.id.clone(),
                        },
                        unread: false,
                    };
                    assert(row@ == extension_command_row(rec, *command));
                    let ghost old_rows = rows@;
                    rows.push(row);
                    proof {
                        lemma_views_push(old_rows, row);
                        lemma_map_push(
                            record.commands@.take(c as int).filter(pred),
                            record.commands@[c as int],
                            |x: ExtensionCommand| extension_command_row(rec, x),
                        );
                    }
                }
                c = c + 1;
                assert(views(rows@) =~= before + record.commands@.take(c as int).filter(
                    pred,
                ).map_values(|x: ExtensionCommand| extension_command_row(rec, x)));
            }
            assert(record.commands@.take(record.commands@.len() as int) == record.commands@);
        } else {
            assert(views(rows@) =~= before + extension_rows(*record));
        }
        r = r + 1;
    }
    rows
}

} // verus!
