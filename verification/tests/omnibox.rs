use muxy::omnibox::{haystack, ranked, Item, ItemAction, Scope};
use muxy::omnibox_items::{
    decimal_string, extension_command_items, items, AppState, Area, CommandShortcut,
    ExtensionCommand, ExtensionRecord, Project, ProjectWorktrees, Tab, TabUnread, TabWorkspace,
    TerminalSurfaces, WorkspaceGroup, Worktree,
};
use muxy::scoring::score;

fn item(title: &str, section: &str) -> Item {
    Item {
        id: title.to_owned(),
        symbol: "folder".to_owned(),
        section: section.to_owned(),
        title: title.to_owned(),
        subtitle: None,
        search_key: title.to_owned(),
        action: ItemAction::SelectProject(title.to_owned()),
        unread: false,
    }
}

fn titles(items: &[Item]) -> Vec<&str> {
    items.iter().map(|item| item.title.as_str()).collect()
}

/// Lower-casing stands in for the full fold in these examples, which are all ASCII.
fn folded_haystacks(items: &[Item], scope: Scope) -> Vec<String> {
    items
        .iter()
        .map(|item| haystack(item, scope).to_lowercase())
        .collect()
}

fn rank(items: Vec<Item>, scope: Scope, query: &str) -> Vec<Item> {
    let haystacks = folded_haystacks(&items, scope);
    let folded = query.trim().to_lowercase();
    ranked(items, query, &folded, &haystacks)
}

fn matches(entry: &Item, scope: Scope, folded_query: &str) -> Option<i32> {
    score(&haystack(entry, scope).to_lowercase(), folded_query)
}

fn project(id: &str, name: &str, path: &str) -> Project {
    Project {
        id: id.to_owned(),
        name: name.to_owned(),
        path: path.to_owned(),
        icon: None,
        is_home: false,
        unread_count: 0,
    }
}

fn worktree(id: &str, name: &str, path: &str, is_primary: bool) -> Worktree {
    Worktree {
        id: id.to_owned(),
        name: name.to_owned(),
        path: path.to_owned(),
        branch: None,
        is_primary,
        unread_count: 0,
    }
}

fn tab_workspace(project_id: &str, path: &str) -> TabWorkspace {
    TabWorkspace {
        project_id: project_id.to_owned(),
        worktree_id: None,
        worktree_path: None,
        areas: Some(vec![Area {
            id: format!("area-{project_id}"),
            tabs: vec![Tab {
                id: format!("tab-{project_id}"),
                title: "Terminal".to_owned(),
                root_id: format!("tab-{project_id}"),
                project_path: Some(path.to_owned()),
            }],
        }]),
    }
}

fn state() -> AppState {
    AppState {
        projects: vec![
            project("alpha-id", "Alpha", "/tmp/alpha"),
            project("beta-id", "Beta", "/tmp/beta"),
        ],
        active_project: Some(0),
        worktrees: vec![
            ProjectWorktrees {
                project_id: "alpha-id".to_owned(),
                worktrees: vec![
                    worktree("wt-alpha", "alpha", "/tmp/alpha", true),
                    worktree("wt-alpha-2", "feature", "/tmp/alpha-feature", false),
                ],
            },
            ProjectWorktrees {
                project_id: "beta-id".to_owned(),
                worktrees: vec![worktree("wt-beta", "beta", "/tmp/beta", true)],
            },
        ],
        active_worktree_ids: Vec::new(),
        tab_workspaces: vec![
            tab_workspace("alpha-id", "/tmp/alpha"),
            tab_workspace("beta-id", "/tmp/beta"),
        ],
        groups: Vec::new(),
        command_shortcuts: Vec::new(),
        recently_removed: Vec::new(),
        tab_unread: Vec::new(),
    }
}

fn surfaces() -> TerminalSurfaces {
    TerminalSurfaces {
        working_directories: Vec::new(),
    }
}

#[test]
fn omnibox_unread_accessibility_output_is_explicit() {
    let mut value = item("Project", "Projects");
    assert_eq!(value.accessibility_label(), "Project");
    value.unread = true;
    assert_eq!(value.accessibility_label(), "Project, unread");
}

#[test]
fn worktrees_are_narrowed_to_the_active_project() {
    let state = state();
    let surfaces = surfaces();
    let rows = items(&state, &surfaces, Scope::Worktrees);
    assert_eq!(titles(&rows), vec!["alpha", "feature"]);
    assert_eq!(rows[0].symbol, "folder.badge.gearshape");
    assert_eq!(rows[1].symbol, "arrow.triangle.branch");

    let mut state = state;
    state.active_project = None;
    assert!(items(&state, &surfaces, Scope::Worktrees).is_empty());
}

#[test]
fn open_tabs_put_the_active_project_first_and_keep_source_order() {
    let mut state = state();
    state.active_project = Some(1);
    let surfaces = surfaces();
    let rows = items(&state, &surfaces, Scope::OpenTabs);
    assert_eq!(rows.len(), 2);
    assert!(rows[0].section.contains("Beta"));
    assert!(rows[1].section.contains("Alpha"));
}

#[test]
fn command_shortcuts_are_empty_without_an_active_project() {
    let mut state = state();
    state.command_shortcuts = vec![CommandShortcut {
        id: "build".to_owned(),
        display_name: "Build".to_owned(),
        trimmed_command: "cargo build".to_owned(),
    }];
    state.active_project = None;
    let surfaces = surfaces();
    assert!(items(&state, &surfaces, Scope::CommandShortcuts).is_empty());
}

#[test]
fn a_non_contiguous_subsequence_still_matches() {
    let entry = item("my new terminal", "Open Tabs");
    assert!(matches(&entry, Scope::OpenTabs, "mnt").is_some());
}

#[test]
fn a_character_absent_from_the_haystack_does_not_match() {
    let entry = item("alpha", "Projects");
    assert!(matches(&entry, Scope::Projects, "alphaz").is_none());
}

#[test]
fn a_contiguous_boundary_aligned_hit_ranks_first() {
    let items = vec![item("zzz apple", "Projects"), item("a p p l e", "Projects")];
    let ranked = rank(items, Scope::Projects, "apple");
    assert_eq!(titles(&ranked)[0], "zzz apple");
}

#[test]
fn equal_scores_keep_resolver_order() {
    let items = vec![item("alpha one", "Projects"), item("alpha two", "Projects")];
    let ranked = rank(items, Scope::Projects, "alpha");
    assert_eq!(titles(&ranked), vec!["alpha one", "alpha two"]);
}

#[test]
fn an_empty_query_returns_the_input_unchanged() {
    let items = vec![item("b", "Projects"), item("a", "Projects")];
    let ranked = rank(items, Scope::Projects, "   ");
    assert_eq!(titles(&ranked), vec!["b", "a"]);
}

#[test]
fn sections_never_interleave_regardless_of_score() {
    let items = vec![
        item("zzzz tab", "Open Tabs — A"),
        item("tab", "Open Tabs — B"),
        item("tab exact", "Open Tabs — A"),
    ];
    let ranked = rank(items, Scope::OpenTabs, "tab");
    let sections: Vec<&str> = ranked.iter().map(|item| item.section.as_str()).collect();
    assert_eq!(
        sections,
        vec!["Open Tabs — A", "Open Tabs — A", "Open Tabs — B"]
    );
}

#[test]
fn ranking_drops_rows_that_do_not_match() {
    let items = vec![item("alpha", "Projects"), item("beta", "Projects")];
    let ranked = rank(items, Scope::Projects, "bet");
    assert_eq!(titles(&ranked), vec!["beta"]);
}

#[test]
fn haystack_joins_the_searched_fields_and_the_scope_word() {
    let mut entry = item("Alpha", "Projects");
    entry.search_key = "Alpha /tmp/alpha".to_owned();
    entry.subtitle = Some("/tmp/alpha".to_owned());
    assert_eq!(
        haystack(&entry, Scope::Projects),
        "Alpha /tmp/alpha Alpha /tmp/alpha Projects project"
    );
    entry.subtitle = None;
    assert_eq!(
        haystack(&entry, Scope::OpenTabs),
        "Alpha /tmp/alpha Alpha  Projects open tab"
    );
}

#[test]
fn scope_texts_are_exact() {
    assert_eq!(Scope::Projects.placeholder(), "Search project...");
    assert_eq!(Scope::OpenTabs.empty_state(), "No open tabs found");
    assert_eq!(Scope::CommandShortcuts.search_word(), "custom command");
    assert_eq!(Scope::Worktrees.return_label(), "Switch");
}

#[test]
fn project_rows_follow_sidebar_order() {
    let mut state = state();
    state.projects[1].unread_count = 3;
    let rows = items(&state, &surfaces(), Scope::Projects);
    assert_eq!(titles(&rows), vec!["Alpha", "Beta"]);
    assert_eq!(rows[0].id, "project-alpha-id");
    assert_eq!(rows[0].search_key, "Alpha /tmp/alpha");
    assert_eq!(rows[0].subtitle.as_deref(), Some("/tmp/alpha"));
    assert!(!rows[0].unread);
    assert!(rows[1].unread);
}

#[test]
fn recently_removed_rows_offer_a_restore() {
    let mut state = state();
    let mut removed = project("gone-id", "Gone", "/tmp/gone");
    removed.icon = Some("star".to_owned());
    state.recently_removed = vec![removed];
    let rows = items(&state, &surfaces(), Scope::RecentlyRemovedProjects);
    assert_eq!(rows.len(), 1);
    assert_eq!(rows[0].id, "recent-project-gone-id");
    assert_eq!(rows[0].symbol, "star");
    assert_eq!(rows[0].section, "Recently Removed");
    assert_eq!(rows[0].action, ItemAction::RestoreProject("gone-id".to_owned()));
}

#[test]
fn worktree_rows_show_the_branch_before_the_path() {
    let mut state = state();
    state.worktrees[0].worktrees[1].branch = Some("feature-x".to_owned());
    let rows = items(&state, &surfaces(), Scope::Worktrees);
    assert_eq!(rows[1].subtitle.as_deref(), Some("(feature-x) /tmp/alpha-feature"));
    assert_eq!(rows[1].search_key, "feature /tmp/alpha-feature feature-x");
    assert_eq!(rows[0].search_key, "alpha /tmp/alpha ");
}

#[test]
fn command_rows_skip_shortcuts_without_a_command() {
    let mut state = state();
    state.command_shortcuts = vec![
        CommandShortcut {
            id: "empty".to_owned(),
            display_name: "Nothing".to_owned(),
            trimmed_command: String::new(),
        },
        CommandShortcut {
            id: "build".to_owned(),
            display_name: "Build".to_owned(),
            trimmed_command: "cargo build".to_owned(),
        },
    ];
    let rows = items(&state, &surfaces(), Scope::CommandShortcuts);
    assert_eq!(titles(&rows), vec!["Build"]);
    assert_eq!(rows[0].id, "shortcut-build");
    assert_eq!(rows[0].action, ItemAction::RunCommand("build".to_owned()));
}

#[test]
fn workspace_rows_count_stored_member_projects() {
    let mut state = state();
    state.projects.push(Project {
        is_home: true,
        ..project("home-id", "Home", "/home")
    });
    state.groups = vec![
        WorkspaceGroup {
            id: "g1".to_owned(),
            name: "Both".to_owned(),
            project_ids: vec!["ALPHA-ID".to_owned(), "beta-id".to_owned(), "home-id".to_owned()],
        },
        WorkspaceGroup {
            id: "g2".to_owned(),
            name: "One".to_owned(),
            project_ids: vec!["beta-id".to_owned()],
        },
        WorkspaceGroup {
            id: "g3".to_owned(),
            name: "None".to_owned(),
            project_ids: Vec::new(),
        },
    ];
    let rows = items(&state, &surfaces(), Scope::Workspaces);
    assert_eq!(titles(&rows), vec!["All Projects", "Both", "One", "None"]);
    assert_eq!(rows[0].action, ItemAction::SelectGroup(None));
    assert_eq!(rows[1].subtitle.as_deref(), Some("2 projects"));
    assert_eq!(rows[2].subtitle.as_deref(), Some("1 project"));
    assert_eq!(rows[3].subtitle.as_deref(), Some("0 projects"));
}

#[test]
fn open_tab_rows_name_the_worktree_and_read_live_directories() {
    let mut state = state();
    state.worktrees[0].worktrees[1].branch = Some("feature-x".to_owned());
    state.active_worktree_ids = vec![("alpha-id".to_owned(), "wt-alpha-2".to_owned())];
    state.tab_workspaces[0].worktree_id = Some("wt-alpha-2".to_owned());
    state.tab_workspaces[0].worktree_path = Some("/tmp/alpha-feature".to_owned());
    state.tab_unread = vec![TabUnread {
        project_id: "alpha-id".to_owned(),
        worktree_id: "wt-alpha-2".to_owned(),
        root_id: "tab-alpha-id".to_owned(),
        count: 2,
    }];
    let surfaces = TerminalSurfaces {
        working_directories: vec![("tab-alpha-id".to_owned(), Some("/work".to_owned()))],
    };
    let rows = items(&state, &surfaces, Scope::OpenTabs);
    assert_eq!(rows.len(), 2);
    assert_eq!(rows[0].section, "Open Tabs — Alpha (feature-x)");
    assert_eq!(rows[0].id, "open-area-alpha-id-tab-alpha-id");
    assert_eq!(rows[0].subtitle.as_deref(), Some("/work"));
    assert_eq!(rows[0].search_key, "Terminal /work Alpha feature feature-x");
    assert!(rows[0].unread);
    assert_eq!(
        rows[0].action,
        ItemAction::SelectTab {
            project_id: "alpha-id".to_owned(),
            worktree_path: "/tmp/alpha-feature".to_owned(),
            tab_id: "tab-alpha-id".to_owned(),
        }
    );
    assert_eq!(rows[1].section, "Open Tabs — Beta");
    assert_eq!(rows[1].subtitle.as_deref(), Some("/tmp/beta"));
    assert!(!rows[1].unread);
}

#[test]
fn extension_rows_skip_disabled_extensions_and_anchored_commands() {
    let records = vec![
        ExtensionRecord {
            extension_id: "ext".to_owned(),
            enabled: true,
            display_name: "Extension".to_owned(),
            commands: vec![
                ExtensionCommand {
                    id: "run".to_owned(),
                    title: "Run".to_owned(),
                    subtitle: None,
                    anchored: false,
                },
                ExtensionCommand {
                    id: "pinned".to_owned(),
                    title: "Pinned".to_owned(),
                    subtitle: None,
                    anchored: true,
                },
            ],
        },
        ExtensionRecord {
            extension_id: "off".to_owned(),
            enabled: false,
            display_name: "Off".to_owned(),
            commands: vec![ExtensionCommand {
                id: "x".to_owned(),
                title: "X".to_owned(),
                subtitle: Some("x".to_owned()),
                anchored: false,
            }],
        },
    ];
    let rows = extension_command_items(&records);
    assert_eq!(titles(&rows), vec!["Run"]);
    assert_eq!(rows[0].id, "extension-command-ext-run");
    assert_eq!(rows[0].subtitle.as_deref(), Some("Extension"));
    assert_eq!(rows[0].search_key, "Extension Run ");
}

#[test]
fn decimal_strings_are_exact() {
    assert_eq!(decimal_string(0), "0");
    assert_eq!(decimal_string(7), "7");
    assert_eq!(decimal_string(1204), "1204");
}
