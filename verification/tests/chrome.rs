use muxy::composer::{
    add_attachments, composer_font_shortcut_step, remove_attachment, submission_target_ids,
};
use muxy::terminal::{
    desktop_notification_is_sound_only, desktop_notification_title, indicator_update,
    terminal_input_overlay_active, IndicatorUpdate,
};
use muxy::titlebar::{titlebar_action_ids, TitlebarAction, TITLEBAR_ACTIONS};
use muxy::workspace_view::{
    pane_indicator, relative_root_index, shows_tab_indicator_dot, shows_terminal_attention,
    strip_action_ids, PaneState, TabIndicator,
};

#[test]
fn chrome_titlebar_contract_excludes_browser_and_keeps_backed_actions() {
    assert_eq!(
        titlebar_action_ids(),
        vec!["split-right", "split-down", "new-tab"]
    );
    assert!(!titlebar_action_ids().contains(&"new-browser-tab"));
}

#[test]
fn titlebar_actions_are_listed_in_order() {
    assert_eq!(
        TITLEBAR_ACTIONS,
        [
            TitlebarAction::SplitRight,
            TitlebarAction::SplitDown,
            TitlebarAction::NewTab
        ]
    );
    assert_eq!(TitlebarAction::NewTab.id(), "new-tab");
}

#[test]
fn composer_font_shortcuts_accept_plus_equals_and_minus_with_platform_modifier() {
    for key in ["+", "=", "plus"] {
        assert_eq!(composer_font_shortcut_step(key, true), Some(1));
    }
    for key in ["-", "minus"] {
        assert_eq!(composer_font_shortcut_step(key, true), Some(-1));
    }
    assert_eq!(composer_font_shortcut_step("+", false), None);
    assert_eq!(composer_font_shortcut_step("-", false), None);
    assert_eq!(composer_font_shortcut_step("0", true), None);
}

#[test]
fn submission_targets_visible_live_terminals_in_stable_order() {
    let visible = vec![
        ("pane-b".to_owned(), true, true),
        ("browser".to_owned(), false, true),
        ("missing".to_owned(), true, false),
        ("pane-a".to_owned(), true, true),
        ("pane-b".to_owned(), true, true),
    ];
    assert_eq!(
        submission_target_ids("active", true, visible.clone()),
        ["pane-b", "pane-a"]
    );
    assert_eq!(submission_target_ids("active", false, visible), ["active"]);
}

#[test]
fn file_attachment_deduplication_preserves_first_seen_order() {
    let attachments = add_attachments(
        vec!["/tmp/one".to_owned()],
        vec!["/tmp/two".to_owned(), "/tmp/one".to_owned()],
    );
    assert_eq!(attachments, ["/tmp/one", "/tmp/two"]);
}

#[test]
fn new_attachments_are_deduplicated_among_themselves() {
    let attachments = add_attachments(
        Vec::new(),
        vec!["/a".to_owned(), "/b".to_owned(), "/a".to_owned(), "/c".to_owned()],
    );
    assert_eq!(attachments, ["/a", "/b", "/c"]);
}

#[test]
fn removing_an_attachment_keeps_the_others_in_order() {
    let current = vec!["/a".to_owned(), "/b".to_owned(), "/c".to_owned()];
    assert_eq!(remove_attachment(&current, "/b"), ["/a", "/c"]);
    assert_eq!(remove_attachment(&current, "/z"), ["/a", "/b", "/c"]);
}

#[test]
fn desktop_notification_title_default_and_focus_policy_are_exact() {
    assert_eq!(
        desktop_notification_title(String::new()),
        "Command executed!"
    );
    assert_eq!(desktop_notification_title("  ".to_owned()), "  ",);
    assert_eq!(desktop_notification_title("Done".to_owned()), "Done");
    assert!(desktop_notification_is_sound_only(true, true));
    assert!(!desktop_notification_is_sound_only(true, false));
    assert!(!desktop_notification_is_sound_only(false, true));
    assert!(!desktop_notification_is_sound_only(false, false));
}

#[test]
fn composer_only_suppresses_terminal_input_while_its_editor_is_focused() {
    assert!(terminal_input_overlay_active(false, false, true));
    assert!(!terminal_input_overlay_active(false, false, false));
    assert!(terminal_input_overlay_active(true, false, false));
    assert!(terminal_input_overlay_active(false, true, false));
}

#[test]
fn finished_progress_and_new_bells_ask_for_attention() {
    assert_eq!(
        indicator_update(true, false, 3, 3),
        IndicatorUpdate {
            attention: true,
            bell_flash: false
        }
    );
    assert_eq!(
        indicator_update(false, false, 3, 4),
        IndicatorUpdate {
            attention: true,
            bell_flash: true
        }
    );
    assert_eq!(
        indicator_update(false, true, 3, 3),
        IndicatorUpdate {
            attention: false,
            bell_flash: false
        }
    );
}

#[test]
fn attention_stays_on_inactive_roots_and_unfocused_split_panes() {
    assert!(shows_terminal_attention(false, Some("a"), "a", true));
    assert!(shows_terminal_attention(true, Some("a"), "b", true));
    assert!(!shows_terminal_attention(true, Some("a"), "a", true));
    assert!(!shows_terminal_attention(false, None, "a", false));
}

#[test]
fn unread_dot_never_replaces_progress_or_bell_and_coexists_with_attention() {
    let unread = TabIndicator {
        unread: true,
        ..Default::default()
    };
    assert!(shows_tab_indicator_dot(unread));
    assert!(!shows_tab_indicator_dot(TabIndicator {
        progress_active: true,
        ..unread
    }));
    assert!(!shows_tab_indicator_dot(TabIndicator {
        bell_flashing: true,
        ..unread
    }));
    assert!(shows_tab_indicator_dot(TabIndicator {
        progress_active: true,
        shows_attention: true,
        ..unread
    }));
}

#[test]
fn chrome_tab_strip_contract_excludes_the_browser_action() {
    assert_eq!(
        strip_action_ids(false, false),
        vec!["split-right", "split-down"]
    );
    assert_eq!(
        strip_action_ids(true, true),
        vec!["maximize", "split-right", "split-down", "apply-layout"]
    );
}

fn pane(tab_id: &str, live: bool, progress: bool, bell: Option<u128>, attention: bool) -> PaneState {
    PaneState {
        tab_id: tab_id.to_owned(),
        is_terminal: true,
        live,
        progress_active: progress,
        bell_deadline: bell,
        has_attention: attention,
    }
}

#[test]
fn pane_indicator_reads_only_live_terminals() {
    let panes = vec![
        pane("dead", false, true, Some(100), true),
        pane("a", true, false, Some(5), true),
        pane("b", true, true, Some(100), false),
        pane("c", true, true, None, false),
    ];
    let (indicator, progress) = pane_indicator(&panes, 10, true, Some("a"), Some(true));
    assert_eq!(progress, Some(2));
    assert_eq!(
        indicator,
        TabIndicator {
            progress_active: true,
            shows_attention: false,
            bell_flashing: true,
            unread: true,
        }
    );
    let (indicator, progress) = pane_indicator(&panes, 200, false, Some("a"), None);
    assert_eq!(progress, Some(2));
    assert!(indicator.shows_attention);
    assert!(!indicator.bell_flashing);
    assert!(!indicator.unread);
}

#[test]
fn relative_root_selection_wraps_in_both_directions() {
    let order = vec!["a".to_owned(), "b".to_owned(), "c".to_owned()];
    assert_eq!(relative_root_index(&order, Some("c"), 1), Some(0));
    assert_eq!(relative_root_index(&order, Some("a"), -1), Some(2));
    assert_eq!(relative_root_index(&order, Some("b"), 4), Some(2));
    assert_eq!(relative_root_index(&order, Some("zzz"), 1), Some(1));
    assert_eq!(relative_root_index(&order, None, -7), Some(2));
    assert_eq!(relative_root_index(&Vec::new(), Some("a"), 1), None);
}

#[test]
fn attaching_the_same_files_again_changes_nothing() {
    let paths = vec!["/b".to_owned(), "/a".to_owned(), "/b".to_owned()];
    let once = add_attachments(vec!["/a".to_owned()], paths.clone());
    let twice = add_attachments(once.clone(), paths);
    assert_eq!(once, ["/a", "/b"]);
    assert_eq!(twice, once);
}
