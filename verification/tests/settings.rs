use muxy::scoring::score;
use muxy::search_location::{search_location_row, search_location_source, LocationStatus};
use muxy::test_roots::{phase_4_status_path, test_close_request_path};
use muxy::worktree_settings::{
    persist_worktree_location, persisted_worktree_description, template_error,
    worktree_mode, worktree_validation_message, SettingWrite, WorktreeMode, WorktreeSetting,
};

#[test]
fn worktree_modes_round_trip_through_their_stored_names() {
    for mode in [WorktreeMode::Default, WorktreeMode::Template, WorktreeMode::Folder] {
        assert_eq!(WorktreeMode::parse(mode.raw()), mode);
    }
    assert_eq!(WorktreeMode::parse("bogus"), WorktreeMode::Default);
}

#[test]
fn worktree_mode_prefers_the_selection_then_the_saved_setting() {
    assert_eq!(worktree_mode(Some("folder"), "x/{branch}", ""), WorktreeMode::Folder);
    assert_eq!(worktree_mode(None, "x/{branch}", "/p"), WorktreeMode::Template);
    assert_eq!(worktree_mode(None, "  ", "/p"), WorktreeMode::Folder);
    assert_eq!(worktree_mode(None, "", " "), WorktreeMode::Default);
}

#[test]
fn template_errors_are_exact() {
    assert_eq!(template_error("  "), Some("Path template is required."));
    assert_eq!(
        template_error("~/work/x"),
        Some("Path template must include {branch}.")
    );
    assert_eq!(template_error("~/work/{branch}"), None);
}

#[test]
fn persisting_a_location_writes_both_settings() {
    assert_eq!(
        persist_worktree_location(WorktreeMode::Default, "ignored"),
        vec![
            SettingWrite { setting: WorktreeSetting::Template, value: String::new() },
            SettingWrite { setting: WorktreeSetting::Parent, value: String::new() },
        ]
    );
    assert_eq!(
        persist_worktree_location(WorktreeMode::Template, " ~/w/{branch} "),
        vec![
            SettingWrite { setting: WorktreeSetting::Template, value: "~/w/{branch}".to_owned() },
            SettingWrite { setting: WorktreeSetting::Parent, value: String::new() },
        ]
    );
    assert_eq!(
        persist_worktree_location(WorktreeMode::Folder, " /trees "),
        vec![
            SettingWrite { setting: WorktreeSetting::Parent, value: "/trees".to_owned() },
            SettingWrite { setting: WorktreeSetting::Template, value: String::new() },
        ]
    );
    assert!(persist_worktree_location(WorktreeMode::Template, "~/w").is_empty());
    assert!(persist_worktree_location(WorktreeMode::Folder, "   ").is_empty());
}

#[test]
fn validation_names_the_location_that_stays_active() {
    assert_eq!(persisted_worktree_description(" t/{branch} ", "/p"), "Saved template t/{branch}");
    assert_eq!(persisted_worktree_description("", " /p "), "Saved folder /p");
    assert_eq!(persisted_worktree_description("", ""), "App Default");
    assert_eq!(
        worktree_validation_message(WorktreeMode::Folder, " ", "", "/p"),
        Some("Folder is required. Saved folder /p remains active.".to_owned())
    );
    assert_eq!(
        worktree_validation_message(WorktreeMode::Template, "x", "", ""),
        Some("Path template must include {branch}. App Default remains active.".to_owned())
    );
    assert_eq!(worktree_validation_message(WorktreeMode::Default, "", "", ""), None);
    assert_eq!(worktree_validation_message(WorktreeMode::Folder, "/f", "", ""), None);
}

#[test]
fn scores_add_boundary_contiguity_and_head_start_bonuses() {
    assert_eq!(score("alpha", ""), Some(4));
    assert_eq!(score("alpha", "a"), Some(10));
    assert_eq!(score("zzz apple", "apple"), Some(38));
    assert_eq!(score("my-file", "f"), Some(7));
    assert_eq!(score("xxxxxxab", "b"), Some(0));
    assert_eq!(score("é a", "a"), Some(7));
    assert_eq!(score("abc", "abd"), None);
    assert_eq!(score("ba", "ab"), None);
}

#[test]
fn staged_close_request_requires_a_safe_injected_test_root() {
    let support = "/private/tmp/root/support";
    let home = "/private/tmp/root/home";
    assert_eq!(test_close_request_path(false, true, support, Some(support), home, false), None);
    assert_eq!(test_close_request_path(true, false, support, Some(support), home, false), None);
    assert_eq!(test_close_request_path(true, true, support, None, home, false), None);
    assert_eq!(
        test_close_request_path(true, true, support, Some("/private/tmp/root"), home, false),
        None
    );
    let inside_home = "/private/tmp/root/home/.muxy";
    assert_eq!(
        test_close_request_path(true, true, inside_home, Some(inside_home), home, false),
        None
    );
    let parent = "/private/tmp/root/../support";
    assert_eq!(test_close_request_path(true, true, parent, Some(parent), home, false), None);
    assert_eq!(test_close_request_path(true, true, support, Some(support), home, true), None);
    assert_eq!(
        test_close_request_path(true, true, support, Some(support), home, false),
        Some("/private/tmp/root/support/.muxy-test-close-main-window".to_owned())
    );
}

#[test]
fn phase_4_status_requires_the_exact_isolated_test_case() {
    let support = "/private/tmp/root/support";
    let home = "/private/tmp/root/home";
    assert!(phase_4_status_path(false, Some("phase-4"), support, Some(support), home, true).is_none());
    assert!(phase_4_status_path(true, Some("other"), support, Some(support), home, true).is_none());
    assert!(phase_4_status_path(true, Some("phase-4"), support, Some(home), home, true).is_none());
    assert!(phase_4_status_path(true, Some("phase-4"), support, Some(support), home, false).is_none());
    assert_eq!(
        phase_4_status_path(true, Some("phase-4"), support, Some(support), home, true),
        Some("/private/tmp/root/support/.muxy-p7-panel-status.json".to_owned())
    );
}

#[test]
fn an_injected_root_is_compared_as_a_path() {
    let support = "/private/tmp/root/support";
    let home = "/private/tmp/root/home";
    assert_eq!(
        test_close_request_path(true, true, support, Some("/private/tmp/root/support/"), home, false),
        Some("/private/tmp/root/support/.muxy-test-close-main-window".to_owned())
    );
    assert_eq!(
        test_close_request_path(true, true, "relative/support", Some("relative/support"), home, false),
        None
    );
}

fn apply(writes: &[SettingWrite], template: &mut String, parent: &mut String) {
    for write in writes {
        match write.setting {
            WorktreeSetting::Template => *template = write.value.clone(),
            WorktreeSetting::Parent => *parent = write.value.clone(),
        }
    }
}

#[test]
fn a_stored_location_is_read_back() {
    let (mut template, mut parent) = ("old/{branch}".to_owned(), "/old".to_owned());
    apply(&persist_worktree_location(WorktreeMode::Folder, "  /trees "), &mut template, &mut parent);
    assert_eq!(worktree_mode(None, &template, &parent), WorktreeMode::Folder);
    assert_eq!(persisted_worktree_description(&template, &parent), "Saved folder /trees");
    apply(&persist_worktree_location(WorktreeMode::Template, " ~/w/{branch}"), &mut template, &mut parent);
    assert_eq!(worktree_mode(None, &template, &parent), WorktreeMode::Template);
    assert_eq!(persisted_worktree_description(&template, &parent), "Saved template ~/w/{branch}");
    apply(&persist_worktree_location(WorktreeMode::Default, ""), &mut template, &mut parent);
    assert_eq!(worktree_mode(None, &template, &parent), WorktreeMode::Default);
    assert_eq!(persisted_worktree_description(&template, &parent), "App Default");
}

#[test]
fn the_search_location_defaults_to_home_and_warns_when_unusable() {
    assert_eq!(search_location_source("   ", "/Users/me"), (true, "/Users/me".to_owned()));
    assert_eq!(search_location_source(" ~/code ", "/Users/me"), (false, "~/code".to_owned()));
    let ready = search_location_row(false, "/Users/me/code", LocationStatus::Ready, "/Users/me");
    assert_eq!(ready.warning, None);
    assert_eq!(ready.picker_directory, "/Users/me/code");
    assert!(ready.reset_enabled);
    let missing = search_location_row(true, "/gone", LocationStatus::Missing, "/Users/me");
    assert_eq!(
        missing.warning,
        Some("Search location no longer exists. Choose another folder or use the app default.")
    );
    assert_eq!(missing.picker_directory, "/Users/me");
    assert!(!missing.reset_enabled);
    assert_eq!(
        search_location_row(false, "/f", LocationStatus::NotDirectory, "/h").warning,
        Some("Search location is not a folder. Choose another folder or use the app default.")
    );
    assert_eq!(
        search_location_row(false, "/f", LocationStatus::Unreadable, "/h").warning,
        Some("Search location can\u{2019}t be read. Choose another folder, fix permissions, or use the app default.")
    );
}
