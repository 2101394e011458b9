use muxy::status_bar::{
    RepositoryControl, RepositoryControlKind, RepositoryControlTone, StatusPathAction,
    abbreviate_path, ai_chip_availability, ai_chip_controls, context_path_actions, path_command, path_menu_items,
    primary_path_action, reveal_failure, status_control_id, status_control_ids, status_controls,
    truncate_path, StatusPathCommand,
};

fn ids(has_path: bool, repository: &[RepositoryControl]) -> Vec<&'static str> {
    status_controls(has_path, repository)
        .iter()
        .map(status_control_id)
        .collect()
}

fn control(kind: RepositoryControlKind, label: &str, enabled: bool) -> RepositoryControl {
    RepositoryControl {
        kind,
        label: label.to_owned(),
        tooltip: label.to_owned(),
        enabled,
        tone: RepositoryControlTone::Default,
    }
}

#[test]
fn status_path_local_and_remote_actions_are_truthful() {
    assert_eq!(primary_path_action(false), StatusPathAction::Reveal);
    assert_eq!(primary_path_action(true), StatusPathAction::Copy);
    assert_eq!(
        context_path_actions(false),
        vec![StatusPathAction::Copy, StatusPathAction::Reveal]
    );
    assert_eq!(context_path_actions(true), vec![StatusPathAction::Copy]);
}

#[test]
fn status_path_reveal_errors_map_to_the_existing_alert_surface() {
    assert_eq!(
        reveal_failure("/missing/project", "launch failed"),
        (
            "Could Not Reveal Path".to_owned(),
            "Muxy could not reveal /missing/project: launch failed".to_owned(),
        )
    );
}

#[test]
fn chrome_status_contract_excludes_later_owned_controls() {
    assert_eq!(status_control_ids(true), vec!["status-path"]);
    assert!(status_control_ids(false).is_empty());
    assert_eq!(status_control_ids(true), vec!["status-path"]);
}

#[test]
fn phase_six_separates_the_path_and_branch_without_a_leading_separator() {
    let repository = vec![RepositoryControl {
        kind: RepositoryControlKind::Branch,
        label: "main".to_owned(),
        tooltip: "No upstream".to_owned(),
        enabled: true,
        tone: RepositoryControlTone::Default,
    }];
    assert_eq!(
        ids(true, &repository),
        ["status-path", "status-separator", "status-branch"]
    );
    assert_eq!(ids(false, &repository), ["status-branch"]);
}

#[test]
fn phase_seven_orders_branch_and_changes_with_section_separators() {
    let repository = vec![
        RepositoryControl {
            kind: RepositoryControlKind::Branch,
            label: "main".to_owned(),
            tooltip: "No upstream".to_owned(),
            enabled: true,
            tone: RepositoryControlTone::Default,
        },
        RepositoryControl {
            kind: RepositoryControlKind::Changes,
            label: "2 Changes".to_owned(),
            tooltip: "1 staged · 1 unstaged".to_owned(),
            enabled: true,
            tone: RepositoryControlTone::Dirty,
        },
    ];
    assert_eq!(
        ids(true, &repository),
        [
            "status-path",
            "status-separator",
            "status-branch",
            "status-separator",
            "status-changes",
        ]
    );
}

#[test]
fn phase_eight_adds_only_actionable_pull_requests_after_changes() {
    let mut repository = vec![
        RepositoryControl {
            kind: RepositoryControlKind::Branch,
            label: "main".to_owned(),
            tooltip: "No upstream".to_owned(),
            enabled: true,
            tone: RepositoryControlTone::Default,
        },
        RepositoryControl {
            kind: RepositoryControlKind::Changes,
            label: "Clean".to_owned(),
            tooltip: "Clean".to_owned(),
            enabled: true,
            tone: RepositoryControlTone::Clean,
        },
        RepositoryControl {
            kind: RepositoryControlKind::PullRequest,
            label: "#42".to_owned(),
            tooltip: "Pull request #42".to_owned(),
            enabled: true,
            tone: RepositoryControlTone::Clean,
        },
    ];
    assert_eq!(
        ids(true, &repository),
        [
            "status-path",
            "status-separator",
            "status-branch",
            "status-separator",
            "status-changes",
            "status-separator",
            "status-pull-request",
        ]
    );

    repository[2].enabled = false;
    assert!(ids(true, &repository).contains(&"status-pull-request"));
    repository[2].label = "Pull Request".to_owned();
    repository[2].tone = RepositoryControlTone::Default;
    assert!(!ids(true, &repository).contains(&"status-pull-request"));
    repository[2].label = "Retry PR".to_owned();
    repository[2].tone = RepositoryControlTone::Danger;
    repository[2].enabled = true;
    assert!(ids(true, &repository).contains(&"status-pull-request"));
}

#[test]
fn phase_ten_orders_ai_actions_between_changes_and_pull_request_state() {
    let repository = vec![
        control(RepositoryControlKind::Branch, "main", true),
        control(RepositoryControlKind::Changes, "2 Changes", true),
        control(RepositoryControlKind::CommitAi, "Commit", true),
        control(RepositoryControlKind::CreatePullRequestAi, "Create PR", true),
    ];
    assert_eq!(
        ids(true, &repository),
        [
            "status-path",
            "status-separator",
            "status-branch",
            "status-separator",
            "status-changes",
            "status-separator",
            "status-commit-ai",
            "status-separator",
            "status-create-pr-ai",
        ]
    );

    let mut pull_request = control(RepositoryControlKind::PullRequest, "#42", true);
    pull_request.tone = RepositoryControlTone::Clean;
    let found = vec![
        repository[0].clone(),
        repository[1].clone(),
        repository[2].clone(),
        pull_request,
    ];
    let found_ids = ids(false, &found);
    assert!(found_ids.contains(&"status-commit-ai"));
    assert!(found_ids.contains(&"status-pull-request"));
    assert!(!found_ids.contains(&"status-create-pr-ai"));
}

#[test]
fn provider_menu_remains_available_when_the_ai_action_cannot_run() {
    assert_eq!(
        ai_chip_availability(false, false, false, true),
        (false, true)
    );
    assert_eq!(ai_chip_availability(true, true, true, true), (true, false));
    assert_eq!(
        ai_chip_availability(true, false, true, true),
        (false, false)
    );
}

#[test]
fn separators_never_lead_or_trail_and_never_repeat() {
    let repository = vec![
        control(RepositoryControlKind::CommitAi, "Commit", true),
        control(RepositoryControlKind::PullRequest, "Pull Request", true),
    ];
    assert_eq!(ids(false, &repository), ["status-commit-ai"]);
    assert!(ids(false, &[]).is_empty());
}

#[test]
fn path_menu_offers_reveal_only_for_local_paths() {
    let local = path_menu_items("/tmp/a".to_owned(), false);
    assert_eq!(local.len(), 2);
    assert_eq!(local[0].label, "Copy Path");
    assert_eq!(local[0].command, StatusPathCommand::CopyStatusPath("/tmp/a".to_owned()));
    assert_eq!(local[1].label, "Reveal");
    assert_eq!(local[1].command, StatusPathCommand::RevealStatusPath("/tmp/a".to_owned()));
    let remote = path_menu_items("/tmp/a".to_owned(), true);
    assert_eq!(remote.len(), 1);
    assert_eq!(
        path_command(StatusPathAction::Reveal, "x".to_owned()),
        StatusPathCommand::RevealStatusPath("x".to_owned())
    );
}

#[test]
fn long_paths_keep_their_last_characters_behind_an_ellipsis() {
    assert_eq!(truncate_path("/short/path"), "/short/path");
    let exact: String = "a".repeat(40);
    assert_eq!(truncate_path(&exact), exact);
    let long = format!("/root/{}", "b".repeat(60));
    let shown = truncate_path(&long);
    assert_eq!(shown.chars().count(), 40);
    assert!(shown.starts_with('…'));
    assert_eq!(shown, format!("…{}", "b".repeat(39)));
    let accented = "é".repeat(45);
    assert_eq!(truncate_path(&accented), format!("…{}", "é".repeat(39)));
}

#[test]
fn home_prefix_is_written_as_a_tilde() {
    assert_eq!(abbreviate_path("/Users/me/code", "/Users/me"), "~/code");
    assert_eq!(abbreviate_path("/Users/me", "/Users/me"), "~");
    assert_eq!(abbreviate_path("/tmp/code", "/Users/me"), "/tmp/code");
    assert_eq!(abbreviate_path("/tmp/code", ""), "/tmp/code");
    assert_eq!(abbreviate_path("/Users/meta", "/Users/me"), "~ta");
}

#[test]
fn an_ai_chip_whose_label_ends_with_an_ellipsis_is_running() {
    let running = control(RepositoryControlKind::CommitAi, "Committing…", true);
    assert_eq!(ai_chip_controls(&running, true, true), (true, false));
    let idle = control(RepositoryControlKind::CommitAi, "Commit", true);
    assert_eq!(ai_chip_controls(&idle, true, true), (false, false));
    assert_eq!(ai_chip_controls(&idle, false, true), (true, true));
    let dots = control(RepositoryControlKind::CommitAi, "Commit...", true);
    assert_eq!(ai_chip_controls(&dots, true, true), (false, false));
}
