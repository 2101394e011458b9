use std::collections::HashMap;

use muxy::composer_flow::{
    broadcast_start, broadcast_step, clear_start, clear_step, release_start, release_step,
    submission_failure_message, BroadcastAction, ClearAction, ClearState, ReleaseAction,
    ReleasePlan, ReleaseState,
};

#[derive(Clone, Debug, PartialEq)]
struct Draft {
    text: String,
    attachments: Vec<String>,
    revision: u64,
}

/// An in-memory draft store whose disk writes can be made to fail.
#[derive(Default)]
struct Store {
    drafts: HashMap<String, Draft>,
    on_disk: HashMap<String, Draft>,
    revision: u64,
    disk_broken: bool,
}

impl Store {
    fn edit_content(&mut self, id: &str, text: String, attachments: Vec<String>) -> Result<u64, String> {
        self.revision += 1;
        if text.is_empty() && attachments.is_empty() {
            self.drafts.remove(id);
        } else {
            self.drafts.insert(
                id.to_owned(),
                Draft { text, attachments, revision: self.revision },
            );
        }
        Ok(self.revision)
    }

    fn flush(&mut self) -> Result<(), String> {
        if self.disk_broken {
            return Err("Is a directory (os error 21)".to_owned());
        }
        self.on_disk = self.drafts.clone();
        Ok(())
    }

    fn clear_if_revision(&mut self, id: &str, revision: u64) -> Result<bool, String> {
        match self.drafts.get(id) {
            Some(draft) if draft.revision == revision => {
                self.drafts.remove(id);
                Ok(true)
            }
            _ => Ok(false),
        }
    }
}

fn publish(store: &mut Store, id: &str, text: &str, attachments: &[&str], clear: bool) -> Result<(), String> {
    let plan = ReleasePlan {
        text: text.to_owned(),
        attachments: attachments.iter().map(|a| a.to_string()).collect(),
        clear,
    };
    let (mut state, mut action) = release_start(&plan);
    loop {
        let reply = match action {
            ReleaseAction::Edit { text, attachments } => {
                store.edit_content(id, text, attachments).map(|_| ())
            }
            ReleaseAction::Flush => store.flush(),
            ReleaseAction::Finish(outcome) => return outcome,
        };
        (state, action) = release_step(&plan, state, reply);
    }
}

fn clear_completed(store: &mut Store, id: &str, revision: u64, should_clear: bool) -> Result<bool, String> {
    let retained = store.drafts.get(id).cloned();
    let (mut state, mut action) = clear_start(should_clear);
    loop {
        let reply = match action {
            ClearAction::ClearIfRevision => store.clear_if_revision(id, revision),
            ClearAction::Flush => store.flush().map(|_| true),
            ClearAction::RestoreDraft => {
                if let Some(draft) = retained.clone() {
                    store.drafts.insert(id.to_owned(), draft);
                }
                Ok(true)
            }
            ClearAction::Finish(outcome) => return outcome,
        };
        (state, action) = clear_step(retained.is_some(), state, reply);
    }
}

#[test]
fn broadcast_continues_after_an_earlier_pane_fails() {
    let targets = vec!["pane-a".to_owned(), "pane-b".to_owned()];
    let mut visited = Vec::new();
    let (mut state, mut action) = broadcast_start(&targets);
    let result = loop {
        match action {
            BroadcastAction::Enqueue(pane_id) => {
                let reply = if pane_id == "pane-a" {
                    Err("SendFailed".to_owned())
                } else {
                    Ok(())
                };
                visited.push(pane_id);
                (state, action) = broadcast_step(&targets, state, Some(reply));
            }
            BroadcastAction::Finish(result) => break result,
        }
    };
    assert_eq!(visited, ["pane-a", "pane-b"]);
    assert_eq!(result.unwrap(), ["pane-a: SendFailed"]);
}

#[test]
fn broadcast_stops_when_a_pane_cannot_be_asked() {
    let targets = vec!["pane-a".to_owned(), "pane-b".to_owned()];
    let (state, action) = broadcast_start(&targets);
    assert_eq!(action, BroadcastAction::Enqueue("pane-a".to_owned()));
    let (state, action) = broadcast_step(&targets, state, None);
    assert_eq!(action, BroadcastAction::Finish(None));
    let (_, action) = broadcast_step(&targets, state, Some(Ok(())));
    assert_eq!(action, BroadcastAction::Finish(None));
    let (_, action) = broadcast_start(&Vec::new());
    assert_eq!(action, BroadcastAction::Finish(Some(Vec::new())));
}

#[test]
fn failure_message_lists_every_failed_pane() {
    assert_eq!(submission_failure_message(&Vec::new()), None);
    assert_eq!(
        submission_failure_message(&vec!["a: SendFailed".to_owned(), "b: Cancelled".to_owned()]),
        Some("Failed to send to a: SendFailed, b: Cancelled".to_owned())
    );
}

#[test]
fn release_publication_clears_only_when_requested() {
    let mut store = Store::default();
    publish(&mut store, "draft", "keep", &["/tmp/keep"], false).unwrap();
    assert_eq!(store.drafts["draft"].text, "keep");
    publish(&mut store, "draft", "clear", &["/tmp/clear"], true).unwrap();
    assert!(!store.drafts.contains_key("draft"));
    assert!(!store.on_disk.contains_key("draft"));
}

#[test]
fn failed_clear_publication_retains_the_live_editor_in_store() {
    let mut store = Store::default();
    store.edit_content("draft", "before".to_owned(), Vec::new()).unwrap();
    store.flush().unwrap();
    store.disk_broken = true;
    assert_eq!(
        publish(&mut store, "draft", "live", &["/tmp/live"], true),
        Err("Is a directory (os error 21)".to_owned())
    );
    let retained = &store.drafts["draft"];
    assert_eq!(retained.text, "live");
    assert_eq!(retained.attachments, ["/tmp/live"]);
}

#[test]
fn a_failed_restore_reports_both_errors() {
    let plan = ReleasePlan { text: "live".to_owned(), attachments: Vec::new(), clear: true };
    let (_, action) = release_step(
        &plan,
        ReleaseState::Restoring("write failed".to_owned()),
        Err("edit failed".to_owned()),
    );
    assert_eq!(
        action,
        ReleaseAction::Finish(Err(
            "write failed; failed to retain the Composer editor after publication failure: edit failed"
                .to_owned()
        ))
    );
    let (_, action) = clear_step(
        true,
        ClearState::Restoring("write failed".to_owned()),
        Err("replace failed".to_owned()),
    );
    assert_eq!(
        action,
        ClearAction::Finish(Err(
            "write failed; failed to restore the Composer draft: replace failed".to_owned()
        ))
    );
}

#[test]
fn edit_during_submission_prevents_revision_safe_clear() {
    let mut store = Store::default();
    let submitted = store.edit_content("draft", "submitted".to_owned(), Vec::new()).unwrap();
    store
        .edit_content("draft", "edited while sending".to_owned(), Vec::new())
        .unwrap();
    assert!(!clear_completed(&mut store, "draft", submitted, true).unwrap());
    assert_eq!(store.drafts["draft"].text, "edited while sending");
}

#[test]
fn failed_submission_clear_publication_restores_retained_draft() {
    let mut store = Store::default();
    let revision = store
        .edit_content("draft", "retained editor".to_owned(), vec!["/tmp/retained".to_owned()])
        .unwrap();
    store.flush().unwrap();
    store.disk_broken = true;
    assert!(clear_completed(&mut store, "draft", revision, true).is_err());
    let retained = &store.drafts["draft"];
    assert_eq!(retained.text, "retained editor");
    assert_eq!(retained.attachments, ["/tmp/retained"]);
}

#[test]
fn a_submission_that_should_not_clear_leaves_the_store_alone() {
    let mut store = Store::default();
    let revision = store.edit_content("draft", "text".to_owned(), Vec::new()).unwrap();
    assert_eq!(clear_completed(&mut store, "draft", revision, false), Ok(false));
    assert_eq!(store.drafts["draft"].text, "text");
    assert_eq!(clear_completed(&mut store, "draft", revision, true), Ok(true));
    assert!(!store.on_disk.contains_key("draft"));
}
