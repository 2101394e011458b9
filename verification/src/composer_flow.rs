use vstd::prelude::*;
use vstd::string::StringExecFns;
use crate::composer::string_seq;
use crate::text::{concat2, concat3};

verus! {

// Publishing a released draft

/// What releasing the Composer editor publishes: its text and file attachments, and
/// whether the editor is to be cleared once they are stored.
#[derive(Debug, Clone)]
pub struct ReleasePlan {
    pub text: String,
    pub attachments: Vec<String>,
    pub clear: bool,
}

/// Where the publication of a released draft stands.
#[derive(Debug, PartialEq, Eq)]
pub enum ReleaseState {
    /// The editor's content is being stored.
    Storing,
    /// The store is being written, the content kept.
    FlushingKept,
    /// The stored draft is being emptied.
    Clearing,
    /// The store is being written after the draft was emptied.
    FlushingCleared,
    /// Writing the emptied draft failed with this error; the editor's content is being
    /// put back.
    Restoring(String),
    /// Done, with this outcome.
    Finished(Result<(), String>),
}

/// The abstract value of a [`ReleaseState`].
pub enum ReleaseStateView {
    Storing,
    FlushingKept,
    Clearing,
    FlushingCleared,
    Restoring(Seq<char>),
    Finished(Result<(), Seq<char>>),
}

/// What the draft store is asked next during a publication.
#[derive(Debug, PartialEq, Eq)]
pub enum ReleaseAction {
    /// Replace the draft's text and file attachments.
    Edit { text: String, attachments: Vec<String> },
    /// Write the store to disk.
    Flush,
    /// Nothing more: the publication's outcome.
    Finish(Result<(), String>),
}

/// The abstract value of a [`ReleaseAction`].
pub enum ReleaseActionView {
    Edit { text: Seq<char>, attachments: Seq<Seq<char>> },
    Flush,
    Finish(Result<(), Seq<char>>),
}

/// The view of an outcome whose error is a message.
pub open spec fn unit_result_view(r: Result<(), String>) -> Result<(), Seq<char>> {
    match r {
        Ok(()) => Ok(()),
        Err(e) => Err(e@),
    }
}

impl View for ReleaseState {
    type V = ReleaseStateView;

    open spec fn view(&self) -> ReleaseStateView {
        match self {
            ReleaseState::Storing => ReleaseStateView::Storing,
            ReleaseState::FlushingKept => ReleaseStateView::FlushingKept,
            ReleaseState::Clearing => ReleaseStateView::Clearing,
            ReleaseState::FlushingCleared => ReleaseStateView::FlushingCleared,
            ReleaseState::Restoring(e) => ReleaseStateView::Restoring(e@),
            ReleaseState::Finished(r) => ReleaseStateView::Finished(unit_result_view(*r)),
        }
    }
}

impl View for ReleaseAction {
    type V = ReleaseActionView;

    open spec fn view(&self) -> ReleaseActionView {
        match self {
            ReleaseAction::Edit { text, attachments } => ReleaseActionView::Edit {
                text: text@,
                attachments: string_seq(attachments@),
            },
            ReleaseAction::Flush => ReleaseActionView::Flush,
            ReleaseAction::Finish(r) => ReleaseActionView::Finish(unit_result_view(*r)),
        }
    }
}

/// Added to a failed write when putting back the editor's content failed too.
pub open spec fn retain_failure_note() -> Seq<char> {
    "; failed to retain the Composer editor after publication failure: "@
}

/// The step of a publication: from where it stands and the store's reply to the last
/// request, where it goes and what it asks next. The content is stored first; then either
/// the store is written, or (when clearing) the draft is emptied and the store written. A
/// failed write after emptying puts the editor's content back and reports the write's
/// error, with the second error added when that fails too.
pub open spec fn release_next(
    text: Seq<char>,
    attachments: Seq<Seq<char>>,
    clear: bool,
    state: ReleaseStateView,
    reply: Result<(), Seq<char>>,
) -> (ReleaseStateView, ReleaseActionView) {
    match state {
        ReleaseStateView::Storing => match reply {
            Err(e) => (ReleaseStateView::Finished(Err(e)), ReleaseActionView::Finish(Err(e))),
            Ok(()) => if clear {
                (
                    ReleaseStateView::Clearing,
                    ReleaseActionView::Edit { text: Seq::empty(), attachments: Seq::empty() },
                )
            } else {
                (ReleaseStateView::FlushingKept, ReleaseActionView::Flush)
            },
        },
        ReleaseStateView::FlushingKept => (
            ReleaseStateView::Finished(reply),
            ReleaseActionView::Finish(reply),
        ),
        ReleaseStateView::Clearing => match reply {
            Err(e) => (ReleaseStateView::Finished(Err(e)), ReleaseActionView::Finish(Err(e))),
            Ok(()) => (ReleaseStateView::FlushingCleared, ReleaseActionView::Flush),
        },
        ReleaseStateView::FlushingCleared => match reply {
            Ok(()) => (ReleaseStateView::Finished(Ok(())), ReleaseActionView::Finish(Ok(()))),
            Err(e) => (
                ReleaseStateView::Restoring(e),
                ReleaseActionView::Edit { text, attachments },
            ),
        },
        ReleaseStateView::Restoring(e) => match reply {
            Ok(()) => (ReleaseStateView::Finished(Err(e)), ReleaseActionView::Finish(Err(e))),
            Err(r) => {
                let m = e + retain_failure_note() + r;
                (ReleaseStateView::Finished(Err(m)), ReleaseActionView::Finish(Err(m)))
            },
        },
        ReleaseStateView::Finished(r) => (
            ReleaseStateView::Finished(r),
            ReleaseActionView::Finish(r),
        ),
    }
}

/// How far a publication is from its end: every step brings it closer.
pub open spec fn release_rank(state: ReleaseStateView) -> nat {
    match state {
        ReleaseStateView::Storing => 4,
        ReleaseStateView::Clearing => 3,
        ReleaseStateView::FlushingCleared => 2,
        ReleaseStateView::FlushingKept => 1,
        ReleaseStateView::Restoring(_) => 1,
        ReleaseStateView::Finished(_) => 0,
    }
}

fn clone_result(r: &Result<(), String>) -> (c: Result<(), String>)
    ensures
        unit_result_view(c) == unit_result_view(*r),
{
    match r {
        Ok(()) => Ok(()),
        Err(e) => Err(e.clone()),
    }
}

/// A publication starts by storing the editor's content.
pub fn release_start(plan: &ReleasePlan) -> (start: (ReleaseState, ReleaseAction))
    ensures
        start.0@ == ReleaseStateView::Storing,
        start.1@ == (ReleaseActionView::Edit {
            text: plan.text@,
            attachments: string_seq(plan.attachments@),
        }),
{
    (
        ReleaseState::Storing,
        ReleaseAction::Edit { text: plan.text.clone(), attachments: plan.attachments.clone() },
    )
}

/// One step of a publication, given the store's reply to the last request.
pub fn release_step(plan: &ReleasePlan, state: ReleaseState, reply: Result<(), String>) -> (next: (
    ReleaseState,
    ReleaseAction,
))
    ensures
        (next.0@, next.1@) == release_next(
            plan.text@,
            string_seq(plan.attachments@),
            plan.clear,
            state@,
            unit_result_view(reply),
        ),
{
    match state {
        ReleaseState::Storing => match reply {
            Err(e) => (ReleaseState::Finished(Err(e.clone())), ReleaseAction::Finish(Err(e))),
            Ok(()) => if plan.clear {
                let empty: Vec<String> = Vec::new();
                assert(string_seq(empty@) =~= Seq::<Seq<char>>::empty());
                (ReleaseState::Clearing, ReleaseAction::Edit { text: String::new(), attachments: empty })
            } else {
                (ReleaseState::FlushingKept, ReleaseAction::Flush)
            },
        },
        ReleaseState::FlushingKept => {
            let r = clone_result(&reply);
            (ReleaseState::Finished(r), ReleaseAction::Finish(reply))
        },
        ReleaseState::Clearing => match reply {
            Err(e) => (ReleaseState::Finished(Err(e.clone())), ReleaseAction::Finish(Err(e))),
            Ok(()) => (ReleaseState::FlushingCleared, ReleaseAction::Flush),
        },
        ReleaseState::FlushingCleared => match reply {
            Ok(()) => (ReleaseState::Finished(Ok(())), ReleaseAction::Finish(Ok(()))),
            Err(e) => (
                ReleaseState::Restoring(e),
                ReleaseAction::Edit { text: plan.text.clone(), attachments: plan.attachments.clone() },
            ),
        },
        ReleaseState::Restoring(e) => match reply {
            Ok(()) => (ReleaseState::Finished(Err(e.clone())), ReleaseAction::Finish(Err(e))),
            Err(r) => {
                let m = concat3(
                    e.as_str(),
                    "; failed to retain the Composer editor after publication failure: ",
                    r.as_str(),
                );
                (ReleaseState::Finished(Err(m.clone())), ReleaseAction::Finish(Err(m)))
            },
        },
        ReleaseState::Finished(r) => {
            let c = clone_result(&r);
            (ReleaseState::Finished(r), ReleaseAction::Finish(c))
        },
    }
}

/// The draft is only ever emptied when the release asked for it, right after its content
/// was stored; every other edit writes the editor's own text and attachments.
pub proof fn lemma_release_clears_only_when_requested(
    text: Seq<char>,
    attachments: Seq<Seq<char>>,
    clear: bool,
    state: ReleaseStateView,
    reply: Result<(), Seq<char>>,
)
    ensures
        release_next(text, attachments, clear, state, reply).1 matches ReleaseActionView::Edit {
            text: t,
            attachments: a,
        } ==> (t == text && a == attachments) || (clear && state is Storing && reply is Ok
            && t.len() == 0 && a.len() == 0),
{
}

/// When writing the emptied draft fails, the editor's content is put back, and the
/// publication then reports the write's error.
pub proof fn lemma_failed_clear_retains_the_editor(
    text: Seq<char>,
    attachments: Seq<Seq<char>>,
    clear: bool,
    error: Seq<char>,
)
    ensures
        release_next(text, attachments, clear, ReleaseStateView::FlushingCleared, Err(error))
            == (ReleaseStateView::Restoring(error), ReleaseActionView::Edit { text, attachments }),
        release_next(text, attachments, clear, ReleaseStateView::Restoring(error), Ok(()))
            == (ReleaseStateView::Finished(Err(error)), ReleaseActionView::Finish(Err(error))),
{
}

/// Every step of an unfinished publication brings it closer to its end, so it finishes
/// after at most five requests; a finished one stays finished.
pub proof fn lemma_release_finishes(
    text: Seq<char>,
    attachments: Seq<Seq<char>>,
    clear: bool,
    state: ReleaseStateView,
    reply: Result<(), Seq<char>>,
)
    ensures
        !(state is Finished) ==> release_rank(release_next(text, attachments, clear, state, reply).0)
            < release_rank(state),
        release_rank(release_next(text, attachments, clear, state, reply).0) == 0 <==> release_next(
            text,
            attachments,
            clear,
            state,
            reply,
        ).1 is Finish,
        state is Finished ==> release_next(text, attachments, clear, state, reply).0 == state,
{
}

/// The state and request after the store's first `k` replies, from the start of a
/// publication.
pub open spec fn release_run(
    text: Seq<char>,
    attachments: Seq<Seq<char>>,
    clear: bool,
    replies: Seq<Result<(), Seq<char>>>,
    k: nat,
) -> (ReleaseStateView, ReleaseActionView)
    decreases k,
{
    if k == 0 {
        (ReleaseStateView::Storing, ReleaseActionView::Edit { text, attachments })
    } else {
        release_next(
            text,
            attachments,
            clear,
            release_run(text, attachments, clear, replies, (k - 1) as nat).0,
            replies[k - 1],
        )
    }
}

/// A failed reply is never turned into success: whatever the state, a store error either
/// leads to another request or finishes the publication with an error.
pub proof fn lemma_release_keeps_errors(
    text: Seq<char>,
    attachments: Seq<Seq<char>>,
    clear: bool,
    state: ReleaseStateView,
    error: Seq<char>,
)
    ensures
        !(state is Finished) ==> (release_next(text, attachments, clear, state, Err(error)).1 matches ReleaseActionView::Finish(
            r,
        ) ==> r is Err),
        !(state is Finished) ==> (release_next(text, attachments, clear, state, Err(error)).0 matches ReleaseStateView::Finished(
            r,
        ) ==> r is Err),
{
}

/// A step can only report success right after the store answered a write with success (or
/// repeat a success already reported), and a write is what every publication asks next once
/// the editor's content is stored and nothing is to be cleared.
pub proof fn lemma_release_success_follows_a_flush(
    text: Seq<char>,
    attachments: Seq<Seq<char>>,
    clear: bool,
    state: ReleaseStateView,
    reply: Result<(), Seq<char>>,
)
    ensures
        release_next(text, attachments, clear, state, reply).1 == ReleaseActionView::Finish(Ok(()))
            ==> ((state is FlushingKept || state is FlushingCleared) && reply is Ok) || state
            == ReleaseStateView::Finished(Ok(())),
        release_next(text, attachments, false, ReleaseStateView::Storing, Ok(())) == (
            ReleaseStateView::FlushingKept,
            ReleaseActionView::Flush,
        ),
        (release_next(text, attachments, clear, state, reply).0 is FlushingKept || release_next(
            text,
            attachments,
            clear,
            state,
            reply,
        ).0 is FlushingCleared) ==> release_next(text, attachments, clear, state, reply).1
            is Flush,
        release_next(text, attachments, clear, state, reply).0 matches ReleaseStateView::Finished(r)
            ==> release_next(text, attachments, clear, state, reply).1 == ReleaseActionView::Finish(r),
{
}

/// A publication that reports success has written the store: some earlier request was a
/// write that the store answered with success, and from the step after it on the
/// publication has only reported that success.
pub proof fn lemma_release_success_was_written(
    text: Seq<char>,
    attachments: Seq<Seq<char>>,
    clear: bool,
    replies: Seq<Result<(), Seq<char>>>,
    k: nat,
) -> (flush: nat)
    requires
        k <= replies.len(),
        release_run(text, attachments, clear, replies, k).1 == ReleaseActionView::Finish(Ok(())),
    ensures
        flush < k,
        release_run(text, attachments, clear, replies, flush).1 is Flush,
        replies[flush as int] is Ok,
        forall|i: nat|
            flush < i <= k ==> #[trigger] release_run(text, attachments, clear, replies, i).1
                == ReleaseActionView::Finish(Ok(())),
    decreases k,
{
    let prev = release_run(text, attachments, clear, replies, (k - 1) as nat);
    if k == 0 {
        assert(false);
    }
    lemma_release_success_follows_a_flush(text, attachments, clear, prev.0, replies[k - 1]);
    if prev.0 == ReleaseStateView::Finished(Ok(())) {
        if k - 1 > 0 {
            let before = release_run(text, attachments, clear, replies, (k - 2) as nat);
            lemma_release_success_follows_a_flush(text, attachments, clear, before.0, replies[k - 2]);
        }
        assert(prev.1 == ReleaseActionView::Finish(Ok(())));
        let j = lemma_release_success_was_written(text, attachments, clear, replies, (k - 1) as nat);
        assert forall|i: nat| j < i <= k implies #[trigger] release_run(
            text,
            attachments,
            clear,
            replies,
            i,
        ).1 == ReleaseActionView::Finish(Ok(())) by {
            if i < k {
            }
        }
        j
    } else {
        if k - 1 > 0 {
            let before = release_run(text, attachments, clear, replies, (k - 2) as nat);
            lemma_release_success_follows_a_flush(text, attachments, clear, before.0, replies[k - 2]);
        }
        assert(prev.1 is Flush);
        let km: nat = (k - 1) as nat;
        assert forall|i: nat| km < i <= k implies #[trigger] release_run(
            text,
            attachments,
            clear,
            replies,
            i,
        ).1 == ReleaseActionView::Finish(Ok(())) by {
            assert(i == k);
        }
        (k - 1) as nat
    }
}

// Clearing a draft after a submission

/// Where clearing a submitted draft stands.
#[derive(Debug, PartialEq, Eq)]
pub enum ClearState {
    /// The draft is being cleared, if it is still at the submitted revision.
    Clearing,
    /// The store is being written after clearing.
    Flushing,
    /// Writing failed with this error; the draft as it was is being put back.
    Restoring(String),
    /// Done: whether the draft was cleared, or the error.
    Finished(Result<bool, String>),
}

/// The abstract value of a [`ClearState`].
pub enum ClearStateView {
    Clearing,
    Flushing,
    Restoring(Seq<char>),
    Finished(Result<bool, Seq<char>>),
}

/// What the draft store is asked next while clearing a submitted draft.
#[derive(Debug, PartialEq, Eq)]
pub enum ClearAction {
    /// Clear the draft if it is still at the submitted revision; the reply says whether it
    /// did.
    ClearIfRevision,
    /// Write the store to disk.
    Flush,
    /// Put back the draft as it was before clearing.
    RestoreDraft,
    /// Nothing more: whether the draft was cleared, or the error.
    Finish(Result<bool, String>),
}

/// The abstract value of a [`ClearAction`].
pub enum ClearActionView {
    ClearIfRevision,
    Flush,
    RestoreDraft,
    Finish(Result<bool, Seq<char>>),
}

/// The view of a store reply.
pub open spec fn bool_result_view(r: Result<bool, String>) -> Result<bool, Seq<char>> {
    match r {
        Ok(b) => Ok(b),
        Err(e) => Err(e@),
    }
}

impl View for ClearState {
    type V = ClearStateView;

    open spec fn view(&self) -> ClearStateView {
        match self {
            ClearState::Clearing => ClearStateView::Clearing,
            ClearState::Flushing => ClearStateView::Flushing,
            ClearState::Restoring(e) => ClearStateView::Restoring(e@),
            ClearState::Finished(r) => ClearStateView::Finished(bool_result_view(*r)),
        }
    }
}

impl View for ClearAction {
    type V = ClearActionView;

    open spec fn view(&self) -> ClearActionView {
        match self {
            ClearAction::ClearIfRevision => ClearActionView::ClearIfRevision,
            ClearAction::Flush => ClearActionView::Flush,
            ClearAction::RestoreDraft => ClearActionView::RestoreDraft,
            ClearAction::Finish(r) => ClearActionView::Finish(bool_result_view(*r)),
        }
    }
}

/// Added to a failed write when putting back the draft failed too.
pub open spec fn restore_failure_note() -> Seq<char> {
    "; failed to restore the Composer draft: "@
}

/// How clearing starts: a submission that should not clear its draft asks nothing of the
/// store and reports that nothing was cleared.
pub open spec fn clear_begin(should_clear: bool) -> (ClearStateView, ClearActionView) {
    if should_clear {
        (ClearStateView::Clearing, ClearActionView::ClearIfRevision)
    } else {
        (ClearStateView::Finished(Ok(false)), ClearActionView::Finish(Ok(false)))
    }
}

/// The step of clearing a submitted draft, given the store's reply to the last request.
/// A draft edited since the submission is kept; a failed write after clearing puts back
/// the draft as it was (when there was one) and reports the write's error, with the second
/// error added when that fails too.
pub open spec fn clear_next(has_retained: bool, state: ClearStateView, reply: Result<bool, Seq<char>>) -> (
    ClearStateView,
    ClearActionView,
) {
    match state {
        ClearStateView::Clearing => match reply {
            Err(e) => (ClearStateView::Finished(Err(e)), ClearActionView::Finish(Err(e))),
            Ok(false) => (ClearStateView::Finished(Ok(false)), ClearActionView::Finish(Ok(false))),
            Ok(true) => (ClearStateView::Flushing, ClearActionView::Flush),
        },
        ClearStateView::Flushing => match reply {
            Ok(_) => (ClearStateView::Finished(Ok(true)), ClearActionView::Finish(Ok(true))),
            Err(e) => if has_retained {
                (ClearStateView::Restoring(e), ClearActionView::RestoreDraft)
            } else {
                (ClearStateView::Finished(Err(e)), ClearActionView::Finish(Err(e)))
            },
        },
        ClearStateView::Restoring(e) => match reply {
            Ok(_) => (ClearStateView::Finished(Err(e)), ClearActionView::Finish(Err(e))),
            Err(r) => {
                let m = e + restore_failure_note() + r;
                (ClearStateView::Finished(Err(m)), ClearActionView::Finish(Err(m)))
            },
        },
        ClearStateView::Finished(r) => (ClearStateView::Finished(r), ClearActionView::Finish(r)),
    }
}

/// How far clearing is from its end: every step brings it closer.
pub open spec fn clear_rank(state: ClearStateView) -> nat {
    match state {
        ClearStateView::Clearing => 3,
        ClearStateView::Flushing => 2,
        ClearStateView::Restoring(_) => 1,
        ClearStateView::Finished(_) => 0,
    }
}

fn clone_bool_result(r: &Result<bool, String>) -> (c: Result<bool, String>)
    ensures
        bool_result_view(c) == bool_result_view(*r),
{
    match r {
        Ok(b) => Ok(*b),
        Err(e) => Err(e.clone()),
    }
}

/// How clearing a submitted draft starts.
pub fn clear_start(should_clear: bool) -> (start: (ClearState, ClearAction))
    ensures
        (start.0@, start.1@) == clear_begin(should_clear),
{
    if should_clear {
        (ClearState::Clearing, ClearAction::ClearIfRevision)
    } else {
        (ClearState::Finished(Ok(false)), ClearAction::Finish(Ok(false)))
    }
}

/// One step of clearing a submitted draft; `has_retained` tells whether the store held the
/// draft before clearing.
pub fn clear_step(has_retained: bool, state: ClearState, reply: Result<bool, String>) -> (next: (
    ClearState,
    ClearAction,
))
    ensures
        (next.0@, next.1@) == clear_next(has_retained, state@, bool_result_view(reply)),
{
    match state {
        ClearState::Clearing => match reply {
            Err(e) => (ClearState::Finished(Err(e.clone())), ClearAction::Finish(Err(e))),
            Ok(false) => (ClearState::Finished(Ok(false)), ClearAction::Finish(Ok(false))),
            Ok(true) => (ClearState::Flushing, ClearAction::Flush),
        },
        ClearState::Flushing => match reply {
            Ok(_) => (ClearState::Finished(Ok(true)), ClearAction::Finish(Ok(true))),
            Err(e) => if has_retained {
                (ClearState::Restoring(e), ClearAction::RestoreDraft)
            } else {
                (ClearState::Finished(Err(e.clone())), ClearAction::Finish(Err(e)))
            },
        },
        ClearState::Restoring(e) => match reply {
            Ok(_) => (ClearState::Finished(Err(e.clone())), ClearAction::Finish(Err(e))),
            Err(r) => {
                let m = concat3(e.as_str(), "; failed to restore the Composer draft: ", r.as_str());
                (ClearState::Finished(Err(m.clone())), ClearAction::Finish(Err(m)))
            },
        },
        ClearState::Finished(r) => {
            let c = clone_bool_result(&r);
            (ClearState::Finished(r), ClearAction::Finish(c))
        },
    }
}

/// A draft is only reported cleared once the store both cleared it at the submitted
/// revision and wrote it; a draft edited since the submission is kept.
pub proof fn lemma_cleared_only_when_stored(
    has_retained: bool,
    state: ClearStateView,
    reply: Result<bool, Seq<char>>,
)
    ensures
        clear_next(has_retained, state, reply).1 == ClearActionView::Finish(Ok(true)) ==> (
        state is Flushing && reply is Ok) || state == ClearStateView::Finished(Ok(true)),
        clear_next(has_retained, ClearStateView::Clearing, Ok(false)).1 == ClearActionView::Finish(
            Ok(false),
        ),
{
}

/// A failed reply is never turned into success: from any unfinished state, a store error
/// either leads to putting the draft back or finishes with an error, and a failure to clear
/// the draft is reported as it came.
pub proof fn lemma_clear_keeps_errors(has_retained: bool, state: ClearStateView, error: Seq<char>)
    ensures
        !(state is Finished) ==> (clear_next(has_retained, state, Err(error)).1 matches ClearActionView::Finish(
            r,
        ) ==> r is Err),
        !(state is Finished) ==> (clear_next(has_retained, state, Err(error)).0 matches ClearStateView::Finished(
            r,
        ) ==> r is Err),
        clear_next(has_retained, ClearStateView::Clearing, Err(error)) == (
            ClearStateView::Finished(Err(error)),
            ClearActionView::Finish(Err(error)),
        ),
{
}

/// When writing the cleared draft fails, the draft as it was is put back, and clearing then
/// reports the write's error.
pub proof fn lemma_failed_clear_restores_the_draft(error: Seq<char>)
    ensures
        clear_next(true, ClearStateView::Flushing, Err(error)) == (
            ClearStateView::Restoring(error),
            ClearActionView::RestoreDraft,
        ),
        clear_next(true, ClearStateView::Restoring(error), Ok(true)) == (
            ClearStateView::Finished(Err(error)),
            ClearActionView::Finish(Err(error)),
        ),
{
}

/// Every step of unfinished clearing brings it closer to its end, so it finishes after at
/// most four requests; finished clearing stays finished.
pub proof fn lemma_clear_finishes(has_retained: bool, state: ClearStateView, reply: Result<bool, Seq<char>>)
    ensures
        !(state is Finished) ==> clear_rank(clear_next(has_retained, state, reply).0) < clear_rank(
            state,
        ),
        clear_rank(clear_next(has_retained, state, reply).0) == 0 <==> clear_next(
            has_retained,
            state,
            reply,
        ).1 is Finish,
        state is Finished ==> clear_next(has_retained, state, reply).0 == state,
{
}

// Sending a submission to its panes

/// Where sending a submission to its target panes stands.
#[derive(Debug, Clone, PartialEq, Eq)]
pub struct BroadcastState {
    /// The index of the pane asked last, or of the next pane to ask.
    pub next: usize,
    /// One line per pane that reported a failure so far, in pane order.
    pub failures: Vec<String>,
    /// A pane could not be asked at all: sending stopped.
    pub aborted: bool,
}

/// The abstract value of a [`BroadcastState`].
pub struct BroadcastStateView {
    pub next: nat,
    pub failures: Seq<Seq<char>>,
    pub aborted: bool,
}

impl View for BroadcastState {
    type V = BroadcastStateView;

    open spec fn view(&self) -> BroadcastStateView {
        BroadcastStateView {
            next: self.next as nat,
            failures: string_seq(self.failures@),
            aborted: self.aborted,
        }
    }
}

/// What is done next while sending a submission.
#[derive(Debug, Clone, PartialEq, Eq)]
pub enum BroadcastAction {
    /// Queue the submission on this pane and wait for its reply.
    Enqueue(String),
    /// Nothing more: the failure lines, or `None` when sending stopped because a pane could
    /// not be asked.
    Finish(Option<Vec<String>>),
}

/// The abstract value of a [`BroadcastAction`].
pub enum BroadcastActionView {
    Enqueue(Seq<char>),
    Finish(Option<Seq<Seq<char>>>),
}

impl View for BroadcastAction {
    type V = BroadcastActionView;

    open spec fn view(&self) -> BroadcastActionView {
        match self {
            BroadcastAction::Enqueue(pane) => BroadcastActionView::Enqueue(pane@),
            BroadcastAction::Finish(None) => BroadcastActionView::Finish(None),
            BroadcastAction::Finish(Some(lines)) => BroadcastActionView::Finish(
                Some(string_seq(lines@)),
            ),
        }
    }
}

/// The line that reports a pane's failure.
pub open spec fn failure_line(pane: Seq<char>, error: Seq<char>) -> Seq<char> {
    pane + ": "@ + error
}

/// The failure lines of the first `n` panes, given each pane's reply.
pub open spec fn failures_upto(
    targets: Seq<Seq<char>>,
    replies: Seq<Result<(), Seq<char>>>,
    n: int,
) -> Seq<Seq<char>>
    decreases n,
{
    if n <= 0 {
        Seq::empty()
    } else {
        failures_upto(targets, replies, n - 1) + match replies[n - 1] {
            Err(e) => seq![failure_line(targets[n - 1], e)],
            Ok(()) => Seq::empty(),
        }
    }
}

/// What comes after the pane at `next`, or the end.
pub open spec fn broadcast_continue(targets: Seq<Seq<char>>, next: nat, failures: Seq<Seq<char>>) -> (
    BroadcastStateView,
    BroadcastActionView,
) {
    (
        BroadcastStateView { next, failures, aborted: false },
        if next < targets.len() {
            BroadcastActionView::Enqueue(targets[next as int])
        } else {
            BroadcastActionView::Finish(Some(failures))
        },
    )
}

/// How sending starts: with the first pane, or done at once when there is none.
pub open spec fn broadcast_begin(targets: Seq<Seq<char>>) -> (BroadcastStateView, BroadcastActionView) {
    broadcast_continue(targets, 0, Seq::empty())
}

/// The step of sending, given the reply of the pane asked last: `None` when it could not
/// be asked, which stops everything; otherwise its failure, if any, is recorded and the
/// next pane is asked.
pub open spec fn broadcast_next(
    targets: Seq<Seq<char>>,
    state: BroadcastStateView,
    reply: Option<Result<(), Seq<char>>>,
) -> (BroadcastStateView, BroadcastActionView) {
    if state.aborted {
        (state, BroadcastActionView::Finish(None))
    } else if state.next >= targets.len() {
        (state, BroadcastActionView::Finish(Some(state.failures)))
    } else {
        match reply {
            None => (
                BroadcastStateView { aborted: true, ..state },
                BroadcastActionView::Finish(None),
            ),
            Some(r) => broadcast_continue(
                targets,
                state.next + 1,
                state.failures + match r {
                    Err(e) => seq![failure_line(targets[state.next as int], e)],
                    Ok(()) => Seq::empty(),
                },
            ),
        }
    }
}

/// The state and action after the first `k` replies, starting from the beginning.
pub open spec fn broadcast_run(
    targets: Seq<Seq<char>>,
    replies: Seq<Option<Result<(), Seq<char>>>>,
    k: nat,
) -> (BroadcastStateView, BroadcastActionView)
    decreases k,
{
    if k == 0 {
        broadcast_begin(targets)
    } else {
        broadcast_next(targets, broadcast_run(targets, replies, (k - 1) as nat).0, replies[k - 1])
    }
}

fn continue_broadcast(targets: &Vec<String>, next: usize, failures: Vec<String>) -> (r: (
    BroadcastState,
    BroadcastAction,
))
    ensures
        (r.0@, r.1@) == broadcast_continue(string_seq(targets@), next as nat, string_seq(failures@)),
{
    if next < targets.len() {
        let pane = targets[next].clone();
        (BroadcastState { next, failures, aborted: false }, BroadcastAction::Enqueue(pane))
    } else {
        let lines = failures.clone();
        proof {
            assert(string_seq(lines@) =~= string_seq(failures@));
        }
        (BroadcastState { next, failures, aborted: false }, BroadcastAction::Finish(Some(lines)))
    }
}

/// How sending a submission to its target panes starts.
pub fn broadcast_start(targets: &Vec<String>) -> (start: (BroadcastState, BroadcastAction))
    ensures
        (start.0@, start.1@) == broadcast_begin(string_seq(targets@)),
{
    let failures: Vec<String> = Vec::new();
    assert(string_seq(failures@) =~= Seq::<Seq<char>>::empty());
    continue_broadcast(targets, 0, failures)
}

/// One step of sending a submission, given the reply of the pane asked last.
pub fn broadcast_step(targets: &Vec<String>, state: BroadcastState, reply: Option<Result<(), String>>) -> (next: (
    BroadcastState,
    BroadcastAction,
))
    ensures
        (next.0@, next.1@) == broadcast_next(
            string_seq(targets@),
            state@,
            match reply {
                None => None,
                Some(r) => Some(unit_result_view(r)),
            },
        ),
{
    if state.aborted {
        return (state, BroadcastAction::Finish(None));
    }
    if state.next >= targets.len() {
        let lines = state.failures.clone();
        proof {
            assert(string_seq(lines@) =~= string_seq(state.failures@));
        }
        return (state, BroadcastAction::Finish(Some(lines)));
    }
    match reply {
        None => {
            let BroadcastState { next, failures, aborted: _ } = state;
            (BroadcastState { next, failures, aborted: true }, BroadcastAction::Finish(None))
        },
        Some(r) => {
            let BroadcastState { next, failures, aborted: _ } = state;
            let mut failures = failures;
            let ghost before = string_seq(failures@);
            match r {
                Err(e) => {
                    let line = concat3(targets[next].as_str(), ": ", e.as_str());
                    failures.push(line);
                    assert(string_seq(failures@) =~= before + seq![
                        failure_line(string_seq(targets@)[next as int], e@),
                    ]);
                },
                Ok(()) => {
                    assert(string_seq(failures@) =~= before + Seq::<Seq<char>>::empty());
                },
            }
            continue_broadcast(targets, next + 1, failures)
        },
    }
}

/// Each target pane is asked in turn, whatever the earlier ones answered: after `k`
/// replies the `k`-th pane is asked next (or sending is done), and the failures so far are
/// those of the first `k` panes, in pane order. After the last reply sending finishes with
/// the failure line of every pane that failed.
pub proof fn lemma_broadcast_asks_every_pane(
    targets: Seq<Seq<char>>,
    replies: Seq<Result<(), Seq<char>>>,
    k: nat,
)
    requires
        replies.len() == targets.len(),
        k <= targets.len(),
    ensures
        broadcast_run(targets, replies.map_values(|r: Result<(), Seq<char>>| Some(r)), k)
            == broadcast_continue(targets, k, failures_upto(targets, replies, k as int)),
        k == targets.len() ==> broadcast_run(
            targets,
            replies.map_values(|r: Result<(), Seq<char>>| Some(r)),
            k,
        ).1 == BroadcastActionView::Finish(Some(failures_upto(targets, replies, k as int))),
    decreases k,
{
    let wrapped = replies.map_values(|r: Result<(), Seq<char>>| Some(r));
    if k > 0 {
        lemma_broadcast_asks_every_pane(targets, replies, (k - 1) as nat);
        assert(wrapped[k - 1] == Some(replies[k - 1]));
    }
}

/// The message shown when some panes failed: their lines, separated by commas.
pub open spec fn joined(lines: Seq<Seq<char>>, separator: Seq<char>) -> Seq<char>
    decreases lines.len(),
{
    if lines.len() == 0 {
        Seq::empty()
    } else if lines.len() == 1 {
        lines[0]
    } else {
        joined(lines.drop_last(), separator) + separator + lines.last()
    }
}

/// The error shown after a submission: none when every pane took it, otherwise which panes
/// failed and how.
pub fn submission_failure_message(failures: &Vec<String>) -> (message: Option<String>)
    ensures
        failures@.len() == 0 ==> message is None,
        failures@.len() > 0 ==> (message matches Some(m) && m@ == "Failed to send to "@ + joined(
            string_seq(failures@),
            ", "@,
        )),
{
    if failures.len() == 0 {
        return None;
    }
    let ghost lines = string_seq(failures@);
    let mut text = failures[0].clone();
    let mut i: usize = 1;
    while i < failures.len()
        invariant
            1 <= i <= failures@.len(),
            lines == string_seq(failures@),
            text@ == joined(lines.take(i as int), ", "@),
        decreases failures@.len() - i,
    {
        assert(lines.take(i as int + 1).drop_last() =~= lines.take(i as int));
        text.append(", ");
        text.append(failures[i].as_str());
        i = i + 1;
    }
    assert(lines.take(failures@.len() as int) =~= lines);
    Some(concat2("Failed to send to ", text.as_str()))
}

} // verus!
