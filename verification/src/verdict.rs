//! What the last message of a transfer says, by all that happened.

use crate::action::{ActionView, AnswerView};
use crate::message::MessageView;
use crate::rsync::{rsync_next, RsyncStage, RsyncView};
use crate::run::{lemma_run_wf, lemma_select_concat, session_after, session_follows};
use crate::same_server::{same_server_next, SameServerStage, SameServerView};
use crate::story::{
    all_arrivals, arrivals, cancellation_seen, cancellation_stands, ends_in_failure,
    failure_reason, law_success_means_that_all_files_arrived, lemma_after_leg, lemma_arrived,
    lemma_deletion_turn, lemma_leg_turn, lemma_preparation, lemma_rsync_failure,
    lemma_same_server_failure, lemma_same_server_turn, lemma_stands_before, message_sent, told,
};
use crate::transfer::{session_next, JobView, RouteView, SessionView, StageView};
use vstd::prelude::*;

verus! {

/// Whether an answer says that a part of the transfer failed.
pub open spec fn is_failure(answer: AnswerView) -> bool {
    match answer {
        AnswerView::RsyncFound(found) => !found,
        AnswerView::TempDir(outcome) => outcome is Err,
        AnswerView::AskpassCreated(outcome) => outcome is Err,
        AnswerView::Spawned(outcome) => outcome is Err,
        AnswerView::ChildExited(Ok(report)) => !report.success,
        AnswerView::ChildExited(Err(_)) => true,
        AnswerView::Connected(outcome) => outcome is Err,
        AnswerView::RemoteDone(Ok((success, _))) => !success,
        AnswerView::RemoteDone(Err(_)) => true,
        _ => false,
    }
}

/// Whether a transfer has begun to delete the sources.
#[verifier::opaque]
pub open spec fn is_deleting(job: JobView, answers: Seq<AnswerView>) -> bool {
    session_after(job, answers).0.stage is Deleting
}

/// Whether the transfer was found cancelled before it began to delete the sources.
pub open spec fn was_cancelled(job: JobView, answers: Seq<AnswerView>) -> bool {
    exists|k: int|
        0 <= k < answers.len() && #[trigger] answers[k] == AnswerView::Cancelled(true)
            && !is_deleting(job, answers.take(k))
}

/// Whether a part of the transfer failed before it began to delete the sources.
pub open spec fn has_failed(job: JobView, answers: Seq<AnswerView>) -> bool {
    exists|k: int|
        0 <= k < answers.len() && is_failure(#[trigger] answers[k]) && !is_deleting(
            job,
            answers.take(k),
        )
}

/// The last message of a transfer: a cancelled one counts no file, one that failed counts all as
/// failed, and any other one counts all as transferred.
pub open spec fn last_message(job: JobView, answers: Seq<AnswerView>) -> MessageView {
    if was_cancelled(job, answers) {
        MessageView::Completed(0, 0)
    } else if has_failed(job, answers) {
        MessageView::Completed(0, job.total())
    } else {
        MessageView::Completed(job.total(), 0)
    }
}

/// Why a transfer failed, if it did: the reason of the part that its last answer ended.
pub open spec fn last_failure(job: JobView, answers: Seq<AnswerView>) -> Seq<char> {
    failure_reason(session_after(job, answers.drop_last()).0, answers.last())
}

/// What the stage of a transfer tells of its past.
spec fn past_fits(s: SessionView, cancelled: bool, failed: bool) -> bool {
    match s.stage {
        StageView::Leg { run, .. } => !cancelled && (failed <==> rsync_has_failed(run)),
        StageView::SameServer(run) => !cancelled && (failed <==> run.stage is AfterLoss),
        StageView::AfterLeg { .. } | StageView::AfterSameServer => !cancelled ==> !failed,
        StageView::Finished => true,
        _ => !cancelled && !failed,
    }
}

/// Whether rsync has failed, and only a cancellation can still hide it.
spec fn rsync_has_failed(run: RsyncView) -> bool {
    match run.stage {
        RsyncStage::AfterLoss(_) => true,
        RsyncStage::AfterExit(report) => !report.success,
        _ => false,
    }
}

proof fn lemma_rsync_past(run: RsyncView, answer: AnswerView)
    requires
        run.wf(),
        run.expects(answer),
    ensures
        ({
            let next = rsync_next(run, answer).0;
            let failed = rsync_has_failed(run) || is_failure(answer);
            &&& next.stage == RsyncStage::Returned(None) ==> answer == AnswerView::Cancelled(true)
                || !failed
            &&& (next.stage matches RsyncStage::Returned(Some(_))) ==> failed && answer
                != AnswerView::Cancelled(true)
            &&& !(next.stage is Returned) ==> answer != AnswerView::Cancelled(true) && (failed
                <==> rsync_has_failed(next))
        }),
{
}

proof fn lemma_same_server_past(run: SameServerView, answer: AnswerView)
    requires
        run.wf(),
        run.expects(answer),
    ensures
        ({
            let next = same_server_next(run, answer).0;
            let failed = run.stage is AfterLoss || is_failure(answer);
            &&& next.stage == SameServerStage::Returned(None) ==> answer == AnswerView::Cancelled(
                true,
            ) || !failed
            &&& (next.stage matches SameServerStage::Returned(Some(_))) ==> failed && answer
                != AnswerView::Cancelled(true)
            &&& !(next.stage is Returned) ==> answer != AnswerView::Cancelled(true) && (failed
                <==> next.stage is AfterLoss)
        }),
{
}

/// What the last messages of a transfer that is over say.
spec fn end_fits(
    job: JobView,
    asked: Seq<ActionView>,
    reason: Seq<char>,
    cancelled: bool,
    failed: bool,
) -> bool {
    &&& told(asked).len() > 0
    &&& if cancelled {
        told(asked).last() == MessageView::Completed(0, 0)
    } else if failed {
        ends_in_failure(job, asked, reason)
    } else {
        told(asked).last() == MessageView::Completed(job.total(), 0)
    }
}

proof fn lemma_step(s: SessionView, answer: AnswerView, cancelled: bool, failed: bool)
    requires
        s.wf(),
        s.expects(answer),
        past_fits(s, cancelled, failed),
        cancelled ==> answer != AnswerView::Cancelled(false),
    ensures
        ({
            let (next, actions) = session_next(s, answer);
            let counts = !(s.stage is Deleting);
            let now_cancelled = cancelled || (counts && answer == AnswerView::Cancelled(true));
            let now_failed = failed || (counts && is_failure(answer));
            &&& past_fits(next, now_cancelled, now_failed)
            &&& next.stage is Finished ==> end_fits(
                s.job,
                actions,
                failure_reason(s, answer),
                now_cancelled,
                now_failed,
            )
        }),
{
    match s.stage {
        StageView::Leg { leg, temp_dir, run } => {
            lemma_rsync_past(run, answer);
            lemma_rsync_failure(run, answer);
            let (next, some) = rsync_next(run, answer);
            lemma_leg_turn(s.job, leg, temp_dir, next, some);
        },
        StageView::SameServer(run) => {
            lemma_same_server_past(run, answer);
            lemma_same_server_failure(run, answer);
            let (next, some) = same_server_next(run, answer);
            lemma_same_server_turn(s.job, next, some);
        },
        StageView::AfterLeg { leg, temp_dir } => {
            lemma_after_leg(s.job, leg, temp_dir, answer->Cancelled_0);
            lemma_arrived(s.job);
        },
        StageView::Deleting(run) => lemma_deletion_turn(s.job, run, answer),
        _ => lemma_preparation(s, answer),
    }
}

/// One more answer adds to what happened before.
proof fn lemma_past_grows(job: JobView, answers: Seq<AnswerView>)
    requires
        answers.len() > 0,
    ensures
        ({
            let front = answers.drop_last();
            let counts = !is_deleting(job, front);
            &&& was_cancelled(job, answers) <==> was_cancelled(job, front) || (counts
                && answers.last() == AnswerView::Cancelled(true))
            &&& has_failed(job, answers) <==> has_failed(job, front) || (counts && is_failure(
                answers.last(),
            ))
        }),
{
    let front = answers.drop_last();
    let end = answers.len() - 1;
    assert(answers.take(end) == front);
    assert(answers[end] == answers.last());
    assert forall|k: int| 0 <= k < end implies answers[k] == #[trigger] front[k] by {}
    assert forall|k: int| 0 <= k < end implies #[trigger] answers.take(k) == front.take(k) by {
        assert(answers.take(k) =~= front.take(k));
    }
    if was_cancelled(job, front) {
        let k = choose|k: int|
            0 <= k < front.len() && #[trigger] front[k] == AnswerView::Cancelled(true)
                && !is_deleting(job, front.take(k));
        assert(answers[k] == front[k]);
    }
    if has_failed(job, front) {
        let k = choose|k: int|
            0 <= k < front.len() && is_failure(#[trigger] front[k]) && !is_deleting(
                job,
                front.take(k),
            );
        assert(answers[k] == front[k]);
    }
    if was_cancelled(job, answers) {
        let k = choose|k: int|
            0 <= k < answers.len() && #[trigger] answers[k] == AnswerView::Cancelled(true)
                && !is_deleting(job, answers.take(k));
        if k < end {
            assert(front[k] == answers[k]);
        }
    }
    if has_failed(job, answers) {
        let k = choose|k: int|
            0 <= k < answers.len() && is_failure(#[trigger] answers[k]) && !is_deleting(
                job,
                answers.take(k),
            );
        if k < end {
            assert(front[k] == answers[k]);
        }
    }
}

/// What the last messages say does not depend on those before them.
proof fn lemma_end_is_last(job: JobView, asked: Seq<ActionView>, actions: Seq<ActionView>)
    ensures
        forall|reason: Seq<char>, cancelled: bool, failed: bool|
            end_fits(job, actions, reason, cancelled, failed) ==> #[trigger] end_fits(
                job,
                asked + actions,
                reason,
                cancelled,
                failed,
            ),
{
    lemma_select_concat(asked, actions, message_sent());
    let (all, some) = (told(asked + actions), told(actions));
    if some.len() >= 2 {
        assert(all[all.len() - 2] == some[some.len() - 2]);
    }
}

proof fn lemma_run(job: JobView, answers: Seq<AnswerView>)
    requires
        job.files().len() <= usize::MAX,
        session_follows(job, answers),
        cancellation_stands(answers),
    ensures
        ({
            let (s, asked) = session_after(job, answers);
            let (cancelled, failed) = (was_cancelled(job, answers), has_failed(job, answers));
            &&& past_fits(s, cancelled, failed)
            &&& s.stage is Finished ==> end_fits(
                job,
                asked,
                last_failure(job, answers),
                cancelled,
                failed,
            )
        }),
    decreases answers.len(),
{
    if answers.len() > 0 {
        let front = answers.drop_last();
        let last = answers.last();
        lemma_stands_before(answers);
        lemma_run(job, front);
        lemma_run_wf(job, front);
        lemma_past_grows(job, answers);
        assert(was_cancelled(job, front) ==> cancellation_seen(front));
        let (s, asked) = session_after(job, front);
        assert(is_deleting(job, front) <==> s.stage is Deleting) by {
            reveal(is_deleting);
        }
        lemma_step(s, last, was_cancelled(job, front), has_failed(job, front));
        lemma_end_is_last(job, asked, session_next(s, last).1);
    }
}

/// The last message of a transfer says what happened. A transfer that was found cancelled before it
/// began to delete the sources counts no file. Otherwise, if a part of it failed by then, all files
/// count as failed, and the reason of that part has been told just before, as an error that belongs
/// to no file. Otherwise all files count as transferred, and each has been reported as such, in
/// order, on each leg. What happens while the sources are being deleted does not count.
///
/// A cancellation that is taken back may end a leg and leave the transfer to go on without the
/// rest of its files.
pub proof fn law_the_last_message_says_what_happened(job: JobView, answers: Seq<AnswerView>)
    requires
        job.files().len() <= usize::MAX,
        session_follows(job, answers),
        cancellation_stands(answers),
        session_after(job, answers).0.stage is Finished,
    ensures
        ({
            let asked = session_after(job, answers).1;
            let messages = told(asked);
            &&& messages.len() > 0
            &&& messages.last() == last_message(job, answers)
            &&& job.total() == (match job.route {
                RouteView::Direct { config, .. } => config.files.len(),
                RouteView::Relay { files, .. } => files.len(),
            })
            &&& !was_cancelled(job, answers) && has_failed(job, answers) ==> messages.len() >= 2
                && messages[messages.len() - 2] == MessageView::Error(
                Seq::empty(),
                last_failure(job, answers),
            )
            &&& !was_cancelled(job, answers) && !has_failed(job, answers) ==> arrivals(asked)
                == all_arrivals(job)
        }),
{
    lemma_run(job, answers);
    if !was_cancelled(job, answers) && !has_failed(job, answers) {
        law_success_means_that_all_files_arrived(job, answers);
    }
}

} // verus!
