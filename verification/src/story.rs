//! What a transfer tells and what it transfers.

use crate::action::{ActionView, AnswerView, TempDirFaultView};
use crate::delete::{delete_next, DeleteView};
use crate::message::MessageView;
use crate::rsync::{exit_reason, rsync_next, RsyncStage, RsyncView};
use crate::run::{
    group_select, lemma_run_wf, lemma_select_concat, select, session_after, session_follows,
};
use crate::same_server::{
    same_server_next, same_server_reason, SameServerStage, SameServerView,
};
use crate::transfer::{
    after_leg, arrived, deletion_turn, leg_turn, preparing_text, same_server_turn, session_next,
    session_start, JobView, Leg, SessionView, StageView,
};
use vstd::prelude::*;

verus! {

/// Finds the messages that are sent.
pub open spec fn message_sent() -> spec_fn(ActionView) -> Option<MessageView> {
    |a: ActionView|
        match a {
            ActionView::Send(message) => Some(message),
            _ => None,
        }
}

/// The messages that some actions send, in order.
pub open spec fn told(asked: Seq<ActionView>) -> Seq<MessageView> {
    select(asked, message_sent())
}

/// Whether none of some messages says that the transfer is over.
pub open spec fn open_ended(messages: Seq<MessageView>) -> bool {
    forall|i: int| 0 <= i < messages.len() ==> !(#[trigger] messages[i] is Completed)
}

/// Whether the last of some messages says that the transfer is over, and no other one does.
pub open spec fn closed_once(messages: Seq<MessageView>) -> bool {
    messages.len() > 0 && messages.last() is Completed && open_ended(messages.drop_last())
}

proof fn lemma_rsync_open_ended(run: RsyncView, answer: AnswerView)
    ensures
        open_ended(told(rsync_next(run, answer).1)),
{
    broadcast use group_select;

}

proof fn lemma_same_server_open_ended(run: SameServerView, answer: AnswerView)
    ensures
        open_ended(told(same_server_next(run, answer).1)),
{
    broadcast use group_select;

}

proof fn lemma_deletion_open_ended(run: DeleteView, answer: AnswerView)
    ensures
        open_ended(told(delete_next(run, answer).1)),
{
    broadcast use group_select;

}

proof fn lemma_session_ending(s: SessionView, answer: AnswerView)
    requires
        s.wf(),
        s.expects(answer),
    ensures
        ({
            let messages = told(session_next(s, answer).1);
            if session_next(s, answer).0.stage is Finished {
                closed_once(messages)
            } else {
                open_ended(messages)
            }
        }),
{
    broadcast use group_select;

    match s.stage {
        StageView::Leg { run, .. } => lemma_rsync_open_ended(run, answer),
        StageView::SameServer(run) => lemma_same_server_open_ended(run, answer),
        StageView::Deleting(run) => lemma_deletion_open_ended(run, answer),
        _ => {},
    }
}

/// A transfer says that it is over exactly once, with its last message, and exactly when it is
/// over. After that no answer is expected any more. Its first message says what is being prepared.
pub proof fn law_the_end_is_told_once(job: JobView, answers: Seq<AnswerView>)
    requires
        job.files().len() <= usize::MAX,
        session_follows(job, answers),
    ensures
        ({
            let (s, asked) = session_after(job, answers);
            &&& if s.stage is Finished {
                closed_once(told(asked))
            } else {
                open_ended(told(asked))
            }
            &&& told(asked).len() > 0
            &&& told(asked)[0] == MessageView::Preparing(preparing_text(job))
            &&& s.stage is Finished ==> forall|more: AnswerView|
                !session_follows(job, answers.push(more))
        }),
    decreases answers.len(),
{
    broadcast use group_select;

    if answers.len() > 0 {
        let front = answers.drop_last();
        law_the_end_is_told_once(job, front);
        lemma_run_wf(job, front);
        let (s, asked) = session_after(job, front);
        let actions = session_next(s, answers.last()).1;
        lemma_session_ending(s, answers.last());
        assert(told(asked + actions) == told(asked) + told(actions));
        if session_next(s, answers.last()).0.stage is Finished {
            assert((told(asked) + told(actions)).drop_last() == told(asked) + told(
                actions,
            ).drop_last());
        }
    }
    if session_after(job, answers).0.stage is Finished {
        assert forall|more: AnswerView| !session_follows(job, answers.push(more)) by {
            assert(answers.push(more).drop_last() == answers);
        }
    }
}

/// Finds the files that are reported as started.
pub open spec fn file_started() -> spec_fn(ActionView) -> Option<Seq<char>> {
    |a: ActionView|
        match a {
            ActionView::Send(MessageView::FileStarted(file)) => Some(file),
            _ => None,
        }
}

/// The files that some actions report as started, in order.
pub open spec fn starts(asked: Seq<ActionView>) -> Seq<Seq<char>> {
    select(asked, file_started())
}

/// Finds the files that are reported as transferred.
pub open spec fn file_arrived() -> spec_fn(ActionView) -> Option<Seq<char>> {
    |a: ActionView|
        match a {
            ActionView::Send(MessageView::FileCompleted(file)) => Some(file),
            _ => None,
        }
}

/// The files that some actions report as transferred, in order.
pub open spec fn arrivals(asked: Seq<ActionView>) -> Seq<Seq<char>> {
    select(asked, file_arrived())
}

/// The deletion of what is at a local path, or a command on a server.
#[verifier::ext_equal]
pub enum Removal {
    Local { path: Seq<char> },
    Remote { command: Seq<char>, cancelable: bool },
}

/// Finds what deletes a local file or runs a command on a server.
pub open spec fn file_removed() -> spec_fn(ActionView) -> Option<Removal> {
    |a: ActionView|
        match a {
            ActionView::DeleteTree { path } => Some(Removal::Local { path }),
            ActionView::DeleteFile { path } => Some(Removal::Local { path }),
            ActionView::RunRemote { command, cancelable } => Some(
                Removal::Remote { command, cancelable },
            ),
            _ => None,
        }
}

/// The deletions of local files and the commands on servers among some actions, in order.
pub open spec fn removals(asked: Seq<ActionView>) -> Seq<Removal> {
    select(asked, file_removed())
}

/// Whether a look at the cancellation found one.
pub open spec fn cancellation_seen(answers: Seq<AnswerView>) -> bool {
    answers.contains(AnswerView::Cancelled(true))
}

/// Whether a cancellation, once there, stays.
pub open spec fn cancellation_stands(answers: Seq<AnswerView>) -> bool {
    forall|i: int, j: int|
        0 <= i < j < answers.len() && #[trigger] answers[i] == AnswerView::Cancelled(true)
            ==> #[trigger] answers[j] != AnswerView::Cancelled(false)
}

/// The files that have been transferred before a leg.
pub open spec fn arrivals_before(job: JobView, leg: Leg) -> Seq<Seq<char>> {
    if leg is Upload {
        job.files()
    } else {
        Seq::empty()
    }
}

/// The files that a job transfers, in order: each of them once, or once on each leg between two
/// servers.
pub open spec fn all_arrivals(job: JobView) -> Seq<Seq<char>> {
    if job.route is Relay && !job.stays() {
        job.files() + job.files()
    } else {
        job.files()
    }
}

pub(crate) proof fn lemma_rsync_arrivals(run: RsyncView, answer: AnswerView)
    requires
        run.wf(),
        run.expects(answer),
    ensures
        ({
            let (next, actions) = rsync_next(run, answer);
            &&& run.completed <= next.completed <= run.config.files.len()
            &&& arrivals(actions) == run.config.files.subrange(
                run.completed as int,
                next.completed as int,
            )
            &&& removals(actions).len() == 0
            &&& next.stage == RsyncStage::Returned(None) ==> next.completed
                == run.config.files.len() || answer == AnswerView::Cancelled(true)
        }),
{
    broadcast use group_select;

}

proof fn lemma_same_server_arrivals(run: SameServerView, answer: AnswerView)
    requires
        run.wf(),
        run.expects(answer),
    ensures
        ({
            let (next, actions) = same_server_next(run, answer);
            &&& run.completed <= next.completed <= run.job.files.len()
            &&& arrivals(actions) == run.job.files.subrange(
                run.completed as int,
                next.completed as int,
            )
            &&& next.stage == SameServerStage::Returned(None) ==> next.completed
                == run.job.files.len() || answer == AnswerView::Cancelled(true)
        }),
{
    broadcast use group_select;

}

/// What a transfer that is over has told, seen and reported: either all files have arrived, or an
/// error came last, or there was a cancellation.
pub open spec fn verdict(job: JobView, asked: Seq<ActionView>, cancelled: bool) -> bool {
    let messages = told(asked);
    ||| messages.last() == MessageView::Completed(job.total(), 0) && arrivals(asked)
        == all_arrivals(job)
    ||| messages.last() == MessageView::Completed(0, job.total()) && messages.len() >= 2 && (
    messages[messages.len() - 2] matches MessageView::Error(file, _) && file.len() == 0)
    ||| messages.last() == MessageView::Completed(0, 0) && cancelled
}

/// What has arrived at each stage of a transfer.
pub open spec fn arrivals_fit(s: SessionView, asked: Seq<ActionView>, cancelled: bool) -> bool {
    let files = s.job.files();
    match s.stage {
        StageView::Probing | StageView::MakingTempDir => arrivals(asked).len() == 0,
        StageView::Leg { leg, run, .. } => arrivals(asked) == arrivals_before(s.job, leg)
            + files.take(run.completed as int),
        StageView::AfterLeg { leg, .. } => !cancelled ==> arrivals(asked) == arrivals_before(
            s.job,
            leg,
        ) + files,
        StageView::SameServer(run) => arrivals(asked) == files.take(run.completed as int),
        StageView::AfterSameServer => !cancelled ==> arrivals(asked) == files,
        StageView::Deleting(_) => arrivals(asked) == all_arrivals(s.job),
        StageView::Finished => verdict(s.job, asked, cancelled),
    }
}

proof fn lemma_deletion_arrivals(run: DeleteView, answer: AnswerView)
    ensures
        arrivals(delete_next(run, answer).1).len() == 0,
{
    broadcast use group_select;

}

/// What a transfer tells when it fails for a reason.
pub open spec fn ends_in_failure(
    job: JobView,
    actions: Seq<ActionView>,
    reason: Seq<char>,
) -> bool {
    let messages = told(actions);
    &&& messages.len() >= 2
    &&& messages.last() == MessageView::Completed(0, job.total())
    &&& messages[messages.len() - 2] == MessageView::Error(Seq::empty(), reason)
}

/// Why a transfer by rsync fails with an answer.
pub open spec fn rsync_failure(run: RsyncView, answer: AnswerView) -> Seq<char> {
    match (run.stage, answer) {
        (_, AnswerView::AskpassCreated(Err(reason))) => reason,
        (_, AnswerView::Spawned(Err(reason))) => "Failed to start rsync: "@ + reason,
        (RsyncStage::AfterLoss(reason), _) => "rsync wait failed: "@ + reason,
        (RsyncStage::AfterExit(report), _) => exit_reason(report),
        _ => Seq::empty(),
    }
}

/// Why a transfer on one server fails with an answer.
pub open spec fn same_server_failure(run: SameServerView, answer: AnswerView) -> Seq<char> {
    match (run.stage, answer) {
        (_, AnswerView::Connected(Err(reason))) => reason,
        (_, AnswerView::RemoteDone(Ok((_, stderr)))) => same_server_reason(
            run.job.is_cut,
            run.file(),
            stderr,
        ),
        (SameServerStage::AfterLoss(reason), _) => reason,
        _ => Seq::empty(),
    }
}

/// Why a leg fails, given why rsync does.
pub open spec fn leg_failure(leg: Leg, reason: Seq<char>) -> Seq<char> {
    match leg {
        Leg::Only => reason,
        Leg::Download => "Download failed: "@ + reason,
        Leg::Upload => "Upload failed: "@ + reason,
    }
}

/// Why a transfer fails with an answer: the reason of the part that failed.
pub open spec fn failure_reason(s: SessionView, answer: AnswerView) -> Seq<char> {
    match (s.stage, answer) {
        (StageView::Probing, _) =>
            "rsync is not installed. Please install rsync to transfer files."@,
        (StageView::MakingTempDir, AnswerView::TempDir(Err(TempDirFaultView::NotCreated(reason))))
            => "Failed to create temp dir: "@ + reason,
        (StageView::MakingTempDir, _) => "Failed to get home directory"@,
        (StageView::Leg { leg, run, .. }, _) => leg_failure(leg, rsync_failure(run, answer)),
        (StageView::SameServer(run), _) => same_server_failure(run, answer),
        _ => Seq::empty(),
    }
}

pub(crate) proof fn lemma_rsync_failure(run: RsyncView, answer: AnswerView)
    requires
        run.expects(answer),
    ensures
        rsync_next(run, answer).0.stage matches RsyncStage::Returned(Some(reason)) ==> reason
            == rsync_failure(run, answer),
{
}

pub(crate) proof fn lemma_same_server_failure(run: SameServerView, answer: AnswerView)
    requires
        run.expects(answer),
    ensures
        same_server_next(run, answer).0.stage matches SameServerStage::Returned(Some(reason))
            ==> reason == same_server_failure(run, answer),
{
}

pub(crate) proof fn lemma_leg_turn(
    job: JobView,
    leg: Leg,
    temp_dir: Seq<char>,
    run: RsyncView,
    actions: Seq<ActionView>,
)
    ensures
        ({
            let (next, all) = leg_turn(job, leg, temp_dir, run, actions);
            &&& arrivals(all) == arrivals(actions)
            &&& removals(all) == removals(actions)
            &&& next.stage is Finished ==> (run.stage matches RsyncStage::Returned(Some(reason))
                && ends_in_failure(job, all, leg_failure(leg, reason)))
        }),
{
    broadcast use group_select;

}

pub(crate) proof fn lemma_same_server_turn(
    job: JobView,
    run: SameServerView,
    actions: Seq<ActionView>,
)
    ensures
        ({
            let (next, all) = same_server_turn(job, run, actions);
            &&& arrivals(all) == arrivals(actions)
            &&& removals(all) == removals(actions)
            &&& next.stage is Finished ==> (run.stage matches SameServerStage::Returned(
                Some(reason),
            ) && ends_in_failure(job, all, reason))
        }),
{
    broadcast use group_select;

}

pub(crate) proof fn lemma_arrived(job: JobView)
    ensures
        ({
            let (next, all) = arrived(job);
            &&& arrivals(all).len() == 0
            &&& next.stage is Finished ==> told(all).len() > 0 && told(all).last()
                == MessageView::Completed(job.total(), 0)
            &&& next.stage is Finished || next.stage is Deleting
        }),
{
    broadcast use group_select;

}

pub(crate) proof fn lemma_deletion_turn(job: JobView, run: DeleteView, answer: AnswerView)
    ensures
        ({
            let (next, some) = delete_next(run, answer);
            let all = deletion_turn(job, next, some).1;
            &&& arrivals(all) == arrivals(some)
            &&& removals(all) == removals(some)
            &&& next.stage is Done ==> told(all).len() > 0 && told(all).last()
                == MessageView::Completed(job.total(), 0)
        }),
{
    broadcast use group_select;

}

pub(crate) proof fn lemma_after_leg(job: JobView, leg: Leg, temp_dir: Seq<char>, cancelled: bool)
    ensures
        ({
            let (next, all) = after_leg(job, leg, temp_dir, cancelled);
            &&& arrivals(all).len() == 0
            &&& cancelled || leg is Download ==> removals(all).len() == 0
            &&& cancelled ==> told(all) == seq![MessageView::Completed(0, 0)]
        }),
{
    broadcast use group_select;

    lemma_arrived(job);
}

pub(crate) proof fn lemma_preparation(s: SessionView, answer: AnswerView)
    requires
        s.wf(),
        s.expects(answer),
        s.stage is Probing || s.stage is MakingTempDir || s.stage is AfterSameServer,
    ensures
        ({
            let (next, all) = session_next(s, answer);
            &&& arrivals(all).len() == 0
            &&& removals(all).len() == 0
            &&& next.stage is Finished ==> if s.stage is AfterSameServer {
                told(all) == seq![
                    if answer == AnswerView::Cancelled(true) {
                        MessageView::Completed(0, 0)
                    } else {
                        MessageView::Completed(s.job.total(), 0)
                    },
                ]
            } else {
                ends_in_failure(s.job, all, failure_reason(s, answer))
            }
        }),
{
    broadcast use group_select;

}

proof fn lemma_leg_step(
    s: SessionView,
    asked: Seq<ActionView>,
    before: bool,
    answer: AnswerView,
)
    requires
        s.wf(),
        s.expects(answer),
        told(asked).len() > 0,
        arrivals_fit(s, asked, before),
        answer == AnswerView::Cancelled(false) ==> !before,
        s.stage is Leg,
    ensures
        arrivals_fit(
            session_next(s, answer).0,
            asked + session_next(s, answer).1,
            before || answer == AnswerView::Cancelled(true),
        ),
{
    let actions = session_next(s, answer).1;
    lemma_select_concat(asked, actions, file_arrived());
    lemma_select_concat(asked, actions, message_sent());
    let files = s.job.files();
    let (leg, temp_dir, run) = (s.stage->Leg_leg, s.stage->Leg_temp_dir, s.stage->run);
    lemma_rsync_arrivals(run, answer);
    let (next, some) = rsync_next(run, answer);
    lemma_leg_turn(s.job, leg, temp_dir, next, some);
    let earlier = arrivals_before(s.job, leg);
    assert(earlier + files.take(run.completed as int) + files.subrange(
        run.completed as int,
        next.completed as int,
    ) == earlier + files.take(next.completed as int));
    assert(files.take(files.len() as int) == files);
}

proof fn lemma_same_server_step(
    s: SessionView,
    asked: Seq<ActionView>,
    before: bool,
    answer: AnswerView,
)
    requires
        s.wf(),
        s.expects(answer),
        told(asked).len() > 0,
        arrivals_fit(s, asked, before),
        answer == AnswerView::Cancelled(false) ==> !before,
        s.stage is SameServer,
    ensures
        arrivals_fit(
            session_next(s, answer).0,
            asked + session_next(s, answer).1,
            before || answer == AnswerView::Cancelled(true),
        ),
{
    let actions = session_next(s, answer).1;
    lemma_select_concat(asked, actions, file_arrived());
    lemma_select_concat(asked, actions, message_sent());
    let files = s.job.files();
    let run = s.stage->SameServer_0;
    lemma_same_server_arrivals(run, answer);
    let (next, some) = same_server_next(run, answer);
    lemma_same_server_turn(s.job, next, some);
    assert(files.take(run.completed as int) + files.subrange(
        run.completed as int,
        next.completed as int,
    ) == files.take(next.completed as int));
    assert(files.take(files.len() as int) == files);
}

proof fn lemma_after_leg_step(
    s: SessionView,
    asked: Seq<ActionView>,
    before: bool,
    answer: AnswerView,
)
    requires
        s.wf(),
        s.expects(answer),
        told(asked).len() > 0,
        arrivals_fit(s, asked, before),
        answer == AnswerView::Cancelled(false) ==> !before,
        s.stage is AfterLeg,
    ensures
        arrivals_fit(
            session_next(s, answer).0,
            asked + session_next(s, answer).1,
            before || answer == AnswerView::Cancelled(true),
        ),
{
    let actions = session_next(s, answer).1;
    lemma_select_concat(asked, actions, file_arrived());
    lemma_select_concat(asked, actions, message_sent());
    let files = s.job.files();
    let (leg, temp_dir) = (s.stage->AfterLeg_leg, s.stage->AfterLeg_temp_dir);
    lemma_arrived(s.job);
    lemma_after_leg(s.job, leg, temp_dir, answer->Cancelled_0);
    assert(arrivals(asked + actions) == arrivals(asked));
    assert(files + files.take(0) == files);
    assert(Seq::<Seq<char>>::empty() + files == files);
}

proof fn lemma_session_arrivals(
    s: SessionView,
    asked: Seq<ActionView>,
    before: bool,
    answer: AnswerView,
)
    requires
        s.wf(),
        s.expects(answer),
        told(asked).len() > 0,
        arrivals_fit(s, asked, before),
        answer == AnswerView::Cancelled(false) ==> !before,
    ensures
        arrivals_fit(
            session_next(s, answer).0,
            asked + session_next(s, answer).1,
            before || answer == AnswerView::Cancelled(true),
        ),
{
    match s.stage {
        StageView::Leg { .. } => lemma_leg_step(s, asked, before, answer),
        StageView::SameServer(_) => lemma_same_server_step(s, asked, before, answer),
        StageView::AfterLeg { .. } => lemma_after_leg_step(s, asked, before, answer),
        _ => {
            let actions = session_next(s, answer).1;
            lemma_select_concat(asked, actions, file_arrived());
            lemma_select_concat(asked, actions, message_sent());
            if let StageView::Deleting(run) = s.stage {
                lemma_deletion_arrivals(run, answer);
                lemma_deletion_turn(s.job, run, answer);
                assert(arrivals(asked + actions) == arrivals(asked));
            } else {
                lemma_preparation(s, answer);
                assert(arrivals(asked + actions) == arrivals(asked));
                if !(s.stage is AfterSameServer) {
                    assert(arrivals(asked) == Seq::<Seq<char>>::empty() + s.job.files().take(0));
                }
            }
        },
    }
}

/// A cancellation that stays has stayed so far.
pub(crate) proof fn lemma_stands_before(answers: Seq<AnswerView>)
    requires
        answers.len() > 0,
        cancellation_stands(answers),
    ensures
        cancellation_stands(answers.drop_last()),
        cancellation_seen(answers.drop_last()) ==> answers.last() != AnswerView::Cancelled(false),
{
    let front = answers.drop_last();
    assert forall|i: int, j: int|
        0 <= i < j < front.len() && #[trigger] front[i] == AnswerView::Cancelled(
            true,
        ) implies #[trigger] front[j] != AnswerView::Cancelled(false) by {
        assert(front[i] == answers[i] && front[j] == answers[j]);
    }
    if cancellation_seen(front) {
        let i = choose|i: int| 0 <= i < front.len() && front[i] == AnswerView::Cancelled(true);
        assert(answers[i] == AnswerView::Cancelled(true));
        assert(answers[answers.len() - 1] != AnswerView::Cancelled(false));
    }
}

pub(crate) proof fn lemma_run_arrivals(job: JobView, answers: Seq<AnswerView>)
    requires
        job.files().len() <= usize::MAX,
        session_follows(job, answers),
        cancellation_stands(answers),
    ensures
        arrivals_fit(
            session_after(job, answers).0,
            session_after(job, answers).1,
            cancellation_seen(answers),
        ),
        told(session_after(job, answers).1).len() > 0,
    decreases answers.len(),
{
    law_the_end_is_told_once(job, answers);
    if answers.len() > 0 {
        let front = answers.drop_last();
        lemma_stands_before(answers);
        lemma_run_arrivals(job, front);
        lemma_run_wf(job, front);
        let (s, asked) = session_after(job, front);
        assert(answers == front.push(answers.last()));
        assert(cancellation_seen(answers) <==> cancellation_seen(front) || answers.last()
            == AnswerView::Cancelled(true)) by {
            if cancellation_seen(front) {
                let i = choose|i: int|
                    0 <= i < front.len() && front[i] == AnswerView::Cancelled(true);
                assert(answers[i] == AnswerView::Cancelled(true));
            }
            if answers.last() == AnswerView::Cancelled(true) {
                assert(answers[answers.len() - 1] == AnswerView::Cancelled(true));
            }
        }
        lemma_session_arrivals(s, asked, cancellation_seen(front), answers.last());
    } else {
        broadcast use group_select;

        let files = job.files();
        assert(arrivals(session_start(job).1) == files.take(0));
    }
}

/// The last messages of a transfer that is over give a reason: success, a failure whose reason has
/// been told just before, or a cancellation.
pub open spec fn gives_a_reason(
    job: JobView,
    asked: Seq<ActionView>,
    reason: Seq<char>,
    cancelled: bool,
) -> bool {
    ||| told(asked).last() == MessageView::Completed(job.total(), 0)
    ||| ends_in_failure(job, asked, reason)
    ||| told(asked).last() == MessageView::Completed(0, 0) && cancelled
}

proof fn lemma_last_step_gives_a_reason(s: SessionView, answer: AnswerView)
    requires
        s.wf(),
        s.expects(answer),
        session_next(s, answer).0.stage is Finished,
    ensures
        told(session_next(s, answer).1).len() > 0,
        gives_a_reason(
            s.job,
            session_next(s, answer).1,
            failure_reason(s, answer),
            answer == AnswerView::Cancelled(true),
        ),
{
    match s.stage {
        StageView::Leg { leg, temp_dir, run } => {
            let (next, some) = rsync_next(run, answer);
            lemma_rsync_failure(run, answer);
            lemma_leg_turn(s.job, leg, temp_dir, next, some);
        },
        StageView::SameServer(run) => {
            let (next, some) = same_server_next(run, answer);
            lemma_same_server_failure(run, answer);
            lemma_same_server_turn(s.job, next, some);
        },
        StageView::AfterLeg { leg, temp_dir } => {
            lemma_after_leg(s.job, leg, temp_dir, answer->Cancelled_0);
            lemma_arrived(s.job);
        },
        StageView::Deleting(run) => lemma_deletion_turn(s.job, run, answer),
        _ => lemma_preparation(s, answer),
    }
}

/// The last message of a transfer counts all files as transferred, or all as failed, or none. Where
/// all have failed, the reason of the part that failed has been told just before, as an error that
/// belongs to no file; where none is counted, the transfer was cancelled.
pub proof fn law_the_end_gives_a_reason(job: JobView, answers: Seq<AnswerView>)
    requires
        job.files().len() <= usize::MAX,
        session_follows(job, answers),
        session_after(job, answers).0.stage is Finished,
    ensures
        gives_a_reason(
            job,
            session_after(job, answers).1,
            failure_reason(session_after(job, answers.drop_last()).0, answers.last()),
            cancellation_seen(answers),
        ),
{
    let front = answers.drop_last();
    let (s, asked) = session_after(job, front);
    let actions = session_next(s, answers.last()).1;
    lemma_run_wf(job, front);
    lemma_last_step_gives_a_reason(s, answers.last());
    lemma_select_concat(asked, actions, message_sent());
    assert(answers[answers.len() - 1] == answers.last());
    let (all, some) = (told(asked + actions), told(actions));
    if some.len() >= 2 {
        assert(all[all.len() - 2] == some[some.len() - 2]);
    }
}

/// A transfer that says that all files have been transferred has reported each of them as
/// transferred, in order, on each leg.
///
/// A cancellation that is taken back may end a leg and leave the transfer to go on without the
/// rest of its files.
pub proof fn law_success_means_that_all_files_arrived(job: JobView, answers: Seq<AnswerView>)
    requires
        job.files().len() <= usize::MAX,
        session_follows(job, answers),
        cancellation_stands(answers),
        session_after(job, answers).0.stage is Finished,
        told(session_after(job, answers).1).last() == MessageView::Completed(job.total(), 0),
    ensures
        arrivals(session_after(job, answers).1) == all_arrivals(job),
{
    lemma_run_arrivals(job, answers);
    lemma_run_wf(job, answers);
    if job.total() == 0 {
        lemma_nothing_arrives(job, answers);
        assert(arrivals(session_after(job, answers).1) =~= all_arrivals(job));
    }
}

proof fn lemma_nothing_arrives(job: JobView, answers: Seq<AnswerView>)
    requires
        job.files().len() == 0,
        session_follows(job, answers),
    ensures
        arrivals(session_after(job, answers).1).len() == 0,
    decreases answers.len(),
{
    if answers.len() > 0 {
        let front = answers.drop_last();
        let last = answers.last();
        lemma_nothing_arrives(job, front);
        lemma_run_wf(job, front);
        let (s, asked) = session_after(job, front);
        lemma_select_concat(asked, session_next(s, last).1, file_arrived());
        match s.stage {
            StageView::Leg { leg, temp_dir, run } => {
                lemma_rsync_arrivals(run, last);
                let (next, some) = rsync_next(run, last);
                lemma_leg_turn(job, leg, temp_dir, next, some);
            },
            StageView::SameServer(run) => {
                lemma_same_server_arrivals(run, last);
                let (next, some) = same_server_next(run, last);
                lemma_same_server_turn(job, next, some);
            },
            StageView::AfterLeg { leg, temp_dir } => {
                lemma_after_leg(job, leg, temp_dir, last->Cancelled_0);
            },
            StageView::Deleting(run) => {
                lemma_deletion_arrivals(run, last);
                lemma_deletion_turn(job, run, last);
            },
            _ => lemma_preparation(s, last),
        }
    } else {
        broadcast use group_select;

    }
}

} // verus!
