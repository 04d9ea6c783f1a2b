//! What a cancellation does to a transfer.

use crate::action::{ActionView, AnswerView};
use crate::delete::{delete_next, DeleteView};
use crate::message::MessageView;
use crate::rsync::{rsync_next, RsyncStage, RsyncView};
use crate::run::{group_select, lemma_run_wf, session_after, session_follows};
use crate::same_server::{same_server_next, SameServerStage, SameServerView};
use crate::story::told;
use crate::transfer::{session_next, JobView, SessionView, StageView};
use vstd::prelude::*;

verus! {

/// Whether an action begins something new.
pub open spec fn begins_work(a: ActionView) -> bool {
    a is Spawn || a is ConnectSsh || a is RunRemote || a is DeleteTree || a is DeleteFile
        || a is MakeTempDir || a is CreateAskpass
}

/// Whether an action tells an error.
pub open spec fn tells_error(a: ActionView) -> bool {
    a matches ActionView::Send(MessageView::Error(_, _))
}

/// Whether some actions begin nothing new and tell no error.
pub open spec fn quiet(actions: Seq<ActionView>) -> bool {
    forall|i: int|
        0 <= i < actions.len() ==> !begins_work(#[trigger] actions[i]) && !tells_error(actions[i])
}

proof fn lemma_rsync_stops(run: RsyncView)
    requires
        run.expects(AnswerView::Cancelled(true)),
    ensures
        ({
            let (next, actions) = rsync_next(run, AnswerView::Cancelled(true));
            &&& next.stage == RsyncStage::Returned(None)
            &&& quiet(actions)
            &&& told(actions).len() == 0
        }),
{
    broadcast use group_select;

}

proof fn lemma_same_server_stops(run: SameServerView)
    requires
        run.expects(AnswerView::Cancelled(true)),
    ensures
        ({
            let (next, actions) = same_server_next(run, AnswerView::Cancelled(true));
            &&& next.stage == SameServerStage::Returned(None)
            &&& quiet(actions)
            &&& told(actions).len() == 0
        }),
{
    broadcast use group_select;

}

proof fn lemma_deletion_stops(run: DeleteView)
    requires
        run.expects(AnswerView::Cancelled(true)),
    ensures
        ({
            let (next, actions) = delete_next(run, AnswerView::Cancelled(true));
            &&& next.stage is Done
            &&& quiet(actions)
            &&& told(actions).len() == 0
        }),
{
    broadcast use group_select;

}

/// Whether a transfer is about to say what became of it, and looks at the cancellation first.
pub open spec fn about_to_end(s: SessionView) -> bool {
    s.stage is AfterLeg || s.stage is AfterSameServer
}

/// A transfer that finds itself cancelled begins nothing new and tells no error. It says that it
/// is over, or looks at the cancellation once more, without a message in between, and then says
/// so. It counts no file, unless all have been transferred already and their sources were being
/// deleted.
pub proof fn law_cancellation_ends_the_transfer(s: SessionView)
    requires
        s.wf(),
        s.expects(AnswerView::Cancelled(true)),
    ensures
        ({
            let (next, actions) = session_next(s, AnswerView::Cancelled(true));
            &&& quiet(actions)
            &&& if s.stage is Deleting {
                next.stage is Finished && told(actions) == seq![
                    MessageView::Completed(s.job.total(), 0),
                ]
            } else if about_to_end(s) {
                next.stage is Finished && told(actions) == seq![MessageView::Completed(0, 0)]
            } else {
                &&& about_to_end(next)
                &&& told(actions).len() == 0
                &&& actions.last() is PollCancel
            }
            &&& about_to_end(next) ==> {
                let (end, rest) = session_next(next, AnswerView::Cancelled(true));
                &&& next.expects(AnswerView::Cancelled(true))
                &&& quiet(rest)
                &&& end.stage is Finished
                &&& told(rest) == seq![MessageView::Completed(0, 0)]
            }
        }),
{
    broadcast use group_select;

    match s.stage {
        StageView::Leg { run, .. } => lemma_rsync_stops(run),
        StageView::SameServer(run) => lemma_same_server_stops(run),
        StageView::Deleting(run) => lemma_deletion_stops(run),
        _ => {},
    }
}

/// A program is started straight after a look at the cancellation that found none, and at no other
/// time.
pub proof fn law_programs_start_uncancelled(s: SessionView, answer: AnswerView)
    requires
        s.wf(),
        s.expects(answer),
        answer != AnswerView::Cancelled(false),
    ensures
        forall|i: int|
            0 <= i < session_next(s, answer).1.len() ==> !(#[trigger] session_next(
                s,
                answer,
            ).1[i] is Spawn),
{
}

/// Whether all commands on a server among some actions can be cancelled.
pub open spec fn all_cancelable(actions: Seq<ActionView>) -> bool {
    forall|i: int|
        0 <= i < actions.len() ==> (#[trigger] actions[i] matches ActionView::RunRemote {
            cancelable,
            ..
        } ==> cancelable)
}

proof fn lemma_rsync_is_cancelable(run: RsyncView, answer: AnswerView)
    ensures
        all_cancelable(rsync_next(run, answer).1),
{
}

proof fn lemma_same_server_is_cancelable(run: SameServerView, answer: AnswerView)
    ensures
        all_cancelable(same_server_next(run, answer).1),
{
}

proof fn lemma_deletion_is_cancelable(run: DeleteView, answer: AnswerView)
    ensures
        all_cancelable(delete_next(run, answer).1),
{
}

proof fn lemma_session_is_cancelable(s: SessionView, answer: AnswerView)
    requires
        s.wf(),
        s.expects(answer),
    ensures
        all_cancelable(session_next(s, answer).1),
{
    match s.stage {
        StageView::Leg { run, .. } => lemma_rsync_is_cancelable(run, answer),
        StageView::SameServer(run) => lemma_same_server_is_cancelable(run, answer),
        StageView::Deleting(run) => lemma_deletion_is_cancelable(run, answer),
        _ => {},
    }
}

/// Every command that a transfer runs on a server can be cancelled: a slow `cp`, `mv` or `rm` is
/// given up when the transfer is.
pub proof fn law_remote_commands_are_cancelable(job: JobView, answers: Seq<AnswerView>)
    requires
        job.files().len() <= usize::MAX,
        session_follows(job, answers),
    ensures
        all_cancelable(session_after(job, answers).1),
    decreases answers.len(),
{
    if answers.len() > 0 {
        let front = answers.drop_last();
        law_remote_commands_are_cancelable(job, front);
        lemma_run_wf(job, front);
        lemma_session_is_cancelable(session_after(job, front).0, answers.last());
    }
}

} // verus!
