//! How a transfer and its surroundings take turns: one question at a time, and any answer to it.

use crate::action::{ActionView, AnswerView};
use crate::delete::{delete_next, DeleteView};
use crate::rsync::{rsync_next, RsyncView};
use crate::same_server::{same_server_next, SameServerView};
use crate::transfer::{session_next, session_start, JobView, SessionView, StageView};
use vstd::prelude::*;

verus! {

/// Whether an action is a question, which has an answer.
pub open spec fn is_question(a: ActionView) -> bool {
    match a {
        ActionView::Send(_) => false,
        ActionView::RemoveAskpass => false,
        ActionView::KillChild => false,
        ActionView::CloseSsh => false,
        ActionView::RemoveTempDir => false,
        _ => true,
    }
}

/// Whether an answer is one to an action.
pub open spec fn answers_to(answer: AnswerView, a: ActionView) -> bool {
    match a {
        ActionView::ProbeRsync => answer is RsyncFound,
        ActionView::ProbeSshpass => answer is SshpassFound,
        ActionView::ExpandKeyPath(_) => answer is KeyPath,
        ActionView::CreateAskpass(_) => answer is AskpassCreated,
        ActionView::PollCancel => answer is Cancelled,
        ActionView::Spawn(_) => answer is Spawned,
        ActionView::ReadOutput => answer is Output,
        ActionView::AwaitChild => answer is ChildExited,
        ActionView::ConnectSsh(_) => answer is Connected,
        ActionView::RunRemote { .. } => answer is RemoteDone,
        ActionView::ProbeDir { .. } => answer is IsDir,
        ActionView::DeleteTree { .. } => answer is LocalDeleted,
        ActionView::DeleteFile { .. } => answer is LocalDeleted,
        ActionView::MakeTempDir => answer is TempDir,
        _ => false,
    }
}

/// Whether none of some actions is a question.
pub open spec fn no_question(actions: Seq<ActionView>) -> bool {
    forall|i: int| 0 <= i < actions.len() ==> !is_question(#[trigger] actions[i])
}

/// Whether the last of some actions is a question, and no other one is.
pub open spec fn one_question(actions: Seq<ActionView>) -> bool {
    &&& actions.len() > 0
    &&& is_question(actions.last())
    &&& no_question(actions.drop_last())
}

/// Whether a transfer by rsync waits for the answer to the one question among some actions.
spec fn rsync_waits(run: RsyncView, actions: Seq<ActionView>) -> bool {
    if run.stage is Returned {
        no_question(actions)
    } else {
        &&& one_question(actions)
        &&& forall|answer: AnswerView| #[trigger]
            run.expects(answer) <==> answers_to(answer, actions.last())
    }
}

/// Whether a transfer on one server waits for the answer to the one question among some actions.
spec fn same_server_waits(run: SameServerView, actions: Seq<ActionView>) -> bool {
    if run.stage is Returned {
        no_question(actions)
    } else {
        &&& one_question(actions)
        &&& forall|answer: AnswerView| #[trigger]
            run.expects(answer) <==> answers_to(answer, actions.last())
    }
}

/// Whether a deletion waits for the answer to the one question among some actions.
spec fn deletion_waits(run: DeleteView, actions: Seq<ActionView>) -> bool {
    if run.stage is Done {
        no_question(actions)
    } else {
        &&& one_question(actions)
        &&& forall|answer: AnswerView| #[trigger]
            run.expects(answer) <==> answers_to(answer, actions.last())
    }
}

/// Whether a transfer waits for the answer to the one question among some actions: it takes any
/// answer to it. A transfer that is over has no question.
pub open spec fn waits(s: SessionView, actions: Seq<ActionView>) -> bool {
    if s.stage is Finished {
        no_question(actions)
    } else {
        &&& one_question(actions)
        &&& forall|answer: AnswerView| #[trigger]
            s.expects(answer) <==> answers_to(answer, actions.last())
    }
}

proof fn lemma_rsync_waits(run: RsyncView, answer: AnswerView)
    requires
        run.wf(),
        run.expects(answer),
    ensures
        rsync_waits(rsync_next(run, answer).0, rsync_next(run, answer).1),
{
}

proof fn lemma_same_server_waits(run: SameServerView, answer: AnswerView)
    requires
        run.wf(),
        run.expects(answer),
    ensures
        same_server_waits(same_server_next(run, answer).0, same_server_next(run, answer).1),
{
}

proof fn lemma_deletion_waits(run: DeleteView, answer: AnswerView)
    requires
        run.wf(),
        run.expects(answer),
    ensures
        deletion_waits(delete_next(run, answer).0, delete_next(run, answer).1),
{
}

/// A transfer asks one question at a time, behind all else that it asks for, and waits for the
/// answer: it takes any answer to that question and no other. When it is over, it asks none.
pub proof fn law_one_question_at_a_time(s: SessionView, answer: AnswerView)
    requires
        s.wf(),
        s.expects(answer),
    ensures
        waits(session_next(s, answer).0, session_next(s, answer).1),
{
    match s.stage {
        StageView::Leg { run, .. } => lemma_rsync_waits(run, answer),
        StageView::SameServer(run) => lemma_same_server_waits(run, answer),
        StageView::Deleting(run) => lemma_deletion_waits(run, answer),
        _ => {},
    }
}

/// A transfer starts with one question, behind all else that it asks for, and waits for the
/// answer.
pub proof fn law_a_transfer_starts_with_a_question(job: JobView)
    ensures
        waits(session_start(job).0, session_start(job).1),
        !(session_start(job).0.stage is Finished),
{
}

} // verus!
