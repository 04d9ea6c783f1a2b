//! What a transfer deletes: the sources that it has moved, and nothing else.

use crate::action::{ActionView, AnswerView};
use crate::command::{
    path_below, remove_command, rsync_command, rsync_source, ConfigView, Login,
};
use crate::delete::{delete_next, delete_start, DeleteJob, DeleteStage, DeleteView};
use crate::message::MessageView;
use crate::rsync::rsync_next;
use crate::run::{
    group_select, lemma_run_wf, lemma_select_concat, select, session_after, session_follows,
};
use crate::story::{
    all_arrivals, arrivals, cancellation_seen, cancellation_stands, file_removed,
    law_success_means_that_all_files_arrived, law_the_end_is_told_once, lemma_after_leg,
    lemma_deletion_turn, lemma_leg_turn, lemma_preparation, lemma_rsync_arrivals,
    lemma_run_arrivals, message_sent, removals, told, Removal,
};
use crate::transfer::{arrived, session_next, JobView, RouteView, SessionView, StageView};
use vstd::prelude::*;

verus! {

/// Whether there was no connection to a server.
pub open spec fn connection_failed(answers: Seq<AnswerView>) -> bool {
    exists|i: int|
        0 <= i < answers.len() && (#[trigger] answers[i] matches AnswerView::Connected(Err(_)))
}

/// The deletions of the first local sources of a job.
pub open spec fn local_deletions(job: JobView, count: nat) -> Seq<Removal> {
    Seq::new(
        count,
        |i: int| Removal::Local { path: path_below(job.deletion().base, job.files()[i]) },
    )
}

/// The one command that deletes the sources of a job on their server.
pub open spec fn remote_deletion(job: JobView) -> Seq<Removal> {
    seq![
        Removal::Remote {
            command: remove_command(job.deletion().base, job.files()),
            cancelable: true,
        },
    ]
}

/// The deletions that a deletion has asked for at each of its stages.
spec fn deletions_by(job: JobView, stage: DeleteStage) -> Seq<Removal> {
    match stage {
        DeleteStage::Probing(index) => local_deletions(job, index),
        DeleteStage::Local(index) => local_deletions(job, index + 1),
        DeleteStage::Running | DeleteStage::AfterLoss(_) => remote_deletion(job),
        _ => Seq::empty(),
    }
}

/// The deletions of a job whose sources are all deleted.
pub open spec fn all_deletions(job: JobView) -> Seq<Removal> {
    if job.deletion().profile is None {
        local_deletions(job, job.files().len())
    } else {
        remote_deletion(job)
    }
}

/// Whether sources on a server may have been left there: the transfer was cancelled, or there was
/// no connection.
pub open spec fn may_be_spared(job: JobView, answers: Seq<AnswerView>) -> bool {
    job.deletion().profile is Some && (cancellation_seen(answers) || connection_failed(answers))
}

/// What a transfer that is over has deleted: nothing, or all sources of a job that moves them and
/// says that it succeeded.
pub open spec fn deletions_are_due(job: JobView, asked: Seq<ActionView>, spared: bool) -> bool {
    let success = told(asked).last() == MessageView::Completed(job.total(), 0);
    &&& removals(asked).len() > 0 ==> {
        &&& job.is_cut
        &&& success
        &&& removals(asked) == all_deletions(job)
    }
    &&& job.is_cut && success && job.total() > 0 ==> removals(asked) == all_deletions(job) || spared
}

/// What has been deleted at each stage of a transfer.
spec fn deletions_fit(s: SessionView, asked: Seq<ActionView>, spared: bool) -> bool {
    match s.stage {
        StageView::Deleting(run) => removals(asked) == deletions_by(s.job, run.stage),
        StageView::Finished => deletions_are_due(s.job, asked, spared),
        _ => removals(asked).len() == 0,
    }
}

proof fn lemma_arrived_deletions(job: JobView)
    requires
        job.files().len() <= usize::MAX,
    ensures
        ({
            let (next, all) = arrived(job);
            match next.stage {
                StageView::Deleting(run) => removals(all) == deletions_by(job, run.stage),
                _ => removals(all).len() == 0 && (job.is_cut ==> job.files().len() == 0),
            }
        }),
{
    broadcast use group_select;

    if job.is_cut && job.deletion().profile is None && job.files().len() > 0 {
        assert(removals(arrived(job).1) == local_deletions(job, 0));
    }
}

proof fn lemma_deletion_removals(job: JobView, run: DeleteView, answer: AnswerView)
    requires
        run.wf(),
        run.expects(answer),
        run.job == job.deletion(),
    ensures
        ({
            let (next, actions) = delete_next(run, answer);
            let before = deletions_by(job, run.stage);
            if next.stage is Done {
                &&& removals(actions).len() == 0
                &&& before.len() > 0 ==> before == all_deletions(job)
                &&& before.len() == 0 ==> job.deletion().profile is Some && (answer
                    == AnswerView::Cancelled(true) || run.stage is AfterNoConnect)
            } else {
                before + removals(actions) == deletions_by(job, next.stage)
            }
        }),
{
    broadcast use group_select;

    let (next, actions) = delete_next(run, answer);
    match run.stage {
        DeleteStage::Probing(index) => {
            assert(local_deletions(job, index) + removals(actions) == local_deletions(
                job,
                index + 1,
            ));
        },
        DeleteStage::Connecting => {
            assert(Seq::<Removal>::empty() + removals(actions) == removals(actions));
        },
        _ => {
            assert(deletions_by(job, run.stage) + removals(actions) == deletions_by(
                job,
                run.stage,
            ));
        },
    }
}

proof fn lemma_leg_removals(s: SessionView, asked: Seq<ActionView>, answer: AnswerView)
    requires
        s.wf(),
        s.expects(answer),
        !s.job.stays(),
        !(s.stage is Deleting) && !(s.stage is AfterLeg),
        deletions_fit(s, asked, false),
        told(asked).len() > 0,
    ensures
        deletions_fit(session_next(s, answer).0, asked + session_next(s, answer).1, false),
{
    let (after, actions) = session_next(s, answer);
    lemma_select_concat(asked, actions, file_removed());
    lemma_select_concat(asked, actions, message_sent());
    if let StageView::Leg { leg, temp_dir, run } = s.stage {
        lemma_rsync_arrivals(run, answer);
        let (next, some) = rsync_next(run, answer);
        lemma_leg_turn(s.job, leg, temp_dir, next, some);
    } else {
        lemma_preparation(s, answer);
    }
}

proof fn lemma_after_leg_removals(s: SessionView, asked: Seq<ActionView>, answer: AnswerView)
    requires
        s.wf(),
        s.expects(answer),
        s.stage is AfterLeg,
        deletions_fit(s, asked, false),
        told(asked).len() > 0,
    ensures
        deletions_fit(session_next(s, answer).0, asked + session_next(s, answer).1, false),
{
    let (after, actions) = session_next(s, answer);
    lemma_select_concat(asked, actions, file_removed());
    lemma_select_concat(asked, actions, message_sent());
    let (leg, temp_dir) = (s.stage->AfterLeg_leg, s.stage->AfterLeg_temp_dir);
    lemma_after_leg(s.job, leg, temp_dir, answer->Cancelled_0);
    lemma_arrived_deletions(s.job);
    assert(removals(asked + actions) == removals(actions));
}

proof fn lemma_deleting_removals(
    s: SessionView,
    asked: Seq<ActionView>,
    answer: AnswerView,
    spared: bool,
)
    requires
        s.wf(),
        s.expects(answer),
        s.stage is Deleting,
        deletions_fit(s, asked, false),
        answer == AnswerView::Cancelled(true) || s.stage->Deleting_0.stage is AfterNoConnect
            ==> spared,
    ensures
        deletions_fit(session_next(s, answer).0, asked + session_next(s, answer).1, spared),
{
    let (after, actions) = session_next(s, answer);
    lemma_select_concat(asked, actions, file_removed());
    lemma_select_concat(asked, actions, message_sent());
    let run = s.stage->Deleting_0;
    lemma_deletion_removals(s.job, run, answer);
    lemma_deletion_turn(s.job, run, answer);
}

/// A lost connection, once seen, is in the answers.
spec fn loss_fits(s: SessionView, answers: Seq<AnswerView>) -> bool {
    s.stage matches StageView::Deleting(run) ==> run.stage is AfterNoConnect ==> connection_failed(
        answers,
    )
}

proof fn lemma_run_removals(job: JobView, answers: Seq<AnswerView>)
    requires
        job.files().len() <= usize::MAX,
        !job.stays(),
        session_follows(job, answers),
    ensures
        deletions_fit(
            session_after(job, answers).0,
            session_after(job, answers).1,
            may_be_spared(job, answers),
        ),
        loss_fits(session_after(job, answers).0, answers),
    decreases answers.len(),
{
    if answers.len() > 0 {
        let front = answers.drop_last();
        let last = answers.last();
        lemma_run_removals(job, front);
        law_the_end_is_told_once(job, front);
        lemma_run_wf(job, front);
        let (s, asked) = session_after(job, front);
        if connection_failed(front) {
            let i = choose|i: int|
                0 <= i < front.len() && (#[trigger] front[i] matches AnswerView::Connected(Err(_)));
            assert(answers[i] matches AnswerView::Connected(Err(_)));
        }
        assert(answers[answers.len() - 1] == last);
        match s.stage {
            StageView::Deleting(_) => {
                lemma_deleting_removals(s, asked, last, may_be_spared(job, answers));
            },
            StageView::AfterLeg { .. } => lemma_after_leg_removals(s, asked, last),
            _ => lemma_leg_removals(s, asked, last),
        }
    } else {
        broadcast use group_select;

        assert(removals(session_after(job, answers).1).len() == 0);
    }
}

/// A transfer between two machines deletes nothing but the sources that it moves: local ones one by
/// one and in order, those on a server by one command. A transfer that copies deletes nothing.
pub proof fn law_only_moved_sources_are_deleted(job: JobView, answers: Seq<AnswerView>)
    requires
        job.files().len() <= usize::MAX,
        !job.stays(),
        session_follows(job, answers),
    ensures
        ({
            let gone = removals(session_after(job, answers).1);
            &&& gone.len() > 0 ==> job.is_cut
            &&& gone.len() <= all_deletions(job).len()
            &&& gone == all_deletions(job).take(gone.len() as int)
        }),
{
    lemma_run_removals(job, answers);
    lemma_run_wf(job, answers);
    let gone = removals(session_after(job, answers).1);
    assert(gone =~= all_deletions(job).take(gone.len() as int));
}

/// No source is deleted before all files have been reported as transferred on every leg.
///
/// A cancellation that is taken back may end a leg and leave the transfer to go on without the
/// rest of its files.
pub proof fn law_deleted_sources_have_arrived(job: JobView, answers: Seq<AnswerView>)
    requires
        job.files().len() <= usize::MAX,
        !job.stays(),
        session_follows(job, answers),
        cancellation_stands(answers),
        removals(session_after(job, answers).1).len() > 0,
    ensures
        arrivals(session_after(job, answers).1) == all_arrivals(job),
{
    lemma_run_removals(job, answers);
    lemma_run_arrivals(job, answers);
    lemma_run_wf(job, answers);
    if session_after(job, answers).0.stage is Finished {
        law_success_means_that_all_files_arrived(job, answers);
    }
}

/// A transfer between two machines that is over has deleted nothing, or it has said that all files
/// have been transferred and has deleted all their sources. One that moves files and says so has
/// deleted the sources, except that those on a server may stay where the transfer was cancelled or
/// the server could not be reached again.
pub proof fn law_moved_sources_are_deleted(job: JobView, answers: Seq<AnswerView>)
    requires
        job.files().len() <= usize::MAX,
        !job.stays(),
        session_follows(job, answers),
        session_after(job, answers).0.stage is Finished,
    ensures
        deletions_are_due(job, session_after(job, answers).1, may_be_spared(job, answers)),
{
    lemma_run_removals(job, answers);
    lemma_run_wf(job, answers);
}

/// What a transfer from this machine deletes here is what rsync read: for each file the path that
/// stands as the source in its rsync command, in the order of the files, and no other path.
pub proof fn law_deleted_files_are_those_that_rsync_read(
    job: JobView,
    config: ConfigView,
    answers: Seq<AnswerView>,
)
    requires
        job.route == (RouteView::Direct { config, origin: None }),
        config.direction is LocalToRemote,
        config.files.len() <= usize::MAX,
        session_follows(job, answers),
    ensures
        ({
            let gone = removals(session_after(job, answers).1);
            &&& gone.len() <= config.files.len()
            &&& forall|i: int|
                0 <= i < gone.len() ==> #[trigger] gone[i] == (Removal::Local {
                    path: rsync_source(config, config.files[i]),
                })
            &&& forall|ssh_option: Seq<char>, login: Login, file: Seq<char>|
                {
                    let args = (#[trigger] rsync_command(config, ssh_option, login, file)).args;
                    args[args.len() - 2] == rsync_source(config, file)
                }
        }),
{
    law_only_moved_sources_are_deleted(job, answers);
}

/// A deletion after a sequence of answers, and all that it has asked for by then.
pub open spec fn delete_after(job: DeleteJob, answers: Seq<AnswerView>) -> (
    DeleteView,
    Seq<ActionView>,
)
    decreases answers.len(),
{
    if answers.len() == 0 {
        delete_start(job)
    } else {
        let (before, asked) = delete_after(job, answers.drop_last());
        let (after, actions) = delete_next(before, answers.last());
        (after, asked + actions)
    }
}

/// Whether each of a sequence of answers is one to what the deletion asked last.
pub open spec fn delete_follows(job: DeleteJob, answers: Seq<AnswerView>) -> bool
    decreases answers.len(),
{
    answers.len() > 0 ==> {
        &&& delete_follows(job, answers.drop_last())
        &&& delete_after(job, answers.drop_last()).0.expects(answers.last())
    }
}

/// Finds what is deleted on this machine: a path, and whether all below it goes too.
pub open spec fn local_deleted() -> spec_fn(ActionView) -> Option<(Seq<char>, bool)> {
    |a: ActionView|
        match a {
            ActionView::DeleteTree { path } => Some((path, true)),
            ActionView::DeleteFile { path } => Some((path, false)),
            _ => None,
        }
}

/// The local deletions that were asked for while these answers came: of each file in turn, with all
/// that is below it exactly where it was found to be a directory.
pub open spec fn deletions_asked(job: DeleteJob, answers: Seq<AnswerView>) -> Seq<(Seq<char>, bool)>
    decreases answers.len(),
{
    if answers.len() == 0 {
        Seq::empty()
    } else {
        let before = deletions_asked(job, answers.drop_last());
        match answers.last() {
            AnswerView::IsDir(is_dir) => before.push(
                (path_below(job.base, job.files[before.len() as int]), is_dir),
            ),
            _ => before,
        }
    }
}

/// The messages on the local deletions that failed, by these answers.
pub open spec fn deletion_errors(job: DeleteJob, answers: Seq<AnswerView>) -> Seq<MessageView>
    decreases answers.len(),
{
    if answers.len() == 0 {
        Seq::empty()
    } else {
        let before = deletion_errors(job, answers.drop_last());
        match answers.last() {
            AnswerView::LocalDeleted(Err(reason)) => before.push(
                MessageView::Error(
                    job.files[deletions_asked(job, answers).len() - 1],
                    "Failed to delete source: "@ + reason,
                ),
            ),
            _ => before,
        }
    }
}

/// How far a local deletion has come.
spec fn local_progress_fits(job: DeleteJob, d: DeleteView, asked: nat) -> bool {
    &&& d.job == job
    &&& d.wf()
    &&& asked <= job.files.len()
    &&& match d.stage {
        DeleteStage::Probing(index) => index == asked,
        DeleteStage::Local(index) => index + 1 == asked,
        DeleteStage::Done => asked == job.files.len(),
        _ => false,
    }
}

proof fn lemma_local_step(d: DeleteView, answer: AnswerView)
    requires
        d.wf(),
        d.job.profile is None,
        d.expects(answer),
    ensures
        ({
            let (next, actions) = delete_next(d, answer);
            &&& select(actions, local_deleted()) == match answer {
                AnswerView::IsDir(is_dir) => seq![
                    (
                        path_below(d.job.base, d.job.files[d.stage->Probing_0 as int]),
                        is_dir,
                    ),
                ],
                _ => Seq::empty(),
            }
            &&& told(actions) == match answer {
                AnswerView::LocalDeleted(Err(reason)) => seq![
                    MessageView::Error(
                        d.job.files[d.stage->Local_0 as int],
                        "Failed to delete source: "@ + reason,
                    ),
                ],
                _ => Seq::empty(),
            }
        }),
{
    broadcast use group_select;

}

/// Local sources are deleted one by one and in order: a directory with all that is below it, and
/// anything else as a single file. Each deletion that failed is told, in order, and nothing else is;
/// the others go on. The deletion is over exactly when it has been attempted for every source.
pub proof fn law_local_sources_are_deleted_one_by_one(job: DeleteJob, answers: Seq<AnswerView>)
    requires
        job.profile is None,
        job.files.len() <= usize::MAX,
        delete_follows(job, answers),
    ensures
        ({
            let (d, asked) = delete_after(job, answers);
            &&& select(asked, local_deleted()) == deletions_asked(job, answers)
            &&& told(asked) == deletion_errors(job, answers)
            &&& deletions_asked(job, answers).len() <= job.files.len()
            &&& d.stage is Done ==> deletions_asked(job, answers).len() == job.files.len()
            &&& answers.len() == 2 * job.files.len() <==> d.stage is Done
        }),
{
    lemma_local_run(job, answers);
}

proof fn lemma_local_run(job: DeleteJob, answers: Seq<AnswerView>)
    requires
        job.profile is None,
        job.files.len() <= usize::MAX,
        delete_follows(job, answers),
    ensures
        ({
            let (d, asked) = delete_after(job, answers);
            let count = deletions_asked(job, answers).len();
            &&& local_progress_fits(job, d, count)
            &&& select(asked, local_deleted()) == deletions_asked(job, answers)
            &&& told(asked) == deletion_errors(job, answers)
            &&& answers.len() == 2 * count - (if d.stage is Local {
                1int
            } else {
                0int
            })
        }),
    decreases answers.len(),
{
    if answers.len() > 0 {
        let front = answers.drop_last();
        lemma_local_run(job, front);
        let (d, asked) = delete_after(job, front);
        let actions = delete_next(d, answers.last()).1;
        lemma_local_step(d, answers.last());
        lemma_select_concat(asked, actions, local_deleted());
        lemma_select_concat(asked, actions, message_sent());
        assert(select(asked + actions, local_deleted()) =~= deletions_asked(job, answers));
        assert(told(asked + actions) =~= deletion_errors(job, answers));
    } else {
        broadcast use group_select;

    }
}

} // verus!
