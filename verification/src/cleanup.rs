//! What a transfer makes on its way, and that it cleans all of it up again.

use crate::action::{ActionView, AnswerView};
use crate::delete::{delete_next, DeleteView};
use crate::rsync::{rsync_next, RsyncView};
use crate::run::{lemma_run_wf, session_after, session_follows};
use crate::same_server::{same_server_next, SameServerView};
use crate::transfer::{session_next, JobView, SessionView, StageView};
use vstd::prelude::*;

verus! {

/// What a transfer has made and must clean up again.
pub struct Holdings {
    /// Scripts that print a password.
    pub scripts: int,
    /// Temporary directories.
    pub temp_dirs: int,
    /// Connections to a server.
    pub connections: int,
    /// Running programs.
    pub programs: int,
}

impl Holdings {
    /// Nothing.
    pub open spec fn none() -> Holdings {
        Holdings { scripts: 0, temp_dirs: 0, connections: 0, programs: 0 }
    }

    /// The two together.
    pub open spec fn plus(self, other: Holdings) -> Holdings {
        Holdings {
            scripts: self.scripts + other.scripts,
            temp_dirs: self.temp_dirs + other.temp_dirs,
            connections: self.connections + other.connections,
            programs: self.programs + other.programs,
        }
    }
}

/// What an answer adds or takes away: a thing has been made, or a program has been waited for. A
/// script that could not be made has been removed by the one who tried.
pub open spec fn gain(answer: AnswerView) -> Holdings {
    let none = Holdings::none();
    match answer {
        AnswerView::AskpassCreated(Ok(_)) => Holdings { scripts: 1, ..none },
        AnswerView::TempDir(Ok(_)) => Holdings { temp_dirs: 1, ..none },
        AnswerView::Connected(Ok(_)) => Holdings { connections: 1, ..none },
        AnswerView::Spawned(Ok(_)) => Holdings { programs: 1, ..none },
        AnswerView::ChildExited(_) => Holdings { programs: -1, ..none },
        _ => none,
    }
}

/// What an action takes away: a thing is removed, closed or ended.
pub open spec fn release(action: ActionView) -> Holdings {
    let none = Holdings::none();
    match action {
        ActionView::RemoveAskpass => Holdings { scripts: -1, ..none },
        ActionView::RemoveTempDir => Holdings { temp_dirs: -1, ..none },
        ActionView::CloseSsh => Holdings { connections: -1, ..none },
        ActionView::KillChild => Holdings { programs: -1, ..none },
        _ => none,
    }
}

/// What some answers add and take away.
pub open spec fn gains(answers: Seq<AnswerView>) -> Holdings
    decreases answers.len(),
{
    if answers.len() == 0 {
        Holdings::none()
    } else {
        gains(answers.drop_last()).plus(gain(answers.last()))
    }
}

/// What some actions take away.
pub open spec fn releases(actions: Seq<ActionView>) -> Holdings
    decreases actions.len(),
{
    if actions.len() == 0 {
        Holdings::none()
    } else {
        releases(actions.drop_last()).plus(release(actions.last()))
    }
}

broadcast proof fn lemma_releases_push(actions: Seq<ActionView>, action: ActionView)
    ensures
        #[trigger] releases(actions.push(action)) == releases(actions).plus(release(action)),
{
    assert(actions.push(action).drop_last() == actions);
}

broadcast proof fn lemma_releases_concat(first: Seq<ActionView>, second: Seq<ActionView>)
    ensures
        #[trigger] releases(first + second) == releases(first).plus(releases(second)),
    decreases second.len(),
{
    if second.len() == 0 {
        assert(first + second == first);
    } else {
        lemma_releases_concat(first, second.drop_last());
        assert((first + second).drop_last() == first + second.drop_last());
    }
}

broadcast proof fn lemma_releases_empty()
    ensures
        #[trigger] releases(Seq::<ActionView>::empty()) == Holdings::none(),
{
}

broadcast group group_releases {
    lemma_releases_push,
    lemma_releases_concat,
    lemma_releases_empty,
}

/// One for a thing that is there, nothing for one that is not.
pub open spec fn one_if(there: bool) -> int {
    if there {
        1
    } else {
        0
    }
}

/// What a run of rsync holds.
pub open spec fn rsync_holds(run: RsyncView) -> Holdings {
    let over = run.stage is Returned;
    Holdings {
        scripts: one_if(!over && run.login is Askpass),
        programs: one_if(
            run.stage is BeforeRead || run.stage is Reading || run.stage is Exiting,
        ),
        ..Holdings::none()
    }
}

/// What a transfer on one server holds.
pub open spec fn same_server_holds(run: SameServerView) -> Holdings {
    Holdings { connections: one_if(run.connected()), ..Holdings::none() }
}

/// What a deletion holds.
pub open spec fn deletion_holds(run: DeleteView) -> Holdings {
    Holdings {
        connections: one_if(run.stage is Running || run.stage is AfterLoss),
        ..Holdings::none()
    }
}

/// What a transfer holds.
pub open spec fn holds(s: SessionView) -> Holdings {
    match s.stage {
        StageView::Leg { leg, run, .. } => Holdings {
            temp_dirs: one_if(!(leg is Only)),
            ..rsync_holds(run)
        },
        StageView::AfterLeg { leg, .. } => Holdings {
            temp_dirs: one_if(leg is Download),
            ..Holdings::none()
        },
        StageView::SameServer(run) => same_server_holds(run),
        StageView::Deleting(run) => deletion_holds(run),
        _ => Holdings::none(),
    }
}

proof fn lemma_rsync_holds(run: RsyncView, answer: AnswerView)
    requires
        run.wf(),
        run.expects(answer),
    ensures
        rsync_holds(rsync_next(run, answer).0) == rsync_holds(run).plus(gain(answer)).plus(
            releases(rsync_next(run, answer).1),
        ),
{
    broadcast use group_releases;

}

proof fn lemma_same_server_holds(run: SameServerView, answer: AnswerView)
    requires
        run.wf(),
        run.expects(answer),
    ensures
        same_server_holds(same_server_next(run, answer).0) == same_server_holds(run).plus(
            gain(answer),
        ).plus(releases(same_server_next(run, answer).1)),
{
    broadcast use group_releases;

}

proof fn lemma_deletion_holds(run: DeleteView, answer: AnswerView)
    requires
        run.wf(),
        run.expects(answer),
    ensures
        deletion_holds(delete_next(run, answer).0) == deletion_holds(run).plus(gain(answer)).plus(
            releases(delete_next(run, answer).1),
        ),
{
    broadcast use group_releases;

}

proof fn lemma_session_holds(s: SessionView, answer: AnswerView)
    requires
        s.wf(),
        s.expects(answer),
    ensures
        holds(session_next(s, answer).0) == holds(s).plus(gain(answer)).plus(
            releases(session_next(s, answer).1),
        ),
{
    broadcast use group_releases;

    match s.stage {
        StageView::Leg { run, .. } => lemma_rsync_holds(run, answer),
        StageView::SameServer(run) => lemma_same_server_holds(run, answer),
        StageView::Deleting(run) => lemma_deletion_holds(run, answer),
        _ => {},
    }
}

/// A transfer cleans up behind itself, whatever happens. At any time what it holds is what has been
/// made and not yet removed, closed, waited for or ended; that is never more than one script that
/// prints a password, one temporary directory, one connection and one program. When the transfer is
/// over, it is nothing.
pub proof fn law_nothing_is_left_behind(job: JobView, answers: Seq<AnswerView>)
    requires
        job.files().len() <= usize::MAX,
        session_follows(job, answers),
    ensures
        ({
            let (s, asked) = session_after(job, answers);
            &&& gains(answers).plus(releases(asked)) == holds(s)
            &&& holds(s).scripts <= 1
            &&& holds(s).temp_dirs <= 1
            &&& holds(s).connections <= 1
            &&& holds(s).programs <= 1
            &&& s.stage is Finished ==> gains(answers).plus(releases(asked)) == Holdings::none()
        }),
    decreases answers.len(),
{
    broadcast use group_releases;

    if answers.len() > 0 {
        let front = answers.drop_last();
        law_nothing_is_left_behind(job, front);
        lemma_run_wf(job, front);
        lemma_session_holds(session_after(job, front).0, answers.last());
    }
}

} // verus!
