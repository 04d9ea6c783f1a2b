//! The files of a whole transfer: each is taken in its turn, and once on each leg.

use crate::action::{ActionView, AnswerView};
use crate::delete::{delete_next, DeleteView};
use crate::rsync::{rsync_next, RsyncStage, RsyncView};
use crate::run::{
    group_select, lemma_run_wf, lemma_select_concat, session_after, session_follows,
};
use crate::story::{
    arrivals, cancellation_seen, cancellation_stands, file_arrived, file_started,
    lemma_stands_before, starts,
};
use crate::transfer::{
    leg_turn, session_next, JobView, Leg, RouteView, SessionView, StageView,
};
use vstd::prelude::*;

verus! {

/// Whether a list is the beginning of another one.
pub open spec fn begins(part: Seq<Seq<char>>, whole: Seq<Seq<char>>) -> bool {
    part.len() <= whole.len() && part == whole.take(part.len() as int)
}

/// The number of files that have been started on a leg.
spec fn started_on(run: RsyncView) -> nat {
    match run.stage {
        RsyncStage::KeyPath | RsyncStage::Sshpass | RsyncStage::Askpass => run.completed,
        RsyncStage::BeforeFile => run.completed,
        _ => run.completed + 1,
    }
}

proof fn lemma_rsync_files(run: RsyncView, answer: AnswerView)
    requires
        run.wf(),
        run.expects(answer),
    ensures
        ({
            let (next, actions) = rsync_next(run, answer);
            let files = run.config.files;
            &&& run.completed <= next.completed <= run.completed + 1
            &&& arrivals(actions) == files.subrange(run.completed as int, next.completed as int)
            &&& starts(actions) == if next.stage is Spawning {
                seq![run.file()]
            } else {
                Seq::empty()
            }
            &&& next.stage is Spawning ==> run.stage is BeforeFile
            &&& !(next.stage is Returned) ==> started_on(next) == started_on(run) + starts(
                actions,
            ).len()
            &&& run.completed < next.completed ==> started_on(run) == next.completed
            &&& next.stage == RsyncStage::Returned(None) ==> answer == AnswerView::Cancelled(true)
                || (next.completed == files.len() && started_on(run) == files.len())
            &&& next.completed <= started_on(run) + starts(actions).len() <= next.completed + 1
        }),
{
    broadcast use group_select;

}

proof fn lemma_leg_turn_takes_no_file(
    job: JobView,
    leg: Leg,
    temp_dir: Seq<char>,
    run: RsyncView,
    actions: Seq<ActionView>,
)
    ensures
        starts(leg_turn(job, leg, temp_dir, run, actions).1) == starts(actions),
        arrivals(leg_turn(job, leg, temp_dir, run, actions).1) == arrivals(actions),
{
    broadcast use group_select;

}

proof fn lemma_deletion_takes_no_file(run: DeleteView, answer: AnswerView)
    ensures
        starts(delete_next(run, answer).1).len() == 0,
        arrivals(delete_next(run, answer).1).len() == 0,
{
    broadcast use group_select;

}

/// How many files were taken before a leg.
spec fn taken_before(job: JobView, leg: Leg) -> nat {
    if leg is Upload {
        job.files().len()
    } else {
        0
    }
}

/// The files that a transfer takes, in order.
pub open spec fn all_taken(job: JobView) -> Seq<Seq<char>> {
    match job.route {
        RouteView::Direct { config, .. } => config.files,
        RouteView::Relay { files, .. } => files + files,
    }
}

/// How far a transfer has come with its files at each stage.
spec fn files_fit(s: SessionView, asked: Seq<ActionView>, cancelled: bool) -> bool {
    let whole = all_taken(s.job);
    let count = s.job.files().len();
    &&& begins(starts(asked), whole)
    &&& begins(arrivals(asked), whole)
    &&& arrivals(asked).len() <= starts(asked).len() <= arrivals(asked).len() + 1
    &&& match s.stage {
        StageView::Probing | StageView::MakingTempDir => starts(asked).len() == 0,
        StageView::Leg { leg, run, .. } => {
            &&& starts(asked).len() == taken_before(s.job, leg) + started_on(run)
            &&& arrivals(asked).len() == taken_before(s.job, leg) + run.completed
        },
        StageView::AfterLeg { leg, .. } => !cancelled ==> {
            &&& starts(asked).len() == taken_before(s.job, leg) + count
            &&& arrivals(asked).len() == taken_before(s.job, leg) + count
        },
        _ => true,
    }
}

proof fn lemma_begins_grows(part: Seq<Seq<char>>, more: Seq<Seq<char>>, whole: Seq<Seq<char>>)
    requires
        begins(part, whole),
        part.len() + more.len() <= whole.len(),
        forall|i: int| 0 <= i < more.len() ==> #[trigger] more[i] == whole[part.len() + i],
    ensures
        begins(part + more, whole),
{
    let all = part + more;
    assert forall|i: int| 0 <= i < all.len() implies #[trigger] all[i] == whole[i] by {
        if i < part.len() {
            assert(part[i] == whole.take(part.len() as int)[i]);
        } else {
            assert(all[i] == more[i - part.len()]);
        }
    }
    assert(all =~= whole.take(all.len() as int));
}

proof fn lemma_leg_files(
    s: SessionView,
    asked: Seq<ActionView>,
    answer: AnswerView,
    cancelled: bool,
)
    requires
        s.wf(),
        s.expects(answer),
        s.stage is Leg,
        files_fit(s, asked, cancelled),
    ensures
        files_fit(
            session_next(s, answer).0,
            asked + session_next(s, answer).1,
            cancelled || answer == AnswerView::Cancelled(true),
        ),
{
    let (leg, temp_dir, run) = (s.stage->Leg_leg, s.stage->Leg_temp_dir, s.stage->run);
    let (next, some) = rsync_next(run, answer);
    let actions = session_next(s, answer).1;
    let whole = all_taken(s.job);
    lemma_rsync_files(run, answer);
    lemma_leg_turn_takes_no_file(s.job, leg, temp_dir, next, some);
    lemma_select_concat(asked, actions, file_started());
    lemma_select_concat(asked, actions, file_arrived());
    lemma_begins_grows(starts(asked), starts(actions), whole);
    lemma_begins_grows(arrivals(asked), arrivals(actions), whole);
}

proof fn lemma_other_files(
    s: SessionView,
    asked: Seq<ActionView>,
    answer: AnswerView,
    cancelled: bool,
)
    requires
        s.wf(),
        s.expects(answer),
        !s.job.stays(),
        !(s.stage is Leg),
        files_fit(s, asked, cancelled),
        cancelled ==> answer != AnswerView::Cancelled(false),
    ensures
        files_fit(
            session_next(s, answer).0,
            asked + session_next(s, answer).1,
            cancelled || answer == AnswerView::Cancelled(true),
        ),
{
    broadcast use group_select;

    let actions = session_next(s, answer).1;
    if let StageView::Deleting(run) = s.stage {
        lemma_deletion_takes_no_file(run, answer);
    }
    lemma_select_concat(asked, actions, file_started());
    lemma_select_concat(asked, actions, file_arrived());
    assert(starts(actions).len() == 0);
    assert(arrivals(actions).len() == 0);
    assert(starts(asked) + starts(actions) =~= starts(asked));
    assert(arrivals(asked) + arrivals(actions) =~= arrivals(asked));
}

proof fn lemma_files(job: JobView, answers: Seq<AnswerView>)
    requires
        job.files().len() <= usize::MAX,
        !job.stays(),
        session_follows(job, answers),
        cancellation_stands(answers),
    ensures
        files_fit(
            session_after(job, answers).0,
            session_after(job, answers).1,
            cancellation_seen(answers),
        ),
    decreases answers.len(),
{
    if answers.len() > 0 {
        let front = answers.drop_last();
        let last = answers.last();
        lemma_stands_before(answers);
        lemma_files(job, front);
        lemma_run_wf(job, front);
        let (s, asked) = session_after(job, front);
        let cancelled = cancellation_seen(front);
        if s.stage is Leg {
            lemma_leg_files(s, asked, last, cancelled);
        } else {
            lemma_other_files(s, asked, last, cancelled);
        }
        assert(cancellation_seen(answers) <==> cancelled || last == AnswerView::Cancelled(true))
            by {
            if cancelled {
                let i = choose|i: int|
                    0 <= i < front.len() && front[i] == AnswerView::Cancelled(true);
                assert(answers[i] == AnswerView::Cancelled(true));
            }
            assert(answers[answers.len() - 1] == last);
            if cancellation_seen(answers) && last != AnswerView::Cancelled(true) {
                let i = choose|i: int|
                    0 <= i < answers.len() && answers[i] == AnswerView::Cancelled(true);
                assert(front[i] == AnswerView::Cancelled(true));
            }
        }
    } else {
        broadcast use group_select;

        let asked = session_after(job, answers).1;
        assert(starts(asked) =~= all_taken(job).take(0));
        assert(arrivals(asked) =~= all_taken(job).take(0));
    }
}

/// A transfer by rsync takes the files of its job in the given order: between this machine and a
/// server each of them once, between two servers each of them once on the way down and then once on
/// the way up. The next one is started only when the one before it has been reported as transferred.
///
/// A cancellation that is taken back may end a leg and leave the transfer to go on without the
/// rest of its files.
pub proof fn law_files_are_taken_in_their_turn(job: JobView, answers: Seq<AnswerView>)
    requires
        job.files().len() <= usize::MAX,
        match job.route {
            RouteView::Direct { .. } => true,
            RouteView::Relay { source, target, .. } => source.host != target.host || source.port
                != target.port || source.user != target.user,
        },
        session_follows(job, answers),
        cancellation_stands(answers),
    ensures
        ({
            let asked = session_after(job, answers).1;
            &&& begins(starts(asked), all_taken(job))
            &&& begins(arrivals(asked), all_taken(job))
            &&& arrivals(asked).len() <= starts(asked).len() <= arrivals(asked).len() + 1
        }),
{
    lemma_files(job, answers);
    lemma_run_wf(job, answers);
}

} // verus!
