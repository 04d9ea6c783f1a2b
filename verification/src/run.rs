//! Whole runs of a transfer: the answers that it gets, and all that it asks for.

use crate::action::{ActionView, AnswerView};
use crate::transfer::{session_next, session_start, JobView, SessionView};
use vstd::prelude::*;

verus! {

/// The transfer after a sequence of answers, and all that it has asked for by then.
pub open spec fn session_after(job: JobView, answers: Seq<AnswerView>) -> (
    SessionView,
    Seq<ActionView>,
)
    decreases answers.len(),
{
    if answers.len() == 0 {
        session_start(job)
    } else {
        let (before, asked) = session_after(job, answers.drop_last());
        let (after, actions) = session_next(before, answers.last());
        (after, asked + actions)
    }
}

/// Whether each of a sequence of answers is one to what was asked last.
pub open spec fn session_follows(job: JobView, answers: Seq<AnswerView>) -> bool
    decreases answers.len(),
{
    answers.len() > 0 ==> {
        &&& session_follows(job, answers.drop_last())
        &&& session_after(job, answers.drop_last()).0.expects(answers.last())
    }
}

/// What `pick` finds in the elements of a sequence, in order.
pub open spec fn select<A, B>(s: Seq<A>, pick: spec_fn(A) -> Option<B>) -> Seq<B>
    decreases s.len(),
{
    if s.len() == 0 {
        Seq::empty()
    } else {
        match pick(s.last()) {
            Some(found) => select(s.drop_last(), pick).push(found),
            None => select(s.drop_last(), pick),
        }
    }
}

/// One more element adds what is found in it.
pub broadcast proof fn lemma_select_push<A, B>(s: Seq<A>, x: A, pick: spec_fn(A) -> Option<B>)
    ensures
        #[trigger] select(s.push(x), pick) == (match pick(x) {
            Some(found) => select(s, pick).push(found),
            None => select(s, pick),
        }),
{
    assert(s.push(x).drop_last() == s);
}

/// What is found in two sequences is found in the one and then in the other.
pub broadcast proof fn lemma_select_concat<A, B>(
    s: Seq<A>,
    t: Seq<A>,
    pick: spec_fn(A) -> Option<B>,
)
    ensures
        #[trigger] select(s + t, pick) == select(s, pick) + select(t, pick),
    decreases t.len(),
{
    if t.len() == 0 {
        assert(s + t == s);
        assert(select(s, pick) + select(t, pick) == select(s, pick));
    } else {
        lemma_select_concat(s, t.drop_last(), pick);
        assert((s + t).drop_last() == s + t.drop_last());
        assert(select(s + t, pick) == select(s, pick) + select(t, pick));
    }
}

/// Nothing is found in nothing.
pub broadcast proof fn lemma_select_empty<A, B>(pick: spec_fn(A) -> Option<B>)
    ensures
        #[trigger] select(Seq::<A>::empty(), pick) == Seq::<B>::empty(),
{
}

/// How a selection grows.
pub broadcast group group_select {
    lemma_select_push,
    lemma_select_concat,
    lemma_select_empty,
}

/// A transfer stays well-formed.
proof fn lemma_session_wf(s: SessionView, answer: AnswerView)
    requires
        s.wf(),
        s.expects(answer),
    ensures
        session_next(s, answer).0.wf(),
        session_next(s, answer).0.job == s.job,
{
}

/// A run stays well-formed, and keeps its job.
pub(crate) proof fn lemma_run_wf(job: JobView, answers: Seq<AnswerView>)
    requires
        job.files().len() <= usize::MAX,
        session_follows(job, answers),
    ensures
        session_after(job, answers).0.wf(),
        session_after(job, answers).0.job == job,
    decreases answers.len(),
{
    if answers.len() > 0 {
        lemma_run_wf(job, answers.drop_last());
        lemma_session_wf(session_after(job, answers.drop_last()).0, answers.last());
    }
}

} // verus!
