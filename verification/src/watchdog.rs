//! The watchdog beside a running program: it ends the program when the transfer is cancelled.

use vstd::prelude::*;

verus! {

/// What a watchdog does next.
#[derive(Debug, Clone, Copy, PartialEq, Eq, Structural)]
pub enum WatchdogStep {
    /// The watched process is over: stop watching.
    Stop,
    /// The transfer has been cancelled: end the process with this id, and stop watching.
    Cancel { pid: u32 },
    /// Sleep for a poll interval, and look again.
    Sleep,
}

/// One look of a watchdog.
#[derive(Debug, Clone, Copy, PartialEq, Eq, Structural)]
pub struct Look {
    /// Whether the watched process is over.
    pub done: bool,
    /// Whether the transfer has been cancelled.
    pub cancelled: bool,
}

/// What a watchdog does after a look. A process that is over is never ended again.
pub open spec fn step_after_look(pid: u32, look: Look) -> WatchdogStep {
    if look.done {
        WatchdogStep::Stop
    } else if look.cancelled {
        WatchdogStep::Cancel { pid }
    } else {
        WatchdogStep::Sleep
    }
}

/// Decides what the watchdog of a process does after a look.
pub fn watchdog_step(pid: u32, look: Look) -> (step: WatchdogStep)
    ensures
        step == step_after_look(pid, look),
{
    if look.done {
        WatchdogStep::Stop
    } else if look.cancelled {
        WatchdogStep::Cancel { pid }
    } else {
        WatchdogStep::Sleep
    }
}

/// The steps of a watchdog, given what it would see at each look. It looks again only after it has
/// slept.
pub open spec fn watchdog_steps(pid: u32, looks: Seq<Look>) -> Seq<WatchdogStep>
    decreases looks.len(),
{
    if looks.len() == 0 {
        Seq::empty()
    } else {
        let before = watchdog_steps(pid, looks.drop_last());
        if before.len() > 0 && !(before.last() is Sleep) {
            before
        } else {
            before.push(step_after_look(pid, looks.last()))
        }
    }
}

/// Whether a look finds anything: the process over, or the transfer cancelled.
pub open spec fn finds(look: Look) -> bool {
    look.done || look.cancelled
}

/// A watchdog sleeps until a look finds something, and ends with that look. So it ends its process
/// at most once and no other one, only after it has seen the cancellation, and not at all where the
/// transfer is never seen cancelled or the process has been seen over by then. As soon as either
/// stays, the watchdog ends with its next look; and where it finds the cancellation first, it does
/// end the process.
pub proof fn law_watchdog_ends_the_process_at_most_once(pid: u32, looks: Seq<Look>)
    ensures
        ({
            let steps = watchdog_steps(pid, looks);
            &&& steps.len() <= looks.len()
            &&& forall|i: int|
                0 <= i < steps.len() ==> #[trigger] steps[i] == step_after_look(pid, looks[i])
            &&& forall|i: int| 0 <= i < steps.len() - 1 ==> #[trigger] steps[i] is Sleep
            &&& forall|i: int|
                0 <= i < steps.len() && #[trigger] steps[i] is Cancel ==> {
                    &&& i == steps.len() - 1
                    &&& steps[i] == (WatchdogStep::Cancel { pid })
                    &&& looks[i].cancelled
                    &&& forall|j: int| 0 <= j <= i ==> !(#[trigger] looks[j]).done
                }
            &&& (forall|j: int| 0 <= j < looks.len() ==> !(#[trigger] looks[j]).cancelled)
                ==> forall|i: int| 0 <= i < steps.len() ==> !(#[trigger] steps[i] is Cancel)
            &&& forall|k: int|
                0 <= k < looks.len() && finds(#[trigger] looks[k]) ==> {
                    &&& 0 < steps.len() <= k + 1
                    &&& !(steps.last() is Sleep)
                }
            &&& forall|k: int|
                0 <= k < looks.len() && (#[trigger] looks[k]).done && (forall|j: int|
                    0 <= j < k ==> !(#[trigger] looks[j]).cancelled) ==> forall|i: int|
                    0 <= i < steps.len() ==> !(#[trigger] steps[i] is Cancel)
            &&& (forall|j: int| 0 <= j < looks.len() ==> !finds(#[trigger] looks[j]))
                ==> steps.len() == looks.len()
            &&& forall|k: int|
                0 <= k < looks.len() && (#[trigger] looks[k]).cancelled && !looks[k].done && (
                forall|j: int| 0 <= j < k ==> !finds(#[trigger] looks[j])) ==> steps.len() == k + 1
                    && steps[k] == (WatchdogStep::Cancel { pid })
        }),
{
    lemma_watchdog_steps(pid, looks);
    let steps = watchdog_steps(pid, looks);
    assert forall|i: int| 0 <= i < steps.len() && #[trigger] steps[i] is Cancel implies {
        &&& i == steps.len() - 1
        &&& steps[i] == (WatchdogStep::Cancel { pid })
        &&& looks[i].cancelled
        &&& forall|j: int| 0 <= j <= i ==> !(#[trigger] looks[j]).done
    } by {
        assert forall|j: int| 0 <= j <= i implies !(#[trigger] looks[j]).done by {
            assert(steps[j] == step_after_look(pid, looks[j]));
        }
    }
    assert forall|k: int| 0 <= k < looks.len() && finds(#[trigger] looks[k]) implies 0 < steps.len()
        <= k + 1 && !(steps.last() is Sleep) by {
        if k < steps.len() {
            assert(steps[k] == step_after_look(pid, looks[k]));
        }
    }
    assert forall|k: int|
        0 <= k < looks.len() && (#[trigger] looks[k]).done && (forall|j: int|
            0 <= j < k ==> !(#[trigger] looks[j]).cancelled) implies forall|i: int|
        0 <= i < steps.len() ==> !(#[trigger] steps[i] is Cancel) by {
        assert(finds(looks[k]));
    }
    assert forall|k: int|
        0 <= k < looks.len() && (#[trigger] looks[k]).cancelled && !looks[k].done && (forall|j: int|
            0 <= j < k ==> !finds(#[trigger] looks[j])) implies steps.len() == k + 1 && steps[k]
        == (WatchdogStep::Cancel { pid }) by {
        assert(finds(looks[k]));
        let end = steps.len() - 1;
        assert(steps[end] == step_after_look(pid, looks[end]));
        if end < k {
            assert(!finds(looks[end]));
        }
    }
}

/// The steps end with the first look that finds something.
proof fn lemma_watchdog_steps(pid: u32, looks: Seq<Look>)
    ensures
        ({
            let steps = watchdog_steps(pid, looks);
            &&& steps.len() <= looks.len()
            &&& steps.len() == 0 ==> looks.len() == 0
            &&& forall|i: int|
                0 <= i < steps.len() ==> #[trigger] steps[i] == step_after_look(pid, looks[i])
            &&& forall|i: int| 0 <= i < steps.len() - 1 ==> #[trigger] steps[i] is Sleep
            &&& steps.len() < looks.len() ==> !(steps.last() is Sleep)
        }),
    decreases looks.len(),
{
    if looks.len() > 0 {
        lemma_watchdog_steps(pid, looks.drop_last());
    }
}

} // verus!
