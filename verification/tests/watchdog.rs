use remote_transfer::watchdog::{watchdog_step, Look, WatchdogStep};

fn look(done: bool, cancelled: bool) -> Look {
    Look { done, cancelled }
}

/// The steps of a watchdog that would see these looks.
fn watch(looks: &[Look]) -> Vec<WatchdogStep> {
    let mut steps = Vec::new();
    for look in looks {
        let step = watchdog_step(42, *look);
        steps.push(step);
        if step != WatchdogStep::Sleep {
            break;
        }
    }
    steps
}

#[test]
fn watchdog_ends_a_running_process_on_cancellation() {
    assert_eq!(watchdog_step(7, look(false, false)), WatchdogStep::Sleep);
    assert_eq!(watchdog_step(7, look(false, true)), WatchdogStep::Cancel { pid: 7 });
    assert_eq!(watchdog_step(7, look(true, false)), WatchdogStep::Stop);
    assert_eq!(watchdog_step(7, look(true, true)), WatchdogStep::Stop);
}

#[test]
fn watchdog_ends_the_process_at_most_once() {
    let idle = look(false, false);
    assert_eq!(
        watch(&[idle, idle, look(false, true), look(false, true)]),
        [WatchdogStep::Sleep, WatchdogStep::Sleep, WatchdogStep::Cancel { pid: 42 }]
    );
    assert_eq!(
        watch(&[idle, look(true, false), look(false, true)]),
        [WatchdogStep::Sleep, WatchdogStep::Stop]
    );
    assert_eq!(watch(&[look(true, true), look(false, true)]), [WatchdogStep::Stop]);
    assert_eq!(watch(&[idle, idle]), [WatchdogStep::Sleep, WatchdogStep::Sleep]);
}
