use photoframe::awake::Timestamp;
use photoframe::events::ViewerState;
use photoframe::schedule_task::{wait_until, ScheduleAction, ScheduleDriver, ScheduleWake, IDLE_WAIT_NS};

const MS: u64 = 1_000_000;

#[test]
fn schedule_defers_initial_wake_for_greeting() {
    let mut driver = ScheduleDriver::new();
    let delay = 250 * MS;
    match driver.plan(true, delay, 0, None) {
        ScheduleAction::Wait { wait_ns, event } => {
            assert_eq!(wait_ns, delay);
            assert_eq!(event, ScheduleWake::InitialAwake);
        }
        other => panic!("woke before the greeting delay: {:?}", other),
    }
    assert_eq!(driver.fire(ScheduleWake::InitialAwake, true), Some(ViewerState::Awake));
    assert_eq!(driver.last_state, Some(true));
    // Nothing more to do until the next change.
    assert_eq!(driver.plan(true, delay, 300 * MS, None), ScheduleAction::Wait { wait_ns: IDLE_WAIT_NS, event: ScheduleWake::Idle });
}

#[test]
fn schedule_does_not_auto_wake_during_sleep_interval() {
    let mut driver = ScheduleDriver::new();
    assert_eq!(driver.plan(false, 250 * MS, 0, None), ScheduleAction::Send(ViewerState::Asleep));
    assert_eq!(driver.last_state, Some(false));
    match driver.plan(false, 250 * MS, 10 * MS, Some((5_000 * MS, true))) {
        ScheduleAction::Wait { wait_ns, event } => {
            assert_eq!(wait_ns, 5_000 * MS);
            assert_eq!(event, ScheduleWake::Transition(true));
        }
        other => panic!("unexpected {:?}", other),
    }
}

#[test]
fn transitions_beat_the_idle_wait_and_sleep_cancels_deferred_wake() {
    let mut driver = ScheduleDriver::new();
    let _ = driver.plan(true, 1_000 * MS, 0, Some((100 * MS, false)));
    assert_eq!(driver.initial_deadline, Some(1_000 * MS));
    assert_eq!(
        driver.plan(true, 1_000 * MS, 10 * MS, Some((100 * MS, false))),
        ScheduleAction::Wait { wait_ns: 100 * MS, event: ScheduleWake::Transition(false) }
    );
    assert_eq!(driver.fire(ScheduleWake::Transition(false), true), Some(ViewerState::Asleep));
    assert_eq!(driver.initial_deadline, None);
    assert_eq!(driver.plan(true, 0, 20 * MS, None), ScheduleAction::Send(ViewerState::Awake));
}

#[test]
fn wait_until_measures_forward_only() {
    let now = Timestamp { secs: 100, nanos: 500 };
    assert_eq!(wait_until(now, Timestamp { secs: 101, nanos: 500 }), 1_000_000_000);
    assert_eq!(wait_until(now, Timestamp { secs: 99, nanos: 0 }), 0);
    assert_eq!(wait_until(now, now), 0);
}
