use photoframe::events::{ViewerCommand, ViewerState as ControlViewerState};
use photoframe::viewer_state::{ViewerSM, ViewerState};

#[test]
fn greeting_to_awake_by_time() {
    let start = 1_000u64;
    let mut sm = ViewerSM::new(100, start);
    assert_eq!(sm.current(), ViewerState::Greeting);
    assert!(sm.on_tick(start + 50).is_none());
    sm.on_photo_ready(start + 60);
    let ch = sm.on_tick(start + 100).unwrap();
    assert_eq!((ch.from, ch.to), (ViewerState::Greeting, ViewerState::Awake));
}

#[test]
fn toggle_sleep_cycle() {
    let t0 = 5_000u64;
    let mut sm = ViewerSM::new(0, t0);
    sm.on_photo_ready(t0);
    sm.on_tick(t0);
    sm.on_tick(t0 + 1);
    assert_eq!(sm.current(), ViewerState::Awake);
    sm.on_command(&ViewerCommand::ToggleState, t0).unwrap();
    assert_eq!(sm.current(), ViewerState::Asleep);
    sm.on_command(&ViewerCommand::ToggleState, t0).unwrap();
    assert_eq!(sm.current(), ViewerState::Awake);
}

#[test]
fn command_set_state() {
    let start = 0u64;
    let mut sm = ViewerSM::new(10, start);
    sm.on_photo_ready(start);
    sm.on_command(&ViewerCommand::SetState(ControlViewerState::Asleep), start).unwrap();
    assert_eq!(sm.current(), ViewerState::Asleep);
    sm.on_command(&ViewerCommand::SetState(ControlViewerState::Awake), start).unwrap();
    assert_eq!(sm.current(), ViewerState::Awake);
}

#[test]
fn waits_full_duration_before_leaving_greeting() {
    let start = 200u64;
    let mut sm = ViewerSM::new(100, start);
    assert_eq!(sm.current(), ViewerState::Greeting);
    assert!(sm.on_photo_ready(start + 10).is_none());
    assert_eq!(sm.current(), ViewerState::Greeting);
    let change = sm.on_tick(start + 100).unwrap();
    assert_eq!((change.from, change.to), (ViewerState::Greeting, ViewerState::Awake));
    assert_eq!(sm.current(), ViewerState::Awake);
}

#[test]
fn photo_after_duration_transitions_immediately() {
    let start = 0u64;
    let mut sm = ViewerSM::new(100, start);
    assert_eq!(sm.current(), ViewerState::Greeting);
    assert!(sm.on_tick(start + 100).is_none());
    assert_eq!(sm.current(), ViewerState::Greeting);
    let change = sm.on_photo_ready(start + 120).unwrap();
    assert_eq!((change.from, change.to), (ViewerState::Greeting, ViewerState::Awake));
    assert_eq!(sm.current(), ViewerState::Awake);
}

#[test]
fn toggle_from_greeting_goes_to_sleep_and_repeated_set_state_is_silent() {
    let mut sm = ViewerSM::new(1_000, 0);
    let ch = sm.on_command(&ViewerCommand::ToggleState, 5).unwrap();
    assert_eq!((ch.from, ch.to), (ViewerState::Greeting, ViewerState::Asleep));
    assert!(sm.on_command(&ViewerCommand::SetState(ControlViewerState::Asleep), 6).is_none());
    let ch = sm.on_command(&ViewerCommand::ToggleState, 7).unwrap();
    assert_eq!((ch.from, ch.to), (ViewerState::Asleep, ViewerState::Awake));
    // Greeting is never entered again, whatever happens.
    assert!(sm.on_tick(10_000).is_none());
    assert_eq!(sm.current(), ViewerState::Awake);
}
