use std::cell::{Cell, RefCell};
use std::rc::Rc;

use photoframe::button::{Action, ButtonTracker, Durations};
use photoframe::daemon::{ButtondFileConfig, ButtondSettings};
use photoframe::daemon::{
    configure_shutdown_args, parse_powerctl_state, select_sway_output, set_state_payload, CallLog, CommandExecutor,
    CommandSpec, ControlSocket, DetectError, FrameState, Runtime, SchedulerCommand, SchedulerInputs,
    SchedulerState, SchedulerStep, SchedulerTiming, ScreenDetection, ScreenDetector, ScreenRuntime, ScreenState,
    SocketIo, SwayOutput, SwayPower, TransitionSource, UnixControlSocket, ViewerMode, FORCE_SHUTDOWN_FLAG,
    NO_ASK_PASSWORD_FLAG,
};

fn durations() -> Durations {
    Durations::from_millis(20, 250, 400)
}

fn command(label: &str) -> CommandSpec {
    CommandSpec { label: label.to_string(), program: "/bin/true".to_string(), args: Vec::new() }
}

#[test]
fn configure_shutdown_args_adds_force_flags() {
    let mut args = vec![String::from("poweroff")];
    configure_shutdown_args(&mut args, true);
    assert!(args.iter().any(|arg| arg == FORCE_SHUTDOWN_FLAG));
    assert!(args.iter().any(|arg| arg == NO_ASK_PASSWORD_FLAG));
}

#[test]
fn configure_shutdown_args_removes_force_flags() {
    let mut args = vec![String::from("poweroff"), FORCE_SHUTDOWN_FLAG.to_string(), NO_ASK_PASSWORD_FLAG.to_string()];
    configure_shutdown_args(&mut args, false);
    assert_eq!(args, vec![String::from("poweroff")]);
}

#[test]
fn configure_shutdown_args_does_not_duplicate_flags() {
    let mut args = vec![String::from("poweroff"), FORCE_SHUTDOWN_FLAG.to_string()];
    configure_shutdown_args(&mut args, true);
    assert_eq!(args.iter().filter(|a| *a == FORCE_SHUTDOWN_FLAG).count(), 1);
    assert_eq!(args.iter().filter(|a| *a == NO_ASK_PASSWORD_FLAG).count(), 1);
}

#[test]
fn single_press_triggers_single_action() {
    let mut tracker = ButtonTracker::new(durations());
    let start = 10_000u64;
    tracker.on_press(start);
    assert!(tracker.on_release(start + 100).is_none());
    assert_eq!(tracker.handle_timeout(start + 600), Some(Action::Single));
}

#[test]
fn double_press_triggers_double_action() {
    let mut tracker = ButtonTracker::new(durations());
    let start = 10_000u64;
    tracker.on_press(start);
    assert!(tracker.on_release(start + 120).is_none());
    let second_press = start + 220;
    tracker.on_press(second_press);
    assert_eq!(tracker.on_release(second_press + 80), Some(Action::Double));
}

#[test]
fn bouncing_release_does_not_trigger_double() {
    let mut tracker = ButtonTracker::new(durations());
    let start = 10_000u64;
    tracker.on_press(start);
    let bounce_release = start + 60;
    assert!(tracker.on_release(bounce_release).is_none());
    let bounce_press = bounce_release + 40;
    tracker.on_press(bounce_press);
    assert!(tracker.on_release(bounce_press + 60).is_none());
    assert_eq!(tracker.handle_timeout(start + 700), Some(Action::Single));
}

const SAMPLE_OUTPUT: &str = r#"
[
  {"name": "HDMI-A-1", "power": "on"},
  {"name": "HDMI-A-2", "power": "off"}
]
"#;

const SAMPLE_BOOL_OUTPUT: &str = r#"
[
  {"name": "HDMI-A-1", "power": true},
  {"name": "HDMI-A-2", "power": false}
]
"#;

fn outputs_from_json(text: &str) -> Vec<SwayOutput> {
    let value: serde_json::Value = serde_json::from_str(text).expect("valid json");
    value
        .as_array()
        .expect("array")
        .iter()
        .map(|o| SwayOutput {
            name: o["name"].as_str().expect("name").to_string(),
            power: match &o["power"] {
                serde_json::Value::Bool(b) => Some(SwayPower::from_bool(*b)),
                serde_json::Value::String(s) => SwayPower::from_name(s),
                _ => None,
            },
        })
        .collect()
}

#[test]
fn parse_defaults_to_first_connected_output() {
    let detection = select_sway_output(&outputs_from_json(SAMPLE_OUTPUT), None).expect("expected connected output");
    assert_eq!(detection.name, "HDMI-A-1");
    assert_eq!(detection.state, ScreenState::On);
}

#[test]
fn parse_respects_disabled_named_output() {
    let detection =
        select_sway_output(&outputs_from_json(SAMPLE_OUTPUT), Some("HDMI-A-2")).expect("expected named output");
    assert_eq!(detection.name, "HDMI-A-2");
    assert_eq!(detection.state, ScreenState::Off);
}

#[test]
fn parse_accepts_boolean_power_values() {
    let outputs = outputs_from_json(SAMPLE_BOOL_OUTPUT);
    let detection = select_sway_output(&outputs, None).expect("expected connected output");
    assert_eq!(detection.name, "HDMI-A-1");
    assert_eq!(detection.state, ScreenState::On);
    let detection = select_sway_output(&outputs, Some("HDMI-A-2")).expect("expected named output");
    assert_eq!(detection.name, "HDMI-A-2");
    assert_eq!(detection.state, ScreenState::Off);
}

#[test]
fn select_reports_missing_named_output() {
    match select_sway_output(&outputs_from_json(SAMPLE_OUTPUT), Some("DP-9")) {
        Err(DetectError::NoOutputNamed(name)) => assert_eq!(name, "DP-9"),
        other => panic!("unexpected {:?}", other),
    }
    match select_sway_output(&Vec::new(), None) {
        Err(DetectError::NoPoweredOutput) => {}
        other => panic!("unexpected {:?}", other),
    }
}

#[test]
fn powerctl_state_is_read_around_white_space() {
    assert_eq!(parse_powerctl_state("on\n"), Some(ScreenState::On));
    assert_eq!(parse_powerctl_state("  off "), Some(ScreenState::Off));
    assert_eq!(parse_powerctl_state("standby"), None);
    assert_eq!(SwayPower::from_name("on"), Some(SwayPower::On));
    assert_eq!(SwayPower::from_name("On"), None);
}

#[derive(Clone, Default)]
struct Clock(Rc<Cell<u64>>);

impl Clock {
    fn tick(&self) -> u64 {
        let t = self.0.get() + 1;
        self.0.set(t);
        t
    }
}

#[derive(Clone)]
struct RecordingExecutor {
    clock: Clock,
    calls: Rc<RefCell<Vec<(String, u64)>>>,
    waits: Rc<RefCell<Vec<(u64, u64)>>>,
}

impl CommandExecutor for RecordingExecutor {
    fn execute(&self, command: &CommandSpec, _log: &mut CallLog) -> Result<(), String> {
        self.calls.borrow_mut().push((command.label.clone(), self.clock.tick()));
        Ok(())
    }

    fn wait(&self, delay_ms: u64, _log: &mut CallLog) {
        self.waits.borrow_mut().push((delay_ms, self.clock.tick()));
    }
}

#[derive(Clone)]
struct RecordingControlSocket {
    clock: Clock,
    events: Rc<RefCell<Vec<(ViewerMode, u64)>>>,
}

impl ControlSocket for RecordingControlSocket {
    fn send_set_state(&self, state: ViewerMode, _log: &mut CallLog) -> Result<(), String> {
        self.events.borrow_mut().push((state, self.clock.tick()));
        Ok(())
    }
}

#[derive(Clone)]
struct StaticDetector {
    state: ScreenState,
}

impl ScreenDetector for StaticDetector {
    fn detect(&self, display_name: Option<&str>, _log: &mut CallLog) -> Result<ScreenDetection, String> {
        Ok(ScreenDetection { name: display_name.unwrap_or("mock").to_string(), state: self.state })
    }
}

fn recorders() -> (RecordingExecutor, RecordingControlSocket) {
    let clock = Clock::default();
    (
        RecordingExecutor { clock: clock.clone(), calls: Rc::default(), waits: Rc::default() },
        RecordingControlSocket { clock, events: Rc::default() },
    )
}

#[test]
fn wake_up_runs_power_on_before_viewer_notification() {
    let (executor, control) = recorders();
    let detector = StaticDetector { state: ScreenState::Off };
    let screen = ScreenRuntime::new(
        command("screen-on"),
        command("screen-off"),
        0,
        Some("HDMI-A-1".into()),
        executor.clone(),
        detector,
    );
    let mut runtime = Runtime::new(control.clone(), command("shutdown"), screen, executor.clone(), ViewerMode::Asleep);
    runtime.wake_up(TransitionSource::Manual, 0).expect("wake should succeed");

    let calls = executor.calls.borrow();
    let events = control.events.borrow();
    assert_eq!(calls.len(), 1);
    assert_eq!(calls[0].0, "screen-on");
    assert_eq!(events.len(), 1);
    assert_eq!(events[0].0, ViewerMode::Awake);
    assert!(calls[0].1 <= events[0].1);
}

#[test]
fn sleep_request_waits_before_power_off() {
    let (executor, control) = recorders();
    let detector = StaticDetector { state: ScreenState::On };
    let off_delay = 40u64;
    let screen = ScreenRuntime::new(
        command("screen-on"),
        command("screen-off"),
        off_delay,
        Some("HDMI-A-1".into()),
        executor.clone(),
        detector,
    );
    let mut runtime = Runtime::new(control.clone(), command("shutdown"), screen, executor.clone(), ViewerMode::Awake);
    runtime.go_to_sleep(TransitionSource::Manual, 0).expect("sleep should succeed");

    let calls = executor.calls.borrow();
    let events = control.events.borrow();
    let waits = executor.waits.borrow();
    assert_eq!(calls.len(), 1);
    assert_eq!(calls[0].0, "screen-off");
    assert_eq!(events.len(), 1);
    assert_eq!(events[0].0, ViewerMode::Asleep);
    assert!(events[0].1 <= calls[0].1);
    assert_eq!(waits.len(), 1);
    assert_eq!(waits[0].0, off_delay);
    assert!(events[0].1 < waits[0].1 && waits[0].1 < calls[0].1);
}

#[test]
fn manual_toggle_follows_detected_screen_state() {
    let (executor, control) = recorders();
    let screen = ScreenRuntime::new(
        command("screen-on"),
        command("screen-off"),
        0,
        None,
        executor.clone(),
        StaticDetector { state: ScreenState::Off },
    );
    let mut runtime = Runtime::new(control.clone(), command("shutdown"), screen, executor.clone(), ViewerMode::Asleep);
    runtime.handle_manual_toggle(5).expect("toggle");
    assert_eq!(runtime.current_viewer_mode(), ViewerMode::Awake);
    assert_eq!(runtime.shared_state().last_manual_awake(), Some(5));
    assert!(runtime.shared_state().greeting_complete());
    runtime.handle_double().expect("shutdown");
    assert_eq!(executor.calls.borrow().last().unwrap().0, "shutdown");
}

struct RecordingSocketIo {
    sent: RefCell<Vec<(String, Vec<u8>)>>,
    failures_left: Cell<u32>,
    pauses: Cell<u32>,
}

impl SocketIo for RecordingSocketIo {
    fn send(&self, path: &str, payload: &[u8]) -> Result<(), String> {
        if self.failures_left.get() > 0 {
            self.failures_left.set(self.failures_left.get() - 1);
            return Err("connection refused".to_string());
        }
        self.sent.borrow_mut().push((path.to_string(), payload.to_vec()));
        Ok(())
    }

    fn pause(&self, _ms: u64) {
        self.pauses.set(self.pauses.get() + 1);
    }
}

#[test]
fn control_socket_emits_set_state_json() {
    let io = RecordingSocketIo { sent: RefCell::new(Vec::new()), failures_left: Cell::new(0), pauses: Cell::new(0) };
    let socket = UnixControlSocket::new("/run/photo-frame/control.sock".to_string(), io);
    socket.send_set_state(ViewerMode::Awake, &mut CallLog::new()).expect("send payload");
    let sent = socket.io.sent.borrow();
    assert_eq!(sent.len(), 1);
    assert_eq!(String::from_utf8(sent[0].1.clone()).unwrap(), r#"{"command":"set-state","state":"awake"}"#);
    assert_eq!(set_state_payload(ViewerMode::Asleep).unwrap(), br#"{"command":"set-state","state":"asleep"}"#.to_vec());
}

#[test]
fn control_socket_retries_then_gives_up() {
    let io = RecordingSocketIo { sent: RefCell::new(Vec::new()), failures_left: Cell::new(2), pauses: Cell::new(0) };
    let socket = UnixControlSocket::new("sock".to_string(), io);
    assert!(socket.send_set_state(ViewerMode::Asleep, &mut CallLog::new()).is_ok());
    assert_eq!(socket.io.pauses.get(), 2);

    let io = RecordingSocketIo { sent: RefCell::new(Vec::new()), failures_left: Cell::new(5), pauses: Cell::new(0) };
    let socket = UnixControlSocket::new("sock".to_string(), io);
    assert_eq!(socket.send_set_state(ViewerMode::Asleep, &mut CallLog::new()), Err("connection refused".to_string()));
    assert_eq!(socket.io.pauses.get(), 2);
    assert!(socket.io.sent.borrow().is_empty());
}

fn inputs(now: u64, should_be_awake: bool, state: &FrameState, next: Option<u64>) -> SchedulerInputs {
    SchedulerInputs {
        now,
        should_be_awake,
        current_mode: state.mode(),
        last_manual_awake: state.last_manual_awake(),
        greeting_complete: state.greeting_complete(),
        next_transition_in: next,
    }
}

#[test]
fn scheduler_delays_initial_wake_until_greeting() {
    let start = 1_000u64;
    let timing = SchedulerTiming { greeting_ready_at: start + 60, sleep_grace: 0 };
    let state = FrameState::new(ViewerMode::Asleep);
    let mut driver = SchedulerState::new();
    match driver.step(&timing, &inputs(start, true, &state, None)) {
        SchedulerStep::Sleep(d) => assert_eq!(d, 60),
        other => panic!("woke too early: {:?}", other),
    }
    assert_eq!(driver.step(&timing, &inputs(start + 60, true, &state, None)), SchedulerStep::Send(SchedulerCommand::WakeUp));
}

#[test]
fn scheduler_respects_manual_sleep_grace() {
    let start = 5_000u64;
    let timing = SchedulerTiming { greeting_ready_at: start, sleep_grace: 80 };
    let mut state = FrameState::new(ViewerMode::Awake);
    state.update(ViewerMode::Awake, TransitionSource::Manual, start);
    let mut driver = SchedulerState::new();
    assert_eq!(driver.step(&timing, &inputs(start + 40, false, &state, None)), SchedulerStep::Sleep(40));
    assert_eq!(
        driver.step(&timing, &inputs(start + 80, false, &state, None)),
        SchedulerStep::Send(SchedulerCommand::GoToSleep)
    );
}

#[test]
fn scheduler_throttles_duplicate_commands() {
    let start = 0u64;
    let timing = SchedulerTiming { greeting_ready_at: start, sleep_grace: 0 };
    let state = FrameState::new(ViewerMode::Asleep);
    let mut driver = SchedulerState::new();
    assert_eq!(driver.step(&timing, &inputs(start, true, &state, None)), SchedulerStep::Send(SchedulerCommand::WakeUp));
    driver.sent(SchedulerCommand::WakeUp, start);
    // The frame has not reported awake yet: the command is not repeated.
    match driver.step(&timing, &inputs(start + 250, true, &state, None)) {
        SchedulerStep::Sleep(_) => {}
        other => panic!("duplicate command: {:?}", other),
    }
}

#[test]
fn settings_assemble_commands_from_configuration() {
    let mut file = ButtondFileConfig::default();
    file.screen.display_name = Some("HDMI-A-1".to_string());
    file.shutdown_command.label = String::new();
    let settings = ButtondSettings::from_file_config(file, Some("/dev/input/event3".to_string()), "/run/sock".to_string(), 4000);
    assert_eq!(settings.device.as_deref(), Some("/dev/input/event3"));
    assert_eq!(settings.shutdown_command.label, "shutdown");
    assert_eq!(settings.shutdown_command.args, vec!["poweroff", "-i", "--no-ask-password"]);
    assert_eq!(settings.screen_on_command.args, vec!["wake", "HDMI-A-1"]);
    assert_eq!(settings.screen_off_command.args, vec!["sleep", "HDMI-A-1"]);
    assert_eq!(settings.durations.debounce, 20);
    assert_eq!(settings.screen_off_delay_ms, 3500);
    assert_eq!(settings.greeting_screen_delay_ms, 4000);

    let mut quiet = ButtondFileConfig::default();
    quiet.force_shutdown = false;
    let settings = ButtondSettings::from_file_config(quiet, None, "/run/sock".to_string(), 0);
    assert_eq!(settings.device, None);
    assert_eq!(settings.shutdown_command.args, vec!["poweroff"]);
}
