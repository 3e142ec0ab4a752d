use std::cell::RefCell;
use std::collections::HashMap;

use photoframe::display_power::{
    detect_output, ensure_not_blank, parse_wlr_randr_outputs, BacklightSysfs, CommandTemplate, DisplayPowerController,
    DisplayPowerPlan, OutputSource, PlanError, PowerIo, PowerLog, ShellOutput,
};

struct StubIo {
    responses: RefCell<HashMap<String, Vec<Result<ShellOutput, String>>>>,
    writes: RefCell<Vec<(String, String)>>,
    calls: RefCell<Vec<String>>,
    write_error: Option<String>,
}

impl StubIo {
    fn new(map: HashMap<String, Vec<Result<ShellOutput, String>>>) -> Self {
        StubIo { responses: RefCell::new(map), writes: RefCell::new(Vec::new()), calls: RefCell::new(Vec::new()), write_error: None }
    }
}

impl PowerIo for StubIo {
    fn run_shell(&self, command: &str, _log: &mut PowerLog) -> Result<ShellOutput, String> {
        self.calls.borrow_mut().push(command.to_string());
        let mut responses = self.responses.borrow_mut();
        let list = responses
            .get_mut(command)
            .ok_or_else(|| format!("no stubbed response for command '{command}'"))?;
        if list.is_empty() {
            return Err(format!("no more stubbed responses for command '{command}'"));
        }
        list.remove(0)
    }

    fn write_file(&self, path: &str, value: &str, _log: &mut PowerLog) -> Result<(), String> {
        match &self.write_error {
            Some(e) => Err(e.clone()),
            None => {
                self.writes.borrow_mut().push((path.to_string(), value.to_string()));
                Ok(())
            }
        }
    }
}

fn output(code: i32, stdout: &str, stderr: &str) -> Result<ShellOutput, String> {
    Ok(ShellOutput { success: code == 0, exit_code: Some(code), stdout: stdout.to_string(), stderr: stderr.to_string() })
}

#[test]
fn replaces_output_placeholder_when_detected() {
    let mut map = HashMap::new();
    map.insert("wlr-randr".to_string(), vec![output(0, "HDMI-A-1 connected 3840x2160@60Hz\n", "")]);
    map.insert(
        "wlr-randr --output HDMI-A-1 --off || vcgencmd display_power 0".to_string(),
        vec![output(0, "", "")],
    );
    let plan = DisplayPowerPlan {
        sysfs: None,
        sleep_command: Some("wlr-randr --output @OUTPUT@ --off || vcgencmd display_power 0".to_string()),
        wake_command: None,
    };
    let mut controller = DisplayPowerController::with_runner(plan, StubIo::new(map)).unwrap();
    let report = controller.sleep();
    assert!(report.success());
    assert_eq!(report.commands.len(), 1);
    assert_eq!(report.commands[0].command, "wlr-randr --output HDMI-A-1 --off || vcgencmd display_power 0");
    assert_eq!(report.output.as_ref().map(|sel| sel.name.clone()), Some("HDMI-A-1".to_string()));
    assert_eq!(report.output.as_ref().map(|sel| sel.source), Some(OutputSource::Autodetected));
}

#[test]
fn falls_back_when_detection_fails() {
    let mut map = HashMap::new();
    map.insert("wlr-randr".to_string(), vec![output(1, "", "missing binary")]);
    map.insert("wlr-randr --output HDMI-A-1 --on  || vcgencmd display_power 1".to_string(), vec![output(0, "", "")]);
    let plan = DisplayPowerPlan {
        sysfs: None,
        sleep_command: None,
        wake_command: Some("wlr-randr --output @OUTPUT@ --on  || vcgencmd display_power 1".to_string()),
    };
    let mut controller = DisplayPowerController::with_runner(plan, StubIo::new(map)).unwrap();
    let report = controller.wake();
    assert!(report.success());
    assert_eq!(report.output.as_ref().map(|sel| sel.source), Some(OutputSource::Fallback));
    assert_eq!(report.commands[0].command, "wlr-randr --output HDMI-A-1 --on  || vcgencmd display_power 1");
}

#[test]
fn reports_failure_when_no_outputs_present() {
    let mut map = HashMap::new();
    map.insert("wlr-randr".to_string(), vec![output(0, "HDMI-A-1 disconnected\nDP-1 disconnected\n", "")]);
    let plan = DisplayPowerPlan { sysfs: None, sleep_command: Some("echo should-not-run @OUTPUT@".to_string()), wake_command: None };
    let mut controller = DisplayPowerController::with_runner(plan, StubIo::new(map)).unwrap();
    let report = controller.sleep();
    assert!(!report.success());
    assert!(report.commands.iter().all(|c| !c.success));
    assert_eq!(report.commands[0].command, "no connected outputs detected");
}

#[test]
fn sysfs_execution_is_recorded() {
    let sysfs = BacklightSysfs { path: "/sys/class/backlight/bl/bl_power".to_string(), sleep_value: "1".to_string(), wake_value: "0".to_string() };
    let plan = DisplayPowerPlan { sysfs: Some(sysfs), sleep_command: None, wake_command: None };
    let mut controller = DisplayPowerController::with_runner(plan, StubIo::new(HashMap::new())).unwrap();
    let report = controller.sleep();
    assert_eq!(report.sysfs.len(), 1);
    assert!(report.sysfs[0].success);
    assert_eq!(*controller.io.writes.borrow(), vec![("/sys/class/backlight/bl/bl_power".to_string(), "1".to_string())]);
    controller.io.write_error = Some("permission denied".to_string());
    let report = controller.wake();
    assert!(!report.sysfs[0].success);
    assert_eq!(report.sysfs[0].value, "0");
    assert_eq!(report.sysfs[0].error.as_deref(), Some("permission denied"));
    assert!(!report.success());
}

#[test]
fn detected_output_is_remembered() {
    let mut map = HashMap::new();
    map.insert("wlr-randr".to_string(), vec![output(0, "DP-2 connected\n", "")]);
    map.insert("off DP-2".to_string(), vec![output(0, "", "")]);
    map.insert("on DP-2".to_string(), vec![output(3, "", "busy")]);
    let plan = DisplayPowerPlan { sysfs: None, sleep_command: Some("off @OUTPUT@".to_string()), wake_command: Some("on @OUTPUT@".to_string()) };
    let mut controller = DisplayPowerController::with_runner(plan, StubIo::new(map)).unwrap();
    assert!(controller.sleep().success());
    let report = controller.wake();
    assert!(!report.success());
    assert_eq!(report.commands[0].exit_code, Some(3));
    assert_eq!(report.output.unwrap().name, "DP-2");
}

#[test]
fn plans_must_configure_something_and_commands_must_not_be_blank() {
    let io = || StubIo::new(HashMap::new());
    assert!(matches!(DisplayPowerController::with_runner(DisplayPowerPlan::default(), io()), Err(PlanError::NothingConfigured)));
    let blank = DisplayPowerPlan { sysfs: None, sleep_command: Some("  ".to_string()), wake_command: None };
    assert!(matches!(DisplayPowerController::with_runner(blank, io()), Err(PlanError::BlankSleepCommand)));
    let blank_wake = DisplayPowerPlan { sysfs: None, sleep_command: Some("x".to_string()), wake_command: Some("\t".to_string()) };
    assert!(matches!(DisplayPowerController::with_runner(blank_wake, io()), Err(PlanError::BlankWakeCommand)));
    assert_eq!(ensure_not_blank(" a "), Ok(()));
}

#[test]
fn wlr_randr_prefers_external_outputs() {
    assert_eq!(parse_wlr_randr_outputs("eDP-1 connected\nHDMI-A-2 connected\n"), Some("HDMI-A-2".to_string()));
    assert_eq!(parse_wlr_randr_outputs("eDP-1 connected\nLVDS-1 connected"), Some("eDP-1".to_string()));
    assert_eq!(parse_wlr_randr_outputs("  DP-1   connected  extra\r\n"), Some("DP-1".to_string()));
    assert_eq!(parse_wlr_randr_outputs("DP-1 disconnected\n\n  \n"), None);
    assert_eq!(parse_wlr_randr_outputs(""), None);
    assert_eq!(parse_wlr_randr_outputs("HDMI-A-1\n"), None);
}

#[test]
fn templates_replace_every_placeholder() {
    let t = CommandTemplate::new("a @OUTPUT@ b @OUTPUT@".to_string());
    assert!(t.needs_output);
    assert_eq!(t.render("X"), "a X b X");
    let plain = CommandTemplate::new("vcgencmd display_power 0".to_string());
    assert!(!plain.needs_output);
    assert_eq!(plain.render("X"), "vcgencmd display_power 0");
}

#[test]
fn detection_reads_listing_or_falls_back() {
    let found = detect_output(output(0, "eDP-1 connected\nDP-3 connected\n", "")).unwrap();
    assert_eq!(found.name, "DP-3");
    assert_eq!(found.source, OutputSource::Autodetected);
    assert!(detect_output(output(0, "DP-3 disconnected\n", "")).is_none());
    let failed = detect_output(output(2, "DP-3 connected\n", "boom")).unwrap();
    assert_eq!(failed.name, "HDMI-A-1");
    assert_eq!(failed.source, OutputSource::Fallback);
    let missing = detect_output(Err("not found".to_string())).unwrap();
    assert_eq!(missing.name, "HDMI-A-1");
    assert_eq!(missing.source, OutputSource::Fallback);
}

#[test]
fn runner_sees_probe_then_rendered_command_and_never_a_skipped_one() {
    let mut map = HashMap::new();
    map.insert("wlr-randr".to_string(), vec![output(0, "HDMI-A-1 connected 3840x2160@60Hz\n", "")]);
    map.insert("wlr-randr --output HDMI-A-1 --off".to_string(), vec![output(0, "", "")]);
    let plan = DisplayPowerPlan {
        sysfs: None,
        sleep_command: Some("wlr-randr --output @OUTPUT@ --off".to_string()),
        wake_command: None,
    };
    let mut controller = DisplayPowerController::with_runner(plan, StubIo::new(map)).unwrap();
    assert!(controller.sleep().success());
    assert_eq!(*controller.io.calls.borrow(), vec!["wlr-randr".to_string(), "wlr-randr --output HDMI-A-1 --off".to_string()]);

    let mut map = HashMap::new();
    map.insert("wlr-randr".to_string(), vec![output(0, "HDMI-A-1 disconnected\n", "")]);
    let plan = DisplayPowerPlan { sysfs: None, sleep_command: Some("echo should-not-run @OUTPUT@".to_string()), wake_command: None };
    let mut controller = DisplayPowerController::with_runner(plan, StubIo::new(map)).unwrap();
    assert!(!controller.sleep().success());
    assert_eq!(*controller.io.calls.borrow(), vec!["wlr-randr".to_string()]);
}
