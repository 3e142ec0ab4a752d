use photoframe::control::{interpret_control_command, parse_viewer_state, ControlDecision};
use photoframe::events::{ViewerCommand, ViewerState};
use photoframe::config::{MattingKind, TransitionKind};
use photoframe::scene::{showcase_caption, IrisStage};

#[test]
fn viewer_state_words_are_case_and_space_insensitive() {
    assert_eq!(parse_viewer_state("awake"), Some(ViewerState::Awake));
    assert_eq!(parse_viewer_state("  WAKE "), Some(ViewerState::Awake));
    assert_eq!(parse_viewer_state("On"), Some(ViewerState::Awake));
    assert_eq!(parse_viewer_state("asleep"), Some(ViewerState::Asleep));
    assert_eq!(parse_viewer_state("Sleeping\n"), Some(ViewerState::Asleep));
    assert_eq!(parse_viewer_state("off"), Some(ViewerState::Asleep));
    assert_eq!(parse_viewer_state("sleep"), Some(ViewerState::Asleep));
    assert_eq!(parse_viewer_state("dozing"), None);
    assert_eq!(parse_viewer_state(""), None);
}

#[test]
fn control_commands_map_to_viewer_commands() {
    assert_eq!(interpret_control_command("ToggleState", None), ControlDecision::Forward(ViewerCommand::ToggleState));
    assert_eq!(
        interpret_control_command("SetState", Some("awake")),
        ControlDecision::Forward(ViewerCommand::SetState(ViewerState::Awake))
    );
    assert_eq!(interpret_control_command("SetState", None), ControlDecision::MissingState);
    assert_eq!(interpret_control_command("SetState", Some("maybe")), ControlDecision::InvalidState);
    assert_eq!(interpret_control_command("togglestate", None), ControlDecision::Unsupported);
}

#[test]
fn showcase_caption_names_transition_and_mat() {
    assert_eq!(
        showcase_caption(Some(TransitionKind::EInk), Some(MattingKind::FixedColor)),
        "transition: e-ink    mat: fixed-color"
    );
    assert_eq!(showcase_caption(None, None), "transition: none    mat: full-bleed");
}

#[test]
fn iris_stage_numbers() {
    assert_eq!(IrisStage::Closing.as_u32(), 0);
    assert_eq!(IrisStage::Opening.as_u32(), 1);
}
