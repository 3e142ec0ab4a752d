//! Commands received on the viewer's control socket, after their JSON
//! payload has been read: which viewer command, if any, they stand for.
use vstd::prelude::*;
use crate::events::{ViewerCommand, ViewerState};
use crate::text::{ascii_lowercase_chars, ascii_lowercase_spec, chars_of, chars_equal, trim_chars, trim_spec};

verus! {

/// The power state named by `s` (already trimmed and lowercased).
pub open spec fn state_word(s: Seq<char>) -> Option<ViewerState> {
    if s == "awake"@ || s == "wake"@ || s == "on"@ {
        Some(ViewerState::Awake)
    } else if s == "asleep"@ || s == "sleep"@ || s == "sleeping"@ || s == "off"@ {
        Some(ViewerState::Asleep)
    } else {
        None
    }
}

fn is_word(s: &Vec<char>, word: &str) -> (b: bool)
    ensures
        b == (s@ == word@),
{
    let w = chars_of(word);
    chars_equal(s.as_slice(), w.as_slice())
}

/// The power state that `input` names, ignoring case and surrounding white
/// space: `awake`, `wake` or `on`; `asleep`, `sleep`, `sleeping` or `off`.
pub fn parse_viewer_state(input: &str) -> (r: Option<ViewerState>)
    ensures
        r == state_word(ascii_lowercase_spec(trim_spec(input@))),
{
    let chars = chars_of(input);
    let trimmed = trim_chars(&chars);
    let normalized = ascii_lowercase_chars(&trimmed);
    if is_word(&normalized, "awake") || is_word(&normalized, "wake") || is_word(&normalized, "on") {
        Some(ViewerState::Awake)
    } else if is_word(&normalized, "asleep") || is_word(&normalized, "sleep") || is_word(
        &normalized,
        "sleeping",
    ) || is_word(&normalized, "off") {
        Some(ViewerState::Asleep)
    } else {
        None
    }
}

/// What a control request amounts to.
#[derive(Debug, Clone, Copy, PartialEq, Eq)]
pub enum ControlDecision {
    /// Forward this command to the viewer.
    Forward(ViewerCommand),
    /// `SetState` without a state: ignored.
    MissingState,
    /// `SetState` with a state that names neither power state: ignored.
    InvalidState,
    /// Any other command: ignored.
    Unsupported,
}

/// The decision for the request `command` with the optional `state`.
pub open spec fn control_decision(command: Seq<char>, state: Option<Seq<char>>) -> ControlDecision {
    if command == "ToggleState"@ {
        ControlDecision::Forward(ViewerCommand::ToggleState)
    } else if command == "SetState"@ {
        match state {
            None => ControlDecision::MissingState,
            Some(s) => match state_word(ascii_lowercase_spec(trim_spec(s))) {
                Some(v) => ControlDecision::Forward(ViewerCommand::SetState(v)),
                None => ControlDecision::InvalidState,
            },
        }
    } else {
        ControlDecision::Unsupported
    }
}

/// Interprets a control request: `ToggleState`, or `SetState` with a state
/// (see `parse_viewer_state`); command names are case-sensitive.
pub fn interpret_control_command(command: &str, state: Option<&str>) -> (r: ControlDecision)
    ensures
        r == control_decision(
            command@,
            match state {
                Some(s) => Some(s@),
                None => None,
            },
        ),
{
    let name = chars_of(command);
    if is_word(&name, "ToggleState") {
        ControlDecision::Forward(ViewerCommand::ToggleState)
    } else if is_word(&name, "SetState") {
        match state {
            None => ControlDecision::MissingState,
            Some(raw) => match parse_viewer_state(raw) {
                Some(v) => ControlDecision::Forward(ViewerCommand::SetState(v)),
                None => ControlDecision::InvalidState,
            },
        }
    } else {
        ControlDecision::Unsupported
    }
}

/// A `SetState` request forwards `SetState` of exactly the state its word
/// names, whatever the case and surrounding white space: `asleep`, `sleep`,
/// `sleeping` and `off` put the viewer to sleep; `awake`, `wake` and `on`
/// wake it. It forwards `SetState(v)` exactly when `parse_viewer_state`
/// reads `v` from the same word.
pub proof fn lemma_set_state_forwards_named_state(s: Seq<char>)
    ensures
        ({
            let w = ascii_lowercase_spec(trim_spec(s));
            &&& (w == "asleep"@ || w == "sleep"@ || w == "sleeping"@ || w == "off"@) ==> control_decision(
                "SetState"@,
                Some(s),
            ) == ControlDecision::Forward(ViewerCommand::SetState(ViewerState::Asleep))
            &&& (w == "awake"@ || w == "wake"@ || w == "on"@) ==> control_decision("SetState"@, Some(s))
                == ControlDecision::Forward(ViewerCommand::SetState(ViewerState::Awake))
            &&& control_decision("SetState"@, Some(s)) matches ControlDecision::Forward(
                ViewerCommand::SetState(v),
            ) ==> state_word(w) == Some(v)
        }),
{
    reveal_strlit("SetState");
    reveal_strlit("ToggleState");
    reveal_strlit("asleep");
    reveal_strlit("sleep");
    reveal_strlit("sleeping");
    reveal_strlit("off");
    reveal_strlit("awake");
    reveal_strlit("wake");
    reveal_strlit("on");
    assert("SetState"@ != "ToggleState"@) by {
        assert("SetState"@.len() != "ToggleState"@.len());
    }
    let w = ascii_lowercase_spec(trim_spec(s));
    if w == "sleep"@ {
        assert(w[0] != "awake"@[0]);
        assert(w.len() != "wake"@.len() && w.len() != "on"@.len());
    }
    if w == "asleep"@ || w == "sleeping"@ || w == "off"@ {
        assert(w.len() != "awake"@.len() && w.len() != "wake"@.len());
        if w == "off"@ {
            assert(w[1] != "on"@[1]);
        } else {
            assert(w.len() != "on"@.len());
        }
    }
}

/// The other requests: `ToggleState` toggles whatever state comes with it;
/// `SetState` without a state, or with a word that names no power state, is
/// ignored as such; any other command name is unsupported.
pub proof fn lemma_other_requests(command: Seq<char>, state: Option<Seq<char>>)
    ensures
        command == "ToggleState"@ ==> control_decision(command, state) == ControlDecision::Forward(
            ViewerCommand::ToggleState,
        ),
        command == "SetState"@ && state is None ==> control_decision(command, state)
            == ControlDecision::MissingState,
        command == "SetState"@ && (state matches Some(s) && !(ascii_lowercase_spec(trim_spec(s))
            == "asleep"@ || ascii_lowercase_spec(trim_spec(s)) == "sleep"@ || ascii_lowercase_spec(
            trim_spec(s),
        ) == "sleeping"@ || ascii_lowercase_spec(trim_spec(s)) == "off"@ || ascii_lowercase_spec(
            trim_spec(s),
        ) == "awake"@ || ascii_lowercase_spec(trim_spec(s)) == "wake"@ || ascii_lowercase_spec(
            trim_spec(s),
        ) == "on"@)) ==> control_decision(command, state) == ControlDecision::InvalidState,
        command != "ToggleState"@ && command != "SetState"@ ==> control_decision(command, state)
            == ControlDecision::Unsupported,
{
    reveal_strlit("SetState");
    reveal_strlit("ToggleState");
    assert("SetState"@ != "ToggleState"@) by {
        assert("SetState"@.len() != "ToggleState"@.len());
    }
}

} // verus!
