//! Small pieces of the viewer's scenes: redraw requests, the iris stage as
//! the shader reads it, and the caption of the showcase mode.
use vstd::prelude::*;
use crate::config::{matting_kind_name, transition_kind_name, MattingKind, TransitionKind};
use crate::text::{chars_of, string_from_chars};

verus! {

/// Whether a scene needs another frame drawn.
#[derive(Debug, Clone, Copy, PartialEq, Eq, Structural)]
pub enum RenderResult {
    Idle,
    NeedsRedraw,
}

/// The half of the iris transition being drawn.
#[derive(Debug, Clone, Copy, PartialEq, Eq, Structural)]
pub enum IrisStage {
    Closing,
    Opening,
}

impl IrisStage {
    /// The stage as the shader's uniform: 0 closing, 1 opening.
    pub fn as_u32(self) -> (r: u32)
        ensures
            r == (match self {
                IrisStage::Closing => 0u32,
                IrisStage::Opening => 1u32,
            }),
    {
        match self {
            IrisStage::Closing => 0,
            IrisStage::Opening => 1,
        }
    }
}

/// The caption naming the current transition and mat.
pub open spec fn caption_spec(transition: Option<TransitionKind>, mat: Option<MattingKind>) -> Seq<char> {
    let t = match transition {
        Some(k) => transition_kind_name(k),
        None => "none"@,
    };
    let m = match mat {
        Some(k) => matting_kind_name(k),
        None => "full-bleed"@,
    };
    "transition: "@ + t + "    mat: "@ + m
}

fn append_str(out: &mut Vec<char>, s: &str)
    ensures
        final(out)@ == old(out)@ + s@,
{
    let chars = chars_of(s);
    let mut i: usize = 0;
    while i < chars.len()
        invariant
            0 <= i <= chars@.len(),
            chars@ == s@,
            out@ == old(out)@ + chars@.subrange(0, i as int),
        decreases chars.len() - i,
    {
        out.push(chars[i]);
        i = i + 1;
    }
    assert(chars@.subrange(0, chars@.len() as int) == chars@);
}

/// The showcase caption, `transition: <kind>    mat: <kind>`; `none` without
/// a transition and `full-bleed` without a mat.
pub fn showcase_caption(transition_kind: Option<TransitionKind>, mat_kind: Option<MattingKind>) -> (r: String)
    ensures
        r@ == caption_spec(transition_kind, mat_kind),
{
    let t: &str = match transition_kind {
        Some(k) => k.as_str(),
        None => "none",
    };
    let m: &str = match mat_kind {
        Some(k) => k.as_str(),
        None => "full-bleed",
    };
    let mut out: Vec<char> = Vec::new();
    append_str(&mut out, "transition: ");
    append_str(&mut out, t);
    append_str(&mut out, "    mat: ");
    append_str(&mut out, m);
    proof {
        assert(Seq::<char>::empty() + "transition: "@ == "transition: "@);
    }
    string_from_chars(out.as_slice())
}

} // verus!
