//! `DiarizerKind`: the diarizers scrybe ships, their config names, and
//! the auto-routing rule that turns a configured choice plus runtime
//! evidence into a concrete kind.

use vstd::prelude::*;

use crate::context::MeetingContext;
use crate::diarize::{needs_neural, requires_neural};
use crate::text::{str_eq, string_from_chars, push_str};
use crate::types::Capabilities;

verus! {

/// Stable string used in `[diarizer] kind = "..."`.
pub const DIARIZER_KIND_BINARY_CHANNEL: &'static str = "binary-channel";

/// Stable string used in `[diarizer] kind = "..."`.
pub const DIARIZER_KIND_PYANNOTE_ONNX: &'static str = "pyannote-onnx";

/// Every diarizer the pipeline can route through.
#[derive(Clone, Copy, Debug, PartialEq, Eq, Structural)]
pub enum DiarizerKind {
    /// Binary channel attribution; correct for 1:1 calls.
    BinaryChannel,
    /// Neural fallback for multi-party and in-room meetings.
    PyannoteOnnx,
}

impl Default for DiarizerKind {
    fn default() -> (k: Self)
        ensures
            k == DiarizerKind::BinaryChannel,
    {
        DiarizerKind::BinaryChannel
    }
}

/// The kind a config string names, if any.
pub open spec fn kind_of_name(s: Seq<char>) -> Option<DiarizerKind> {
    if s == DIARIZER_KIND_BINARY_CHANNEL@ {
        Some(DiarizerKind::BinaryChannel)
    } else if s == DIARIZER_KIND_PYANNOTE_ONNX@ {
        Some(DiarizerKind::PyannoteOnnx)
    } else {
        None
    }
}

/// The config string of a kind.
pub open spec fn name_of_kind(k: DiarizerKind) -> Seq<char> {
    match k {
        DiarizerKind::BinaryChannel => DIARIZER_KIND_BINARY_CHANNEL@,
        DiarizerKind::PyannoteOnnx => DIARIZER_KIND_PYANNOTE_ONNX@,
    }
}

impl DiarizerKind {
    /// Parses a config string; `None` for unknown values (the match is
    /// exact and case-sensitive).
    pub fn from_config_str(s: &str) -> (r: Option<DiarizerKind>)
        ensures
            r == kind_of_name(s@),
    {
        if str_eq(s, DIARIZER_KIND_BINARY_CHANNEL) {
            Some(DiarizerKind::BinaryChannel)
        } else if str_eq(s, DIARIZER_KIND_PYANNOTE_ONNX) {
            Some(DiarizerKind::PyannoteOnnx)
        } else {
            None
        }
    }

    /// Stable string surfaced in `[diarizer] kind` and in `meta.toml`.
    pub fn as_str(self) -> (s: &'static str)
        ensures
            s@ == name_of_kind(self),
    {
        match self {
            DiarizerKind::BinaryChannel => DIARIZER_KIND_BINARY_CHANNEL,
            DiarizerKind::PyannoteOnnx => DIARIZER_KIND_PYANNOTE_ONNX,
        }
    }

    /// The displayed form of a kind: its config string.
    pub fn to_string(&self) -> (s: String)
        ensures
            s@ == name_of_kind(*self),
    {
        let mut out: Vec<char> = Vec::new();
        push_str(&mut out, self.as_str());
        string_from_chars(out.as_slice())
    }
}

/// Every kind's config string parses back to that kind.
pub proof fn kind_names_round_trip(k: DiarizerKind)
    ensures
        kind_of_name(name_of_kind(k)) == Some(k),
{
    reveal_strlit("binary-channel");
    reveal_strlit("pyannote-onnx");
    assert(DIARIZER_KIND_BINARY_CHANNEL@ != DIARIZER_KIND_PYANNOTE_ONNX@) by {
        assert(DIARIZER_KIND_BINARY_CHANNEL@[0] != DIARIZER_KIND_PYANNOTE_ONNX@[0]);
    }
}

/// What `select_kind` resolves to.
pub open spec fn selected_kind(
    configured: Option<DiarizerKind>,
    caps: Capabilities,
    ctx: MeetingContext,
) -> DiarizerKind {
    match configured {
        Some(k) => k,
        None => if needs_neural(caps, ctx) {
            DiarizerKind::PyannoteOnnx
        } else {
            DiarizerKind::BinaryChannel
        },
    }
}

/// Resolves the configured diarizer choice against runtime evidence: an
/// explicit choice always wins; otherwise multi-party or single-channel
/// calls go to the neural fallback and everything else stays on binary
/// channel.
pub fn select_kind(
    configured: Option<DiarizerKind>,
    capabilities: &Capabilities,
    ctx: &MeetingContext,
) -> (k: DiarizerKind)
    ensures
        k == selected_kind(configured, *capabilities, *ctx),
{
    match configured {
        Some(kind) => kind,
        None => {
            if requires_neural(capabilities, ctx) {
                DiarizerKind::PyannoteOnnx
            } else {
                DiarizerKind::BinaryChannel
            }
        },
    }
}

} // verus!
