//! Frame-format validation ahead of the STT input path.

use vstd::prelude::*;

use crate::error::PipelineError;
use crate::text::{dec, push_dec, push_str, string_from_chars};

verus! {

/// Sample rate every STT provider receives.
pub const STT_SAMPLE_RATE: u32 = 16_000;

/// Whether a frame's declared format is acceptable: the expected format
/// is nonzero and the frame agrees with it.
pub open spec fn frame_format_ok(frame_channels: u16, frame_rate: u32, channels: u16, sample_rate: u32) -> bool {
    sample_rate != 0 && channels != 0 && frame_rate == sample_rate && frame_channels == channels
}

/// The message of a rejected frame.
pub open spec fn invalid_frame_text(
    index: usize,
    frame_channels: u16,
    frame_rate: u32,
    channels: u16,
    sample_rate: u32,
) -> Seq<char> {
    "STT input frame "@ + dec(index as nat) + " has "@ + dec(frame_channels as nat) + " channels at "@
        + dec(frame_rate as nat) + " Hz; expected nonzero uniform "@ + dec(channels as nat)
        + " channels at "@ + dec(sample_rate as nat) + " Hz"@
}

/// Rejects a frame whose declared format disagrees with the source's
/// established format, or whose expected format is degenerate. `index`
/// names the offending frame.
pub fn validate_frame_format(
    index: usize,
    frame_channels: u16,
    frame_rate: u32,
    channels: u16,
    sample_rate: u32,
) -> (r: Result<(), PipelineError>)
    ensures
        frame_format_ok(frame_channels, frame_rate, channels, sample_rate) ==> r is Ok,
        !frame_format_ok(frame_channels, frame_rate, channels, sample_rate) ==> (r matches Err(
            PipelineError::InvalidFrame(m),
        ) && m@ == invalid_frame_text(index, frame_channels, frame_rate, channels, sample_rate)),
{
    if sample_rate == 0 || channels == 0 || frame_rate != sample_rate || frame_channels != channels {
        let mut out: Vec<char> = Vec::new();
        push_str(&mut out, "STT input frame ");
        push_dec(&mut out, index as u64);
        push_str(&mut out, " has ");
        push_dec(&mut out, frame_channels as u64);
        push_str(&mut out, " channels at ");
        push_dec(&mut out, frame_rate as u64);
        push_str(&mut out, " Hz; expected nonzero uniform ");
        push_dec(&mut out, channels as u64);
        push_str(&mut out, " channels at ");
        push_dec(&mut out, sample_rate as u64);
        push_str(&mut out, " Hz");
        return Err(PipelineError::InvalidFrame(string_from_chars(out.as_slice())));
    }
    Ok(())
}

} // verus!
