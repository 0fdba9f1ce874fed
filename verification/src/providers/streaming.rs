//! Streaming recognition updates, and the per-token timestamps a
//! recognizer reports for a segment.

use vstd::prelude::*;

use crate::error::SttError;
use crate::pipeline::chunker::sat_add;
use crate::text::{dec, push_dec, push_str, string_from_chars};
use crate::types::{TokenTiming, TranscriptChunk};

verus! {

/// Whether an update is a growing hypothesis or the closed segment.
#[derive(Clone, Copy, Debug, PartialEq, Eq, Structural)]
pub enum StreamingStage {
    /// Hypothesis for a segment still receiving audio; never rendered
    /// into `transcript.md`.
    Partial,
    /// Closed segment.
    Final,
}

/// One streaming recognition update.
#[derive(Clone, Debug, PartialEq, Eq)]
pub struct StreamingUpdate {
    pub stage: StreamingStage,
    pub chunk: TranscriptChunk,
}


/// Why a recognizer's tokens and timestamps do not line up, if they do
/// not: tokens without any timestamps, or a different number of each.
pub open spec fn token_mismatch(tokens: nat, offsets: Option<nat>) -> Option<Seq<char>> {
    match offsets {
        None => if tokens == 0 {
            None
        } else {
            Some("recognizer returned "@ + dec(tokens) + " tokens with no timestamps"@)
        },
        Some(n) => if n != tokens {
            Some(
                "recognizer returned "@ + dec(tokens) + " tokens but "@ + dec(n)
                    + " timestamps"@,
            )
        } else {
            None
        },
    }
}

/// `v` pairs each of `tokens` with the segment start plus its offset.
pub open spec fn timed_tokens(v: Seq<TokenTiming>, tokens: Seq<String>, offsets: Seq<u64>, start: u64) -> bool {
    &&& v.len() == tokens.len()
    &&& forall|i: int|
        0 <= i < v.len() ==> #[trigger] v[i].token@ == tokens[i]@ && v[i].timestamp_ms == sat_add(
            start,
            offsets[i],
        )
}

/// Pairs each token with its timestamp: the segment start plus the
/// token's offset (in whole milliseconds, already rounded from the
/// recognizer's seconds), saturating.
pub fn token_timings(tokens: &Vec<String>, offsets_ms: Option<Vec<u64>>, segment_start_ms: u64) -> (r:
    Result<Vec<TokenTiming>, SttError>)
    ensures
        offsets_ms is None && tokens@.len() == 0 ==> (r matches Ok(v) && v@.len() == 0),
        offsets_ms is None && tokens@.len() > 0 ==> (r matches Err(SttError::Decoding(msg))
            && msg@ == token_mismatch(tokens@.len(), None)->0),
        offsets_ms matches Some(o) ==> (o@.len() != tokens@.len() ==> (r matches Err(
            SttError::Decoding(msg),
        ) && msg@ == token_mismatch(tokens@.len(), Some(o@.len()))->0)),
        offsets_ms matches Some(o) ==> (o@.len() == tokens@.len() ==> (r matches Ok(v)
            && timed_tokens(v@, tokens@, o@, segment_start_ms))),
{
    let offsets = match &offsets_ms {
        Some(o) => o,
        None => {
            if tokens.len() == 0 {
                return Ok(Vec::new());
            }
            let mut m: Vec<char> = Vec::new();
            push_str(&mut m, "recognizer returned ");
            push_dec(&mut m, tokens.len() as u64);
            push_str(&mut m, " tokens with no timestamps");
            return Err(SttError::Decoding(string_from_chars(m.as_slice())));
        },
    };
    if offsets.len() != tokens.len() {
        let mut m: Vec<char> = Vec::new();
        push_str(&mut m, "recognizer returned ");
        push_dec(&mut m, tokens.len() as u64);
        push_str(&mut m, " tokens but ");
        push_dec(&mut m, offsets.len() as u64);
        push_str(&mut m, " timestamps");
        return Err(SttError::Decoding(string_from_chars(m.as_slice())));
    }
    let mut out: Vec<TokenTiming> = Vec::new();
    let mut i: usize = 0;
    while i < tokens.len()
        invariant
            i <= tokens@.len(),
            offsets@.len() == tokens@.len(),
            offsets_ms == Some(*offsets),
            out@.len() == i,
            forall|k: int|
                0 <= k < i ==> #[trigger] out@[k].token@ == tokens@[k]@ && out@[k].timestamp_ms
                    == sat_add(segment_start_ms, offsets@[k]),
        decreases tokens@.len() - i,
    {
        out.push(TokenTiming { token: tokens[i].clone(), timestamp_ms: segment_start_ms.saturating_add(offsets[i]) });
        i = i + 1;
    }
    assert(forall|k: int|
        0 <= k < out@.len() ==> #[trigger] out@[k].token@ == tokens@[k]@ && out@[k].timestamp_ms
            == sat_add(segment_start_ms, offsets@[k]));
    assert(out@.len() == tokens@.len());
    assert(timed_tokens(out@, tokens@, offsets@, segment_start_ms));
    Ok(out)
}

} // verus!
