//! Speaker attribution: the routing rule that decides when the neural
//! diarizer is needed, the binary-channel diarizer (mic is "Me", system
//! audio is "Them") and the stable time ordering both diarizers share.

pub mod kind;
pub mod pyannote_onnx;

use vstd::prelude::*;

use crate::context::MeetingContext;
use crate::error::CoreError;
use crate::types::{AttributedChunk, Capabilities, FrameSource, SpeakerLabel, TranscriptChunk};

verus! {

/// Whether the call needs the neural fallback: a single-channel capture
/// (no system audio) or a multi-party call (three or more attendees).
pub open spec fn needs_neural(caps: Capabilities, ctx: MeetingContext) -> bool {
    !caps.supports_system_audio || ctx.attendees@.len() >= 3
}

/// Whether the binary-channel heuristic is insufficient for this call.
pub fn requires_neural(capabilities: &Capabilities, ctx: &MeetingContext) -> (b: bool)
    ensures
        b == needs_neural(*capabilities, *ctx),
{
    !capabilities.supports_system_audio || ctx.attendees.len() >= 3
}

/// Turns the per-channel transcripts of a session into speaker-attributed
/// chunks in time order.
pub trait Diarizer {
    fn diarize(
        &self,
        mic_chunks: &[TranscriptChunk],
        sys_chunks: &[TranscriptChunk],
        ctx: &MeetingContext,
    ) -> Result<Vec<AttributedChunk>, CoreError>;

    fn name(&self) -> &str;
}

// ---------------------------------------------------------------------
// Stable ordering
// ---------------------------------------------------------------------

/// Tie-break rank of a channel: mic first, then system, then mixed.
pub open spec fn source_rank(s: FrameSource) -> nat {
    match s {
        FrameSource::Mic => 0,
        FrameSource::System => 1,
        FrameSource::Mixed => 2,
    }
}

/// `a` sorts no later than `b`: by start time, then (when `by_source`)
/// by channel rank.
pub open spec fn key_le(a: AttributedChunk, b: AttributedChunk, by_source: bool) -> bool {
    a.chunk.start_ms < b.chunk.start_ms || (a.chunk.start_ms == b.chunk.start_ms && (!by_source
        || source_rank(a.chunk.source) <= source_rank(b.chunk.source)))
}

/// `x` inserted into `s` after every element that sorts no later than it
/// (the insertion step of a stable sort).
pub open spec fn insert_stable(s: Seq<AttributedChunk>, x: AttributedChunk, by_source: bool) -> Seq<
    AttributedChunk,
>
    decreases s.len(),
{
    if s.len() == 0 || key_le(s.last(), x, by_source) {
        s.push(x)
    } else {
        insert_stable(s.drop_last(), x, by_source).push(s.last())
    }
}

/// `s` stably sorted by `key_le`: equal keys keep their input order.
pub open spec fn stable_sorted(s: Seq<AttributedChunk>, by_source: bool) -> Seq<AttributedChunk>
    decreases s.len(),
{
    if s.len() == 0 {
        s
    } else {
        insert_stable(stable_sorted(s.drop_last(), by_source), s.last(), by_source)
    }
}

/// Every element sorts no later than each one after it.
pub open spec fn is_key_sorted(s: Seq<AttributedChunk>, by_source: bool) -> bool {
    forall|i: int, j: int| 0 <= i < j < s.len() ==> key_le(#[trigger] s[i], #[trigger] s[j], by_source)
}

fn source_order(source: FrameSource) -> (r: u8)
    ensures
        r == source_rank(source),
{
    match source {
        FrameSource::Mic => 0,
        FrameSource::System => 1,
        FrameSource::Mixed => 2,
    }
}

fn key_le_exec(a: &AttributedChunk, b: &AttributedChunk, by_source: bool) -> (r: bool)
    ensures
        r == key_le(*a, *b, by_source),
{
    a.chunk.start_ms < b.chunk.start_ms || (a.chunk.start_ms == b.chunk.start_ms && (!by_source
        || source_order(a.chunk.source) <= source_order(b.chunk.source)))
}

proof fn lemma_insert_at(s: Seq<AttributedChunk>, x: AttributedChunk, by_source: bool, p: int)
    requires
        0 <= p <= s.len(),
        forall|j: int| p <= j < s.len() ==> !key_le(#[trigger] s[j], x, by_source),
        p > 0 ==> key_le(s[p - 1], x, by_source),
    ensures
        insert_stable(s, x, by_source) == s.insert(p, x),
    decreases s.len(),
{
    if s.len() == 0 {
        assert(s.insert(p, x) =~= s.push(x));
    } else if key_le(s.last(), x, by_source) {
        assert(p == s.len());
        assert(s.insert(p, x) =~= s.push(x));
    } else {
        lemma_insert_at(s.drop_last(), x, by_source, p);
        assert(s.drop_last().insert(p, x).push(s.last()) =~= s.insert(p, x));
    }
}

/// Inserts `x` into `out` at the position `insert_stable` names.
fn insert_stable_exec(out: &mut Vec<AttributedChunk>, x: AttributedChunk, by_source: bool)
    ensures
        final(out)@ == insert_stable(old(out)@, x, by_source),
{
    let mut p = out.len();
    while p > 0 && !key_le_exec(&out[p - 1], &x, by_source)
        invariant
            p <= out@.len(),
            forall|j: int| p <= j < out@.len() ==> !key_le(#[trigger] out@[j], x, by_source),
        decreases p,
    {
        p = p - 1;
    }
    proof {
        lemma_insert_at(out@, x, by_source, p as int);
    }
    out.insert(p, x);
}

/// Stably sorts `v` by start time, then (when `by_source`) by channel.
fn sort_stable(v: Vec<AttributedChunk>, by_source: bool) -> (r: Vec<AttributedChunk>)
    ensures
        r@ == stable_sorted(v@, by_source),
{
    let ghost orig = v@;
    let mut rest = v;
    let mut out: Vec<AttributedChunk> = Vec::new();
    let mut i: usize = 0;
    assert(orig.len() == rest.len());
    while rest.len() > 0
        invariant
            orig.len() <= usize::MAX,
            i + rest@.len() == orig.len(),
            rest@ == orig.skip(i as int),
            out@ == stable_sorted(orig.take(i as int), by_source),
        decreases rest@.len(),
    {
        let x = rest.remove(0);
        proof {
            assert(orig.take(i + 1).drop_last() == orig.take(i as int));
            assert(orig.take(i + 1).last() == x);
            assert(rest@ =~= orig.skip(i + 1));
        }
        insert_stable_exec(&mut out, x, by_source);
        i = i + 1;
    }
    assert(orig.take(orig.len() as int) == orig);
    out
}

// ---------------------------------------------------------------------
// Laws of the ordering
// ---------------------------------------------------------------------

proof fn lemma_key_total(a: AttributedChunk, b: AttributedChunk, by_source: bool)
    ensures
        key_le(a, b, by_source) || key_le(b, a, by_source),
{
}

proof fn lemma_insert_stable_facts(s: Seq<AttributedChunk>, x: AttributedChunk, by_source: bool)
    requires
        is_key_sorted(s, by_source),
    ensures
        is_key_sorted(insert_stable(s, x, by_source), by_source),
        insert_stable(s, x, by_source).to_multiset() == s.to_multiset().insert(x),
    decreases s.len(),
{
    broadcast use vstd::seq_lib::group_to_multiset_ensures;

    if s.len() == 0 || key_le(s.last(), x, by_source) {
        let t = s.push(x);
        assert forall|i: int, j: int| 0 <= i < j < t.len() implies key_le(
            #[trigger] t[i],
            #[trigger] t[j],
            by_source,
        ) by {
            if j == s.len() as int && i < s.len() - 1 {
                assert(key_le(s[i], s.last(), by_source));
            }
        }
    } else {
        let d = s.drop_last();
        assert(is_key_sorted(d, by_source));
        lemma_insert_stable_facts(d, x, by_source);
        let u = insert_stable(d, x, by_source);
        let t = u.push(s.last());
        assert forall|i: int, j: int| 0 <= i < j < t.len() implies key_le(
            #[trigger] t[i],
            #[trigger] t[j],
            by_source,
        ) by {
            if j == u.len() {
                // every element of u is x or an element of d, all of
                // which sort no later than s.last()
                assert(u.to_multiset().count(t[i]) > 0);
                if t[i] == x {
                    lemma_key_total(x, s.last(), by_source);
                } else {
                    assert(d.to_multiset().count(t[i]) > 0);
                    let k = choose|k: int| 0 <= k < d.len() && d[k] == t[i];
                    assert(d[k] == s[k]);
                    assert(key_le(s[k], s[s.len() - 1], by_source));
                }
            }
        }
        assert(s =~= d.push(s.last()));
    }
}

/// The stable order is a permutation of its input, sorted by the key.
pub proof fn stable_sorted_is_sorted_permutation(s: Seq<AttributedChunk>, by_source: bool)
    ensures
        is_key_sorted(stable_sorted(s, by_source), by_source),
        stable_sorted(s, by_source).to_multiset() == s.to_multiset(),
    decreases s.len(),
{
    broadcast use vstd::seq_lib::group_to_multiset_ensures;

    if s.len() > 0 {
        stable_sorted_is_sorted_permutation(s.drop_last(), by_source);
        lemma_insert_stable_facts(stable_sorted(s.drop_last(), by_source), s.last(), by_source);
        assert(s =~= s.drop_last().push(s.last()));
    }
}

// ---------------------------------------------------------------------
// Binary-channel diarizer
// ---------------------------------------------------------------------

/// `chunk` with its source replaced by the channel it arrived on.
pub open spec fn with_source(c: TranscriptChunk, source: FrameSource) -> TranscriptChunk {
    TranscriptChunk { source, ..c }
}

/// `pre` holds the mic chunks attributed to "Me" (source forced to mic),
/// then the system chunks attributed to "Them" (source forced to system).
pub open spec fn is_binary_attribution(
    pre: Seq<AttributedChunk>,
    mic: Seq<TranscriptChunk>,
    sys: Seq<TranscriptChunk>,
) -> bool {
    &&& pre.len() == mic.len() + sys.len()
    &&& forall|i: int|
        0 <= i < mic.len() ==> (#[trigger] pre[i]).chunk.same_as(with_source(mic[i], FrameSource::Mic))
            && pre[i].speaker == SpeakerLabel::Me
    &&& forall|i: int|
        mic.len() <= i < pre.len() ==> (#[trigger] pre[i]).chunk.same_as(
            with_source(sys[i - mic.len()], FrameSource::System),
        ) && pre[i].speaker == SpeakerLabel::Them
}

/// `out` is the binary-channel attribution of the two channels, stably
/// ordered by start time and then channel.
pub open spec fn binary_diarized(
    mic: Seq<TranscriptChunk>,
    sys: Seq<TranscriptChunk>,
    out: Seq<AttributedChunk>,
) -> bool {
    exists|pre: Seq<AttributedChunk>| is_binary_attribution(pre, mic, sys) && out == stable_sorted(pre, true)
}

/// v0.1 default diarizer: for a 1:1 remote call the mic channel is the
/// user and the system-audio channel is the remote party.
pub struct BinaryChannelDiarizer;

impl BinaryChannelDiarizer {
    pub const NAME: &'static str = "binary-channel";

    /// Attributes every mic chunk to "Me" and every system chunk to
    /// "Them", forcing each chunk's source to its channel, then orders
    /// them by start time, mic before system at equal starts, otherwise
    /// in input order.
    pub fn attribute(mic_chunks: &[TranscriptChunk], sys_chunks: &[TranscriptChunk]) -> (r: Vec<
        AttributedChunk,
    >)
        ensures
            binary_diarized(mic_chunks@, sys_chunks@, r@),
    {
        let mut merged: Vec<AttributedChunk> = Vec::new();
        let mut i: usize = 0;
        while i < mic_chunks.len()
            invariant
                i <= mic_chunks@.len(),
                merged@.len() == i,
                forall|k: int|
                    0 <= k < i ==> (#[trigger] merged@[k]).chunk.same_as(
                        with_source(mic_chunks@[k], FrameSource::Mic),
                    ) && merged@[k].speaker == SpeakerLabel::Me,
            decreases mic_chunks@.len() - i,
        {
            let mut c = mic_chunks[i].duplicate();
            c.source = FrameSource::Mic;
            merged.push(AttributedChunk { chunk: c, speaker: SpeakerLabel::Me });
            i = i + 1;
        }
        let mut j: usize = 0;
        while j < sys_chunks.len()
            invariant
                j <= sys_chunks@.len(),
                merged@.len() == mic_chunks@.len() + j,
                forall|k: int|
                    0 <= k < mic_chunks@.len() ==> (#[trigger] merged@[k]).chunk.same_as(
                        with_source(mic_chunks@[k], FrameSource::Mic),
                    ) && merged@[k].speaker == SpeakerLabel::Me,
                forall|k: int|
                    mic_chunks@.len() <= k < merged@.len() ==> (#[trigger] merged@[k]).chunk.same_as(
                        with_source(sys_chunks@[k - mic_chunks@.len()], FrameSource::System),
                    ) && merged@[k].speaker == SpeakerLabel::Them,
            decreases sys_chunks@.len() - j,
        {
            let mut c = sys_chunks[j].duplicate();
            c.source = FrameSource::System;
            merged.push(AttributedChunk { chunk: c, speaker: SpeakerLabel::Them });
            j = j + 1;
        }
        let ghost pre = merged@;
        let r = sort_stable(merged, true);
        assert(is_binary_attribution(pre, mic_chunks@, sys_chunks@));
        assert(binary_diarized(mic_chunks@, sys_chunks@, r@));
        r
    }
}

impl Diarizer for BinaryChannelDiarizer {
    fn diarize(
        &self,
        mic_chunks: &[TranscriptChunk],
        sys_chunks: &[TranscriptChunk],
        ctx: &MeetingContext,
    ) -> (r: Result<Vec<AttributedChunk>, CoreError>)
        ensures
            r matches Ok(v) && binary_diarized(mic_chunks@, sys_chunks@, v@),
    {
        Ok(BinaryChannelDiarizer::attribute(mic_chunks, sys_chunks))
    }

    fn name(&self) -> (s: &str)
        ensures
            s@ == "binary-channel"@,
    {
        "binary-channel"
    }
}

} // verus!
