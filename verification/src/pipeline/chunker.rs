//! VAD-aware chunker. A chunk is emitted when either
//!
//! 1. the buffered audio reaches `max_chunk` (30 s by default), or
//! 2. at least `silence_split_after` of silence (5 s) follows at least
//!    `min_speech_before_silence_split` of speech (5 s).
//!
//! Frames are opaque to the chunker: the caller supplies each frame's
//! timestamp, its duration and the VAD's decision for it. Durations are
//! nanoseconds and accumulate with saturation.

use vstd::prelude::*;

use crate::pipeline::vad::VadDecision;
use crate::types::FrameSource;

verus! {

/// Thresholds of the chunker, in nanoseconds.
#[derive(Clone, Copy, Debug, PartialEq, Eq)]
pub struct ChunkerConfig {
    pub max_chunk_ns: u64,
    pub min_speech_before_silence_split_ns: u64,
    pub silence_split_after_ns: u64,
}

impl Default for ChunkerConfig {
    fn default() -> (c: Self)
        ensures
            c.max_chunk_ns == 30_000_000_000,
            c.min_speech_before_silence_split_ns == 5_000_000_000,
            c.silence_split_after_ns == 5_000_000_000,
    {
        ChunkerConfig {
            max_chunk_ns: 30_000_000_000,
            min_speech_before_silence_split_ns: 5_000_000_000,
            silence_split_after_ns: 5_000_000_000,
        }
    }
}

/// How a chunk ended.
#[derive(Clone, Copy, Debug, PartialEq, Eq, Structural)]
pub enum ChunkBoundary {
    MaxDuration,
    SilenceAfterSpeech,
    EndOfStream,
}

/// A contiguous run of frames, with where it starts, how long it is, the
/// channel, and how it ended.
#[derive(Debug)]
pub struct EmittedChunk<F> {
    pub frames: Vec<F>,
    pub start_ns: u64,
    pub duration_ns: u64,
    pub source: FrameSource,
    pub ended_on: ChunkBoundary,
}

/// Receives emitted chunks.
pub trait ChunkSink<F>: Sized {
    /// Taking `chunk` may turn this sink into `after`. A sink that does
    /// not define this allows every outcome.
    open spec fn accepts(&self, after: Self, chunk: EmittedChunk<F>) -> bool {
        true
    }

    fn accept(&mut self, chunk: EmittedChunk<F>)
        ensures
            old(self).accepts(*final(self), chunk),
    ;
}

impl<F> ChunkSink<F> for Vec<EmittedChunk<F>> {
    /// A list of chunks takes one by appending it.
    open spec fn accepts(&self, after: Self, chunk: EmittedChunk<F>) -> bool {
        after@ == self@.push(chunk)
    }

    fn accept(&mut self, chunk: EmittedChunk<F>) {
        self.push(chunk);
    }
}

/// `a + b`, saturating at `u64::MAX`.
pub open spec fn sat_add(a: u64, b: u64) -> u64 {
    if a + b > u64::MAX {
        u64::MAX
    } else {
        (a + b) as u64
    }
}

/// What feeding `frame` (at `ts`, lasting `dur`, judged `decision`) does
/// to a chunker: `before` becomes `after` and `r` is the chunk it
/// completes, if any (see `Chunker::push`).
pub open spec fn push_outcome<F>(
    before: Chunker<F>,
    after: Chunker<F>,
    frame: F,
    ts: u64,
    dur: u64,
    decision: VadDecision,
    r: Option<EmittedChunk<F>>,
) -> bool {
    &&& after.wf()
    &&& after.config_view() == before.config_view()
    &&& after.source_view() == before.source_view()
    &&& {
        let cfg = before.config_view();
        let frames = before.pending_view().push(frame);
        let start = match before.chunk_start_view() {
            Some(s) => s,
            None => ts,
        };
        let speech = match decision {
            VadDecision::Speech => sat_add(before.speech_ns_view(), dur),
            VadDecision::Silence => before.speech_ns_view(),
        };
        let silence = match decision {
            VadDecision::Speech => 0,
            VadDecision::Silence => sat_add(before.silence_ns_view(), dur),
        };
        let total = sat_add(before.pending_ns_view(), dur);
        let boundary = if total >= cfg.max_chunk_ns {
            Some(ChunkBoundary::MaxDuration)
        } else if speech >= cfg.min_speech_before_silence_split_ns && silence
            >= cfg.silence_split_after_ns {
            Some(ChunkBoundary::SilenceAfterSpeech)
        } else {
            None
        };
        match boundary {
            Some(b) => {
                &&& r matches Some(c)
                &&& c.frames@ == frames
                &&& c.start_ns == start
                &&& c.duration_ns == total
                &&& c.source == before.source_view()
                &&& c.ended_on == b
                &&& after.pending_view().len() == 0
            },
            None => {
                &&& r is None
                &&& after.pending_view() == frames
                &&& after.chunk_start_view() == Some(start)
                &&& after.pending_ns_view() == total
                &&& after.speech_ns_view() == speech
                &&& after.silence_ns_view() == silence
            },
        }
    }
}

/// `c` is the end-of-stream chunk that finishing `before` emits: all of
/// its buffered frames, from the buffer's start, for the buffered
/// duration.
pub open spec fn final_chunk<F>(before: Chunker<F>, c: EmittedChunk<F>) -> bool {
    &&& c.frames@ == before.pending_view()
    &&& c.start_ns == before.chunk_start_view()->0
    &&& c.duration_ns == before.pending_ns_view()
    &&& c.source == before.source_view()
    &&& c.ended_on == ChunkBoundary::EndOfStream
}

/// The frames of the emitted chunks in `outs`, in order.
pub open spec fn emitted_frames<F>(outs: Seq<Option<EmittedChunk<F>>>) -> Seq<F>
    decreases outs.len(),
{
    if outs.len() == 0 {
        Seq::empty()
    } else {
        let rest = emitted_frames(outs.drop_last());
        match outs.last() {
            Some(c) => rest + c.frames@,
            None => rest,
        }
    }
}

/// Feeding `frames[i]` (at `ts[i]`, lasting `durs[i]`, judged
/// `decisions[i]`) took `states[i]` to `states[i + 1]` with outcome
/// `outs[i]`, for every frame.
pub open spec fn pushed_in_order<F>(
    states: Seq<Chunker<F>>,
    frames: Seq<F>,
    ts: Seq<u64>,
    durs: Seq<u64>,
    decisions: Seq<VadDecision>,
    outs: Seq<Option<EmittedChunk<F>>>,
) -> bool {
    &&& states.len() == frames.len() + 1
    &&& ts.len() == frames.len()
    &&& durs.len() == frames.len()
    &&& decisions.len() == frames.len()
    &&& outs.len() == frames.len()
    &&& forall|i: int|
        0 <= i < frames.len() ==> #[trigger] push_outcome(
            states[i],
            states[i + 1],
            frames[i],
            ts[i],
            durs[i],
            decisions[i],
            outs[i],
        )
}

proof fn lemma_pushed_prefix<F>(
    states: Seq<Chunker<F>>,
    frames: Seq<F>,
    ts: Seq<u64>,
    durs: Seq<u64>,
    decisions: Seq<VadDecision>,
    outs: Seq<Option<EmittedChunk<F>>>,
    k: int,
)
    requires
        pushed_in_order(states, frames, ts, durs, decisions, outs),
        states[0].pending_view().len() == 0,
        0 <= k <= frames.len(),
    ensures
        emitted_frames(outs.take(k)) + states[k].pending_view() == frames.take(k),
    decreases k,
{
    if k == 0 {
        assert(outs.take(0) =~= Seq::<Option<EmittedChunk<F>>>::empty());
        assert(frames.take(0) =~= Seq::<F>::empty());
        assert(Seq::<F>::empty() + states[0].pending_view() =~= Seq::<F>::empty());
    } else {
        let j = k - 1;
        lemma_pushed_prefix(states, frames, ts, durs, decisions, outs, j);
        assert(push_outcome(states[j], states[j + 1], frames[j], ts[j], durs[j], decisions[j], outs[j]));
        assert(outs.take(k).drop_last() =~= outs.take(j));
        assert(outs.take(k).last() == outs[j]);
        assert(frames.take(k) =~= frames.take(j).push(frames[j]));
        let prev = emitted_frames(outs.take(j));
        let pend = states[j].pending_view();
        match outs[j] {
            Some(c) => {
                assert(states[k].pending_view() =~= Seq::<F>::empty());
                assert(prev + c.frames@ + states[k].pending_view() =~= (prev + pend).push(frames[j]));
            },
            None => {
                assert(prev + states[k].pending_view() =~= (prev + pend).push(frames[j]));
            },
        }
    }
}

/// Every frame pushed comes out once, in order: from an empty chunker,
/// the frames of the chunks emitted along the way, followed by what is
/// still buffered, are the pushed frames. So once the end-of-stream
/// chunk is emitted (when anything is still buffered), the frames of all
/// the chunks, concatenated in emission order, are exactly the frames
/// pushed.
pub proof fn pushed_frames_all_come_out<F>(
    states: Seq<Chunker<F>>,
    frames: Seq<F>,
    ts: Seq<u64>,
    durs: Seq<u64>,
    decisions: Seq<VadDecision>,
    outs: Seq<Option<EmittedChunk<F>>>,
    last: EmittedChunk<F>,
)
    requires
        pushed_in_order(states, frames, ts, durs, decisions, outs),
        states[0].pending_view().len() == 0,
    ensures
        emitted_frames(outs) + states.last().pending_view() == frames,
        states.last().pending_view().len() == 0 ==> emitted_frames(outs) == frames,
        final_chunk(states.last(), last) ==> emitted_frames(outs.push(Some(last))) == frames,
{
    let n = frames.len() as int;
    lemma_pushed_prefix(states, frames, ts, durs, decisions, outs, n);
    assert(outs.take(n) =~= outs);
    assert(frames.take(n) =~= frames);
    assert(states.last() == states[n]);
    if states.last().pending_view().len() == 0 {
        assert(emitted_frames(outs) + states.last().pending_view() =~= emitted_frames(outs));
    }
    assert(outs.push(Some(last)).drop_last() =~= outs);
}

/// The VAD-aware chunker of one channel.
pub struct Chunker<F> {
    config: ChunkerConfig,
    source: FrameSource,
    pending: Vec<F>,
    pending_ns: u64,
    speech_ns: u64,
    trailing_silence_ns: u64,
    chunk_start_ns: Option<u64>,
}

impl<F> Chunker<F> {
    pub closed spec fn config_view(&self) -> ChunkerConfig {
        self.config
    }

    pub closed spec fn source_view(&self) -> FrameSource {
        self.source
    }

    /// The buffered frames, oldest first.
    pub closed spec fn pending_view(&self) -> Seq<F> {
        self.pending@
    }

    /// Buffered duration.
    pub closed spec fn pending_ns_view(&self) -> u64 {
        self.pending_ns
    }

    /// Speech accumulated in the buffered chunk.
    pub closed spec fn speech_ns_view(&self) -> u64 {
        self.speech_ns
    }

    /// Silence since the last speech frame.
    pub closed spec fn silence_ns_view(&self) -> u64 {
        self.trailing_silence_ns
    }

    /// Timestamp of the buffered chunk's first frame.
    pub closed spec fn chunk_start_view(&self) -> Option<u64> {
        self.chunk_start_ns
    }

    /// With nothing buffered, no chunk has started and every duration is
    /// zero; with frames buffered, the chunk has a start.
    pub closed spec fn wf(&self) -> bool {
        &&& (self.pending@.len() == 0 <==> self.chunk_start_ns is None)
        &&& self.pending@.len() == 0 ==> self.pending_ns == 0 && self.speech_ns == 0
            && self.trailing_silence_ns == 0
    }

    /// An idle chunker for one channel.
    pub fn new(config: ChunkerConfig, source: FrameSource) -> (c: Chunker<F>)
        ensures
            c.wf(),
            c.config_view() == config,
            c.source_view() == source,
            c.pending_view().len() == 0,
    {
        Chunker {
            config,
            source,
            pending: Vec::new(),
            pending_ns: 0,
            speech_ns: 0,
            trailing_silence_ns: 0,
            chunk_start_ns: None,
        }
    }

    fn flush(&mut self, boundary: ChunkBoundary) -> (chunk: EmittedChunk<F>)
        requires
            old(self).pending@.len() > 0,
            old(self).chunk_start_ns is Some,
        ensures
            chunk.frames@ == old(self).pending@,
            chunk.start_ns == old(self).chunk_start_ns->0,
            chunk.duration_ns == old(self).pending_ns,
            chunk.source == old(self).source,
            chunk.ended_on == boundary,
            final(self).pending@.len() == 0,
            final(self).pending_ns == 0,
            final(self).speech_ns == 0,
            final(self).trailing_silence_ns == 0,
            final(self).chunk_start_ns is None,
            final(self).config == old(self).config,
            final(self).source == old(self).source,
    {
        let mut frames: Vec<F> = Vec::new();
        std::mem::swap(&mut frames, &mut self.pending);
        let start = match self.chunk_start_ns {
            Some(s) => s,
            None => 0,
        };
        let chunk = EmittedChunk {
            frames,
            start_ns: start,
            duration_ns: self.pending_ns,
            source: self.source,
            ended_on: boundary,
        };
        self.pending_ns = 0;
        self.speech_ns = 0;
        self.trailing_silence_ns = 0;
        self.chunk_start_ns = None;
        chunk
    }

    /// Feeds one frame with its timestamp, duration and VAD decision, and
    /// returns the chunk the frame completes, if any.
    ///
    /// The frame joins the buffer (the buffer's start is set by the first
    /// frame); speech adds to the speech total and clears the trailing
    /// silence, silence adds to the trailing silence. Then the buffer is
    /// emitted when it reached `max_chunk`, or else when enough silence
    /// follows enough speech.
    pub fn push(&mut self, frame: F, timestamp_ns: u64, frame_duration_ns: u64, decision: VadDecision) -> (r: Option<EmittedChunk<F>>)
        requires
            old(self).wf(),
        ensures
            final(self).wf(),
            final(self).config_view() == old(self).config_view(),
            final(self).source_view() == old(self).source_view(),
            ({
                let cfg = old(self).config_view();
                let frames = old(self).pending_view().push(frame);
                let start = match old(self).chunk_start_view() {
                    Some(s) => s,
                    None => timestamp_ns,
                };
                let speech = match decision {
                    VadDecision::Speech => sat_add(old(self).speech_ns_view(), frame_duration_ns),
                    VadDecision::Silence => old(self).speech_ns_view(),
                };
                let silence = match decision {
                    VadDecision::Speech => 0,
                    VadDecision::Silence => sat_add(old(self).silence_ns_view(), frame_duration_ns),
                };
                let total = sat_add(old(self).pending_ns_view(), frame_duration_ns);
                let boundary = if total >= cfg.max_chunk_ns {
                    Some(ChunkBoundary::MaxDuration)
                } else if speech >= cfg.min_speech_before_silence_split_ns && silence
                    >= cfg.silence_split_after_ns {
                    Some(ChunkBoundary::SilenceAfterSpeech)
                } else {
                    None
                };
                match boundary {
                    Some(b) => {
                        &&& r matches Some(c)
                        &&& c.frames@ == frames
                        &&& c.start_ns == start
                        &&& c.duration_ns == total
                        &&& c.source == old(self).source_view()
                        &&& c.ended_on == b
                        &&& final(self).pending_view().len() == 0
                    },
                    None => {
                        &&& r is None
                        &&& final(self).pending_view() == frames
                        &&& final(self).chunk_start_view() == Some(start)
                        &&& final(self).pending_ns_view() == total
                        &&& final(self).speech_ns_view() == speech
                        &&& final(self).silence_ns_view() == silence
                    },
                }
            }),
    {
        if self.chunk_start_ns.is_none() {
            self.chunk_start_ns = Some(timestamp_ns);
        }
        match decision {
            VadDecision::Speech => {
                self.speech_ns = self.speech_ns.saturating_add(frame_duration_ns);
                self.trailing_silence_ns = 0;
            },
            VadDecision::Silence => {
                self.trailing_silence_ns = self.trailing_silence_ns.saturating_add(frame_duration_ns);
            },
        }
        self.pending_ns = self.pending_ns.saturating_add(frame_duration_ns);
        self.pending.push(frame);
        if self.pending_ns >= self.config.max_chunk_ns {
            return Some(self.flush(ChunkBoundary::MaxDuration));
        }
        if self.speech_ns >= self.config.min_speech_before_silence_split_ns
            && self.trailing_silence_ns >= self.config.silence_split_after_ns {
            return Some(self.flush(ChunkBoundary::SilenceAfterSpeech));
        }
        None
    }

    /// Emits whatever is buffered as a final chunk; idempotent.
    pub fn finish(&mut self) -> (r: Option<EmittedChunk<F>>)
        requires
            old(self).wf(),
        ensures
            final(self).wf(),
            final(self).pending_view().len() == 0,
            final(self).config_view() == old(self).config_view(),
            final(self).source_view() == old(self).source_view(),
            old(self).pending_view().len() == 0 ==> r is None,
            old(self).pending_view().len() > 0 ==> (r matches Some(c) && c.frames@
                == old(self).pending_view() && c.start_ns == old(self).chunk_start_view()->0
                && c.duration_ns == old(self).pending_ns_view() && c.source
                == old(self).source_view() && c.ended_on == ChunkBoundary::EndOfStream),
    {
        if self.pending.len() > 0 {
            Some(self.flush(ChunkBoundary::EndOfStream))
        } else {
            None
        }
    }

    /// Feeds one frame and hands a completed chunk to `sink`.
    pub fn push_into<S: ChunkSink<F>>(&mut self, frame: F, timestamp_ns: u64, frame_duration_ns: u64, decision: VadDecision, sink: &mut S)
        requires
            old(self).wf(),
        ensures
            final(self).wf(),
            exists|c: Option<EmittedChunk<F>>|
                #[trigger] push_outcome(
                    *old(self),
                    *final(self),
                    frame,
                    timestamp_ns,
                    frame_duration_ns,
                    decision,
                    c,
                ) && match c {
                    Some(chunk) => old(sink).accepts(*final(sink), chunk),
                    None => *final(sink) == *old(sink),
                },
    {
        let ghost before = *self;
        let r = self.push(frame, timestamp_ns, frame_duration_ns, decision);
        let ghost gr = r;
        assert(push_outcome(before, *self, frame, timestamp_ns, frame_duration_ns, decision, gr));
        if let Some(chunk) = r {
            sink.accept(chunk);
        }
    }

    /// Hands the final buffered chunk, if any, to `sink`; with nothing
    /// buffered the sink is left alone.
    pub fn finish_into<S: ChunkSink<F>>(&mut self, sink: &mut S)
        requires
            old(self).wf(),
        ensures
            final(self).wf(),
            final(self).pending_view().len() == 0,
            final(self).config_view() == old(self).config_view(),
            final(self).source_view() == old(self).source_view(),
            old(self).pending_view().len() > 0 ==> exists|c: EmittedChunk<F>|
                #[trigger] final_chunk(*old(self), c) && old(sink).accepts(*final(sink), c),
            old(self).pending_view().len() == 0 ==> *final(sink) == *old(sink),
    {
        if let Some(chunk) = self.finish() {
            let ghost gc = chunk;
            assert(final_chunk(*old(self), gc));
            sink.accept(chunk);
        }
    }
}

} // verus!
