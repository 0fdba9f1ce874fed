//! Stereo channel-split interleaver with timestamp-aware alignment.
//!
//! Mic frames (left channel) and system frames (right channel) arrive at
//! the same sample rate but with independent timing. Each side keeps a
//! queue of pending mono samples and `head_ns`, the wall-clock timestamp
//! (nanoseconds since session start) of its next sample. A frame that
//! starts after the end of its queue is preceded by silence (at most
//! `max_lag_samples` of it); one that starts before the end has its
//! overlapping prefix dropped. `drain` first drops the earlier side's
//! leading samples so both heads match, then pairs samples; when one
//! side trails the other by more than `max_lag_samples` the trailing
//! side is padded with silence.
//!
//! Samples are opaque: silence is the sample type's default value, and
//! multi-channel frames are averaged down to mono by the caller.

use std::collections::VecDeque;

use vstd::prelude::*;

use crate::error::PipelineError;
use crate::pipeline::chunker::sat_add;
use crate::text::{dec, push_dec, push_str, string_from_chars};
use crate::types::FrameSource;

verus! {

/// The fewest aligned samples per side that `drain` pairs at once: 10 ms
/// at 48 kHz.
pub const MIN_DRAIN_SAMPLES: usize = 480;

/// `a * b`, saturating at `u64::MAX`.
pub open spec fn sat_mul(a: u64, b: u64) -> u64 {
    if a * b > u64::MAX {
        u64::MAX
    } else {
        (a * b) as u64
    }
}

/// Nanoseconds spanned by `n` samples at `rate` Hz (0 at rate 0).
pub open spec fn samples_to_ns(rate: u32, n: u64) -> u64 {
    if rate == 0 {
        0
    } else {
        (sat_mul(n, 1_000_000_000) / (rate as u64)) as u64
    }
}

/// Whole samples in `ns` nanoseconds at `rate` Hz (0 at rate 0).
pub open spec fn ns_to_samples(rate: u32, ns: u64) -> u64 {
    if rate == 0 {
        0
    } else {
        (sat_mul(ns, rate as u64) / 1_000_000_000) as u64
    }
}

/// `n` copies of `x`.
pub open spec fn repeat<S>(x: S, n: nat) -> Seq<S> {
    Seq::new(n, |i: int| x)
}

/// `[l[0], r[0], l[1], r[1], ..]` over the first `n` samples of each.
pub open spec fn interleaved<S>(l: Seq<S>, r: Seq<S>, n: nat) -> Seq<S> {
    Seq::new(2 * n, |i: int| if i % 2 == 0 { l[i / 2] } else { r[i / 2] })
}

/// One side's pending samples and the timestamp of the first of them.
pub struct ChannelState<S> {
    pub ring: Seq<S>,
    pub head_ns: Option<u64>,
}

/// The whole interleaver.
pub struct InterleaverState<S> {
    pub sample_rate: u32,
    pub max_lag_samples: u64,
    pub silence: S,
    pub mic: ChannelState<S>,
    pub sys: ChannelState<S>,
}

/// `ch` after a frame stamped `ts` with mono samples `mono` arrives.
pub open spec fn channel_after_push<S>(
    ch: ChannelState<S>,
    rate: u32,
    max_lag: u64,
    silence: S,
    ts: u64,
    mono: Seq<S>,
) -> ChannelState<S> {
    match ch.head_ns {
        None => ChannelState { ring: ch.ring + mono, head_ns: Some(ts) },
        Some(h) => {
            let expected = sat_add(h, samples_to_ns(rate, ch.ring.len() as u64));
            let ring = if ts > expected {
                let gap = ns_to_samples(rate, (ts - expected) as u64);
                let pad = if gap < max_lag {
                    gap
                } else {
                    max_lag
                };
                ch.ring + repeat(silence, pad as nat) + mono
            } else if ts < expected {
                let over = ns_to_samples(rate, (expected - ts) as u64);
                let drop = if over < mono.len() {
                    over as int
                } else {
                    mono.len() as int
                };
                ch.ring + mono.subrange(drop, mono.len() as int)
            } else {
                ch.ring + mono
            };
            ChannelState { ring, head_ns: Some(h) }
        },
    }
}

/// Drops `drop` leading samples of `ch` and moves its head past them.
pub open spec fn advance_channel<S>(ch: ChannelState<S>, rate: u32, drop: nat) -> ChannelState<S> {
    ChannelState {
        ring: ch.ring.subrange(drop as int, ch.ring.len() as int),
        head_ns: match ch.head_ns {
            Some(h) => Some(sat_add(h, samples_to_ns(rate, drop as u64))),
            None => None,
        },
    }
}

/// The earlier side dropped until both heads match (as far as its queue
/// allows); unchanged unless both sides have a head and they differ.
pub open spec fn aligned_state<S>(st: InterleaverState<S>) -> InterleaverState<S> {
    match (st.mic.head_ns, st.sys.head_ns) {
        (Some(m), Some(s)) => if m < s {
            let d = ns_to_samples(st.sample_rate, (s - m) as u64);
            let drop = if d < st.mic.ring.len() {
                d as nat
            } else {
                st.mic.ring.len()
            };
            InterleaverState { mic: advance_channel(st.mic, st.sample_rate, drop), ..st }
        } else if s < m {
            let d = ns_to_samples(st.sample_rate, (m - s) as u64);
            let drop = if d < st.sys.ring.len() {
                d as nat
            } else {
                st.sys.ring.len()
            };
            InterleaverState { sys: advance_channel(st.sys, st.sample_rate, drop), ..st }
        } else {
            st
        },
        _ => st,
    }
}

/// Both sides padded with silence to at least `target` samples; a side
/// without a head takes its partner's.
pub open spec fn zero_filled<S>(st: InterleaverState<S>, target: nat) -> InterleaverState<S> {
    let mic = if st.mic.ring.len() < target {
        ChannelState {
            ring: st.mic.ring + repeat(st.silence, (target - st.mic.ring.len()) as nat),
            head_ns: if st.mic.head_ns is None {
                st.sys.head_ns
            } else {
                st.mic.head_ns
            },
        }
    } else {
        st.mic
    };
    let sys = if st.sys.ring.len() < target {
        ChannelState {
            ring: st.sys.ring + repeat(st.silence, (target - st.sys.ring.len()) as nat),
            head_ns: if st.sys.head_ns is None {
                mic.head_ns
            } else {
                st.sys.head_ns
            },
        }
    } else {
        st.sys
    };
    InterleaverState { mic, sys, ..st }
}

/// The first `n` samples of both sides paired, and the state after.
pub open spec fn take_pairs<S>(st: InterleaverState<S>, n: nat) -> (InterleaverState<S>, Seq<S>) {
    (
        InterleaverState {
            mic: advance_channel(st.mic, st.sample_rate, n),
            sys: advance_channel(st.sys, st.sample_rate, n),
            ..st
        },
        interleaved(st.mic.ring, st.sys.ring, n),
    )
}

/// What `drain` returns, and the state after.
pub open spec fn drained<S>(st: InterleaverState<S>) -> (InterleaverState<S>, Seq<S>) {
    let a = aligned_state(st);
    let (ml, sl) = (a.mic.ring.len(), a.sys.ring.len());
    let aligned = if ml < sl {
        ml
    } else {
        sl
    };
    let lead = if ml < sl {
        sl
    } else {
        ml
    };
    if aligned >= MIN_DRAIN_SAMPLES {
        take_pairs(a, aligned)
    } else if lead - aligned > a.max_lag_samples {
        take_pairs(zero_filled(a, lead), lead)
    } else {
        (a, Seq::empty())
    }
}

/// What `finish` returns, and the state after.
pub open spec fn finished<S>(st: InterleaverState<S>) -> (InterleaverState<S>, Seq<S>) {
    let (ml, sl) = (st.mic.ring.len(), st.sys.ring.len());
    let lead = if ml < sl {
        sl
    } else {
        ml
    };
    if lead == 0 {
        (st, Seq::empty())
    } else {
        take_pairs(zero_filled(st, lead), lead)
    }
}

/// Why a frame is refused, if it is: a sample rate other than the
/// interleaver's, zero channels, or a pre-mixed source.
pub open spec fn push_refusal(rate: u32, frame_rate: u32, channels: u16, source: FrameSource) -> Option<
    Seq<char>,
> {
    if frame_rate != rate {
        Some(
            "interleaver configured for "@ + dec(rate as nat) + " Hz, frame is "@ + dec(
                frame_rate as nat,
            ) + " Hz"@,
        )
    } else if channels == 0 {
        Some("interleaver received frame with zero channels"@)
    } else if source is Mixed {
        Some("Mixed source frames are not valid input to StereoInterleaver"@)
    } else {
        None
    }
}

/// The state after an accepted frame from `source` (mic or system).
pub open spec fn pushed<S>(st: InterleaverState<S>, source: FrameSource, ts: u64, mono: Seq<S>) -> InterleaverState<S> {
    if source is System {
        InterleaverState {
            sys: channel_after_push(st.sys, st.sample_rate, st.max_lag_samples, st.silence, ts, mono),
            ..st
        }
    } else {
        InterleaverState {
            mic: channel_after_push(st.mic, st.sample_rate, st.max_lag_samples, st.silence, ts, mono),
            ..st
        }
    }
}

/// `finish` empties both sides and returns one pair per sample of the
/// longer side, the shorter side padded with silence.
pub proof fn finish_pairs_everything<S>(st: InterleaverState<S>)
    ensures
        ({
            let (after, out) = finished(st);
            let lead = if st.mic.ring.len() < st.sys.ring.len() {
                st.sys.ring.len()
            } else {
                st.mic.ring.len()
            };
            &&& after.mic.ring.len() == 0
            &&& after.sys.ring.len() == 0
            &&& out.len() == 2 * lead
            &&& forall|i: int| 0 <= i < st.mic.ring.len() ==> #[trigger] out[2 * i] == st.mic.ring[i]
            &&& forall|i: int|
                0 <= i < st.sys.ring.len() ==> #[trigger] out[2 * i + 1] == st.sys.ring[i]
            &&& forall|i: int| st.mic.ring.len() <= i < lead ==> #[trigger] out[2 * i] == st.silence
            &&& forall|i: int|
                st.sys.ring.len() <= i < lead ==> #[trigger] out[2 * i + 1] == st.silence
        }),
{
    let lead = if st.mic.ring.len() < st.sys.ring.len() {
        st.sys.ring.len()
    } else {
        st.mic.ring.len()
    };
    let z = zero_filled(st, lead);
    let (after, out) = finished(st);
    if lead > 0 {
        assert forall|i: int| 0 <= i < lead implies #[trigger] out[2 * i] == z.mic.ring[i] && out[2
            * i + 1] == z.sys.ring[i] by {
            assert((2 * i) % 2 == 0 && (2 * i) / 2 == i);
            assert((2 * i + 1) % 2 == 1 && (2 * i + 1) / 2 == i);
        }
        assert forall|i: int| 0 <= i < st.mic.ring.len() implies #[trigger] out[2 * i]
            == st.mic.ring[i] by {
            assert(out[2 * i] == z.mic.ring[i]);
        }
        assert forall|i: int| 0 <= i < st.sys.ring.len() implies #[trigger] out[2 * i + 1]
            == st.sys.ring[i] by {
            assert(out[2 * i + 1] == z.sys.ring[i]);
        }
        assert forall|i: int| st.mic.ring.len() <= i < lead implies #[trigger] out[2 * i]
            == st.silence by {
            assert(out[2 * i] == z.mic.ring[i]);
        }
        assert forall|i: int| st.sys.ring.len() <= i < lead implies #[trigger] out[2 * i + 1]
            == st.silence by {
            assert(out[2 * i + 1] == z.sys.ring[i]);
        }
    }
}

struct Channel<S> {
    ring: VecDeque<S>,
    head_ns: Option<u64>,
}

impl<S> Channel<S> {
    closed spec fn state(&self) -> ChannelState<S> {
        ChannelState { ring: self.ring@, head_ns: self.head_ns }
    }
}

/// Interleaves per-source mono samples into stereo (left = mic, right =
/// system).
pub struct StereoInterleaver<S> {
    sample_rate: u32,
    mic: Channel<S>,
    sys: Channel<S>,
    max_lag_samples: u64,
    silence: S,
}

impl<S: Copy + Default> StereoInterleaver<S> {
    /// The interleaver's current state.
    pub closed spec fn state(&self) -> InterleaverState<S> {
        InterleaverState {
            sample_rate: self.sample_rate,
            max_lag_samples: self.max_lag_samples,
            silence: self.silence,
            mic: self.mic.state(),
            sys: self.sys.state(),
        }
    }

    /// An interleaver for `sample_rate` Hz that lets one side lead the
    /// other by at most `max_lag_ms` before the trailing side is padded
    /// with the sample type's default value.
    pub fn new(sample_rate: u32, max_lag_ms: u32) -> (iv: Self)
        ensures
            call_ensures(S::default, (), iv.state().silence),
            iv.state().sample_rate == sample_rate,
            iv.state().max_lag_samples == (sample_rate / 1000) * max_lag_ms,
            iv.state().mic == (ChannelState::<S> { ring: Seq::empty(), head_ns: None }),
            iv.state().sys == (ChannelState::<S> { ring: Seq::empty(), head_ns: None }),
    {
        let per_ms: u64 = (sample_rate / 1000) as u64;
        assert(per_ms * max_lag_ms <= 4_294_967 * 4_294_967_295) by (nonlinear_arith)
            requires
                per_ms <= 4_294_967,
                max_lag_ms <= 4_294_967_295,
        ;
        let silence = S::default();
        StereoInterleaver {
            sample_rate,
            mic: Channel { ring: VecDeque::new(), head_ns: None },
            sys: Channel { ring: VecDeque::new(), head_ns: None },
            max_lag_samples: per_ms * (max_lag_ms as u64),
            silence,
        }
    }

    /// Accepts one frame's mono samples (multi-channel frames averaged to
    /// mono) from `source`, stamped `timestamp_ns`. A first frame sets
    /// its side's head; a later one is preceded by silence over a gap
    /// (at most `max_lag_samples`) or loses the prefix that overlaps
    /// what is already queued.
    pub fn push(
        &mut self,
        source: FrameSource,
        sample_rate: u32,
        channels: u16,
        timestamp_ns: u64,
        mono: Vec<S>,
    ) -> (r: Result<(), PipelineError>)
        ensures
            match push_refusal(old(self).state().sample_rate, sample_rate, channels, source) {
                Some(m) => r matches Err(PipelineError::InvalidFrame(msg)) && msg@ == m
                    && final(self).state() == old(self).state(),
                None => r is Ok && final(self).state() == pushed(
                    old(self).state(),
                    source,
                    timestamp_ns,
                    mono@,
                ),
            },
    {
        if sample_rate != self.sample_rate {
            let mut msg: Vec<char> = Vec::new();
            push_str(&mut msg, "interleaver configured for ");
            push_dec(&mut msg, self.sample_rate as u64);
            push_str(&mut msg, " Hz, frame is ");
            push_dec(&mut msg, sample_rate as u64);
            push_str(&mut msg, " Hz");
            return Err(PipelineError::InvalidFrame(string_from_chars(msg.as_slice())));
        }
        if channels == 0 {
            let mut msg: Vec<char> = Vec::new();
            push_str(&mut msg, "interleaver received frame with zero channels");
            return Err(PipelineError::InvalidFrame(string_from_chars(msg.as_slice())));
        }
        let rate = self.sample_rate;
        let max_lag = self.max_lag_samples;
        let silence = self.silence;
        match source {
            FrameSource::Mic => {
                push_channel(&mut self.mic, rate, max_lag, silence, timestamp_ns, &mono);
            },
            FrameSource::System => {
                push_channel(&mut self.sys, rate, max_lag, silence, timestamp_ns, &mono);
            },
            FrameSource::Mixed => {
                let mut msg: Vec<char> = Vec::new();
                push_str(&mut msg, "Mixed source frames are not valid input to StereoInterleaver");
                return Err(PipelineError::InvalidFrame(string_from_chars(msg.as_slice())));
            },
        }
        Ok(())
    }

    fn align_heads(&mut self)
        ensures
            final(self).state() == aligned_state(old(self).state()),
    {
        let (m, s) = match (self.mic.head_ns, self.sys.head_ns) {
            (Some(m), Some(s)) => (m, s),
            _ => return ,
        };
        let rate = self.sample_rate;
        if m < s {
            let d = ns_to_samples_exec(rate, s - m);
            let drop: usize = if d < self.mic.ring.len() as u64 {
                d as usize
            } else {
                self.mic.ring.len()
            };
            drop_front(&mut self.mic.ring, drop);
            self.mic.head_ns = Some(sat_add_exec(m, samples_to_ns_exec(rate, drop as u64)));
        } else if s < m {
            let d = ns_to_samples_exec(rate, m - s);
            let drop: usize = if d < self.sys.ring.len() as u64 {
                d as usize
            } else {
                self.sys.ring.len()
            };
            drop_front(&mut self.sys.ring, drop);
            self.sys.head_ns = Some(sat_add_exec(s, samples_to_ns_exec(rate, drop as u64)));
        }
    }

    fn zero_fill_to(&mut self, target: usize)
        ensures
            final(self).state() == zero_filled(old(self).state(), target as nat),
    {
        let silence = self.silence;
        if self.mic.ring.len() < target {
            let pad = target - self.mic.ring.len();
            push_silence(&mut self.mic.ring, silence, pad as u64);
            if self.mic.head_ns.is_none() {
                self.mic.head_ns = self.sys.head_ns;
            }
        }
        if self.sys.ring.len() < target {
            let pad = target - self.sys.ring.len();
            push_silence(&mut self.sys.ring, silence, pad as u64);
            if self.sys.head_ns.is_none() {
                self.sys.head_ns = self.mic.head_ns;
            }
        }
    }

    fn take_pairs(&mut self, n: usize) -> (out: Vec<S>)
        requires
            n <= old(self).state().mic.ring.len(),
            n <= old(self).state().sys.ring.len(),
        ensures
            (final(self).state(), out@) == take_pairs(old(self).state(), n as nat),
    {
        let ghost l = self.mic.ring@;
        let ghost r = self.sys.ring@;
        let mut out: Vec<S> = Vec::new();
        let mut i: usize = 0;
        while i < n
            invariant
                i <= n,
                n <= l.len(),
                n <= r.len(),
                self.mic.ring@ == l.subrange(i as int, l.len() as int),
                self.sys.ring@ == r.subrange(i as int, r.len() as int),
                out@ == interleaved(l, r, i as nat),
                l == old(self).mic.ring@,
                r == old(self).sys.ring@,
                self.sample_rate == old(self).sample_rate,
                self.max_lag_samples == old(self).max_lag_samples,
                self.silence == old(self).silence,
                self.mic.head_ns == old(self).mic.head_ns,
                self.sys.head_ns == old(self).sys.head_ns,
            decreases n - i,
        {
            let left = match self.mic.ring.pop_front() {
                Some(x) => x,
                None => self.silence,
            };
            let right = match self.sys.ring.pop_front() {
                Some(x) => x,
                None => self.silence,
            };
            out.push(left);
            out.push(right);
            assert(out@ =~= interleaved(l, r, (i + 1) as nat));
            i = i + 1;
        }
        let rate = self.sample_rate;
        self.mic.head_ns = advance_head(self.mic.head_ns, rate, n as u64);
        self.sys.head_ns = advance_head(self.sys.head_ns, rate, n as u64);
        out
    }

    /// Pairs what is aligned: after dropping the earlier side's leading
    /// samples, pairs as many samples as both sides hold once that is at
    /// least `MIN_DRAIN_SAMPLES`; otherwise, when one side leads by more
    /// than `max_lag_samples`, pads the other with silence and pairs
    /// everything; otherwise returns nothing and waits.
    pub fn drain(&mut self) -> (out: Vec<S>)
        ensures
            (final(self).state(), out@) == drained(old(self).state()),
    {
        self.align_heads();
        let ml = self.mic.ring.len();
        let sl = self.sys.ring.len();
        let aligned = if ml < sl {
            ml
        } else {
            sl
        };
        let lead = if ml < sl {
            sl
        } else {
            ml
        };
        if aligned >= MIN_DRAIN_SAMPLES {
            self.take_pairs(aligned)
        } else if (lead - aligned) as u64 > self.max_lag_samples {
            self.zero_fill_to(lead);
            self.take_pairs(lead)
        } else {
            Vec::new()
        }
    }

    /// Pairs everything left, padding the shorter side with silence;
    /// heads are not aligned first.
    pub fn finish(&mut self) -> (out: Vec<S>)
        ensures
            (final(self).state(), out@) == finished(old(self).state()),
    {
        let ml = self.mic.ring.len();
        let sl = self.sys.ring.len();
        let lead = if ml < sl {
            sl
        } else {
            ml
        };
        if lead == 0 {
            return Vec::new();
        }
        self.zero_fill_to(lead);
        self.take_pairs(lead)
    }

    /// Pending mic samples.
    pub fn mic_len(&self) -> (n: usize)
        ensures
            n == self.state().mic.ring.len(),
    {
        self.mic.ring.len()
    }

    /// Pending system samples.
    pub fn sys_len(&self) -> (n: usize)
        ensures
            n == self.state().sys.ring.len(),
    {
        self.sys.ring.len()
    }

    /// Timestamp of the next mic sample, once a mic frame arrived.
    pub fn mic_head_ns(&self) -> (h: Option<u64>)
        ensures
            h == self.state().mic.head_ns,
    {
        self.mic.head_ns
    }

    /// Timestamp of the next system sample, once a system frame arrived.
    pub fn sys_head_ns(&self) -> (h: Option<u64>)
        ensures
            h == self.state().sys.head_ns,
    {
        self.sys.head_ns
    }

    /// The pending mic samples, oldest first.
    pub fn mic_samples(&self) -> (v: Vec<S>)
        ensures
            v@ == self.state().mic.ring,
    {
        copy_ring(&self.mic.ring)
    }

    /// The pending system samples, oldest first.
    pub fn sys_samples(&self) -> (v: Vec<S>)
        ensures
            v@ == self.state().sys.ring,
    {
        copy_ring(&self.sys.ring)
    }
}

fn push_channel<S: Copy>(
    ch: &mut Channel<S>,
    rate: u32,
    max_lag: u64,
    silence: S,
    ts: u64,
    mono: &Vec<S>,
)
    ensures
        final(ch).state() == channel_after_push(old(ch).state(), rate, max_lag, silence, ts, mono@),
{
    match ch.head_ns {
        None => {
            ch.head_ns = Some(ts);
            push_from(&mut ch.ring, mono, 0);
            assert(mono@.subrange(0, mono@.len() as int) == mono@);
        },
        Some(h) => {
            let buffered_ns = samples_to_ns_exec(rate, ch.ring.len() as u64);
            let expected = sat_add_exec(h, buffered_ns);
            if ts > expected {
                let gap = ns_to_samples_exec(rate, ts - expected);
                let pad = if gap < max_lag {
                    gap
                } else {
                    max_lag
                };
                push_silence(&mut ch.ring, silence, pad);
                push_from(&mut ch.ring, mono, 0);
                assert(mono@.subrange(0, mono@.len() as int) == mono@);
            } else if ts < expected {
                let over = ns_to_samples_exec(rate, expected - ts);
                let drop: usize = if over < mono.len() as u64 {
                    over as usize
                } else {
                    mono.len()
                };
                push_from(&mut ch.ring, mono, drop);
            } else {
                push_from(&mut ch.ring, mono, 0);
                assert(mono@.subrange(0, mono@.len() as int) == mono@);
            }
        },
    }
}

fn copy_ring<S: Copy>(ring: &VecDeque<S>) -> (v: Vec<S>)
    ensures
        v@ == ring@,
{
    let mut v: Vec<S> = Vec::new();
    let mut i: usize = 0;
    while i < ring.len()
        invariant
            i <= ring@.len(),
            v@ == ring@.subrange(0, i as int),
        decreases ring@.len() - i,
    {
        v.push(ring[i]);
        i = i + 1;
    }
    assert(ring@.subrange(0, ring@.len() as int) == ring@);
    v
}


fn sat_mul_exec(a: u64, b: u64) -> (r: u64)
    ensures
        r == sat_mul(a, b),
{
    match a.checked_mul(b) {
        Some(v) => v,
        None => u64::MAX,
    }
}

fn samples_to_ns_exec(rate: u32, n: u64) -> (r: u64)
    ensures
        r == samples_to_ns(rate, n),
{
    if rate == 0 {
        0
    } else {
        sat_mul_exec(n, 1_000_000_000) / (rate as u64)
    }
}

fn ns_to_samples_exec(rate: u32, ns: u64) -> (r: u64)
    ensures
        r == ns_to_samples(rate, ns),
{
    if rate == 0 {
        0
    } else {
        sat_mul_exec(ns, rate as u64) / 1_000_000_000
    }
}

fn sat_add_exec(a: u64, b: u64) -> (r: u64)
    ensures
        r == sat_add(a, b),
{
    match a.checked_add(b) {
        Some(v) => v,
        None => u64::MAX,
    }
}

fn push_silence<S: Copy>(ring: &mut VecDeque<S>, x: S, n: u64)
    ensures
        final(ring)@ == old(ring)@ + repeat(x, n as nat),
{
    let mut i: u64 = 0;
    while i < n
        invariant
            i <= n,
            ring@ == old(ring)@ + repeat(x, i as nat),
        decreases n - i,
    {
        ring.push_back(x);
        assert(old(ring)@ + repeat(x, (i + 1) as nat) =~= (old(ring)@ + repeat(x, i as nat)).push(x));
        i = i + 1;
    }
}

fn push_from<S: Copy>(ring: &mut VecDeque<S>, mono: &Vec<S>, from: usize)
    requires
        from <= mono@.len(),
    ensures
        final(ring)@ == old(ring)@ + mono@.subrange(from as int, mono@.len() as int),
{
    let mut i: usize = from;
    while i < mono.len()
        invariant
            from <= i <= mono@.len(),
            ring@ == old(ring)@ + mono@.subrange(from as int, i as int),
        decreases mono@.len() - i,
    {
        ring.push_back(mono[i]);
        assert(old(ring)@ + mono@.subrange(from as int, i + 1) =~= (old(ring)@ + mono@.subrange(
            from as int,
            i as int,
        )).push(mono@[i as int]));
        i = i + 1;
    }
}

fn drop_front<S>(ring: &mut VecDeque<S>, n: usize)
    requires
        n <= old(ring)@.len(),
    ensures
        final(ring)@ == old(ring)@.subrange(n as int, old(ring)@.len() as int),
{
    let mut i: usize = 0;
    while i < n
        invariant
            i <= n <= old(ring)@.len(),
            ring@ == old(ring)@.subrange(i as int, old(ring)@.len() as int),
        decreases n - i,
    {
        let _ = ring.pop_front();
        i = i + 1;
    }
}

fn advance_head(head: Option<u64>, rate: u32, n: u64) -> (r: Option<u64>)
    ensures
        r == (match head {
            Some(h) => Some(sat_add(h, samples_to_ns(rate, n))),
            None => None,
        }),
{
    match head {
        Some(h) => Some(sat_add_exec(h, samples_to_ns_exec(rate, n))),
        None => None,
    }
}

} // verus!
