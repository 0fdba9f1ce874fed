//! The sample-level part of the offline journal merge: how much of a
//! segment file holds whole samples, how the two sources are aligned by
//! their wall-clock anchors, and how they are paired into stereo. Reading
//! the segments, resampling, encoding and the duration check on the
//! encoded result happen outside the library.

use vstd::prelude::*;

use crate::pipeline::interleave::{interleaved, repeat};
use crate::pipeline::journal::JournalManifest;

verus! {

/// Bytes of a journal segment that hold whole little-endian `f32`
/// samples: a crash mid-write leaves a partial trailing sample, which is
/// dropped.
pub fn usable_segment_len(byte_len: usize) -> (n: usize)
    ensures
        n == byte_len - byte_len % 4,
        n % 4 == 0,
        n <= byte_len,
{
    byte_len - byte_len % 4
}

/// How far the system source's first frame came after the mic's, in
/// milliseconds; 0 unless both sources are present.
pub open spec fn epoch_delta(m: JournalManifest) -> int {
    match (m.mic, m.system) {
        (Some(mic), Some(sys)) => sys.first_frame_epoch_ms - mic.first_frame_epoch_ms,
        _ => 0,
    }
}

/// The anchor delta the merge aligns the two sources by.
pub fn epoch_delta_ms(m: &JournalManifest) -> (d: i64)
    requires
        i64::MIN <= epoch_delta(*m) <= i64::MAX,
    ensures
        d == epoch_delta(*m),
{
    match (m.mic, m.system) {
        (Some(mic), Some(sys)) => sys.first_frame_epoch_ms - mic.first_frame_epoch_ms,
        _ => 0,
    }
}

/// Channels of the merged audio: stereo when both sources were
/// journaled, mono otherwise.
pub fn merged_channels(m: &JournalManifest) -> (c: u16)
    ensures
        c == (if m.mic is Some && m.system is Some {
            2u16
        } else {
            1u16
        }),
{
    if m.mic.is_some() && m.system.is_some() {
        2
    } else {
        1
    }
}

/// `|delta_ms| * sample_rate / 1000`: the silence that precedes the
/// later-starting source.
pub open spec fn prefix_samples(delta_ms: int, sample_rate: nat) -> nat {
    let a = if delta_ms < 0 {
        -delta_ms
    } else {
        delta_ms
    };
    (a * sample_rate / 1000) as nat
}

/// `s` padded with `x` to `n` samples.
pub open spec fn padded<S>(s: Seq<S>, x: S, n: nat) -> Seq<S> {
    if s.len() < n {
        s + repeat(x, (n - s.len()) as nat)
    } else {
        s
    }
}

/// Stereo `[L, R, ..]` of `mic` (left) and `system` (right): the source
/// that started later (by `delta_ms = system - mic`) is preceded by
/// silence, and the shorter side is padded to the longer.
pub open spec fn merged_stereo<S>(
    mic: Seq<S>,
    system: Seq<S>,
    delta_ms: int,
    sample_rate: nat,
    silence: S,
) -> Seq<S> {
    let p = prefix_samples(delta_ms, sample_rate);
    let l = if delta_ms < 0 {
        repeat(silence, p) + mic
    } else {
        mic
    };
    let r = if delta_ms > 0 {
        repeat(silence, p) + system
    } else {
        system
    };
    let n = if l.len() < r.len() {
        r.len()
    } else {
        l.len()
    };
    interleaved(padded(l, silence, n), padded(r, silence, n), n)
}

/// `p` is the number of whole samples in `ms` milliseconds at
/// `sample_rate` samples per second.
pub open spec fn whole_samples(ms: int, sample_rate: nat, p: nat) -> bool {
    p * 1000 <= ms * sample_rate < (p + 1) * 1000
}

/// Sample `i` of the left (mic) channel of stereo `out`.
pub open spec fn left_sample<S>(out: Seq<S>, i: int) -> S {
    out[2 * i]
}

/// Sample `i` of the right (system) channel of stereo `out`.
pub open spec fn right_sample<S>(out: Seq<S>, i: int) -> S {
    out[2 * i + 1]
}

proof fn lemma_prefix_is_whole_samples(delta_ms: int, sample_rate: nat)
    ensures
        whole_samples(
            if delta_ms < 0 { -delta_ms } else { delta_ms },
            sample_rate,
            prefix_samples(delta_ms, sample_rate),
        ),
{
    let a = if delta_ms < 0 { -delta_ms } else { delta_ms };
    assert(a * sample_rate >= 0) by (nonlinear_arith)
        requires
            a >= 0,
    ;
    vstd::arithmetic::div_mod::lemma_fundamental_div_mod(a * sample_rate, 1000);
}

/// Alignment of the merge: the source whose first frame came later is
/// preceded by silence for exactly the whole samples that fit in the
/// anchor gap at the sample rate, and then starts with its first sample;
/// the source that came first starts at once.
pub proof fn later_source_waits_for_the_anchor_gap<S>(
    mic: Seq<S>,
    system: Seq<S>,
    delta_ms: int,
    sample_rate: nat,
    silence: S,
)
    ensures
        ({
            let out = merged_stereo(mic, system, delta_ms, sample_rate, silence);
            &&& delta_ms > 0 && system.len() > 0 ==> exists|p: nat|
                #[trigger] whole_samples(delta_ms, sample_rate, p) && 2 * p + 1 < out.len()
                    && right_sample(out, p as int) == system[0] && forall|i: int|
                    0 <= i < p ==> #[trigger] right_sample(out, i) == silence
            &&& delta_ms < 0 && mic.len() > 0 ==> exists|p: nat|
                #[trigger] whole_samples(-delta_ms, sample_rate, p) && 2 * p < out.len()
                    && left_sample(out, p as int) == mic[0] && forall|i: int|
                    0 <= i < p ==> #[trigger] left_sample(out, i) == silence
            &&& delta_ms >= 0 && mic.len() > 0 ==> out.len() > 0 && out[0] == mic[0]
            &&& delta_ms <= 0 && system.len() > 0 ==> out.len() > 1 && out[1] == system[0]
        }),
{
    let p = prefix_samples(delta_ms, sample_rate);
    lemma_prefix_is_whole_samples(delta_ms, sample_rate);
    let l = if delta_ms < 0 {
        repeat(silence, p) + mic
    } else {
        mic
    };
    let r = if delta_ms > 0 {
        repeat(silence, p) + system
    } else {
        system
    };
    let n = if l.len() < r.len() {
        r.len()
    } else {
        l.len()
    };
    let lp = padded(l, silence, n);
    let rp = padded(r, silence, n);
    let out = merged_stereo(mic, system, delta_ms, sample_rate, silence);
    assert(out == interleaved(lp, rp, n));
    assert(lp.len() >= n && rp.len() >= n);
    if delta_ms > 0 && system.len() > 0 {
        assert(rp[p as int] == system[0]);
        assert(out[2 * p + 1 as int] == rp[p as int]);
        assert forall|i: int| 0 <= i < p implies #[trigger] right_sample(out, i) == silence by {
            assert(out[2 * i + 1] == rp[i]);
            assert(rp[i] == r[i]);
        }
        assert(whole_samples(delta_ms, sample_rate, p));
    }
    if delta_ms < 0 && mic.len() > 0 {
        assert(lp[p as int] == mic[0]);
        assert(out[2 * p as int] == lp[p as int]);
        assert forall|i: int| 0 <= i < p implies #[trigger] left_sample(out, i) == silence by {
            assert(out[2 * i] == lp[i]);
            assert(lp[i] == l[i]);
        }
        assert(whole_samples(-delta_ms, sample_rate, p));
    }
    if delta_ms >= 0 && mic.len() > 0 {
        assert(out[0] == lp[0]);
    }
    if delta_ms <= 0 && system.len() > 0 {
        assert(out[1] == rp[0]);
    }
}

fn silence_then<S: Copy>(x: S, n: usize, s: Vec<S>) -> (r: Vec<S>)
    ensures
        r@ == repeat(x, n as nat) + s@,
{
    let mut out: Vec<S> = Vec::new();
    let mut i: usize = 0;
    while i < n
        invariant
            i <= n,
            out@ == repeat(x, i as nat),
        decreases n - i,
    {
        out.push(x);
        assert(out@ =~= repeat(x, (i + 1) as nat));
        i = i + 1;
    }
    let mut j: usize = 0;
    while j < s.len()
        invariant
            j <= s@.len(),
            out@ == repeat(x, n as nat) + s@.subrange(0, j as int),
        decreases s@.len() - j,
    {
        out.push(s[j]);
        assert(out@ =~= repeat(x, n as nat) + s@.subrange(0, j + 1));
        j = j + 1;
    }
    assert(s@.subrange(0, s@.len() as int) == s@);
    out
}

/// Pairs `mic` and `system` into interleaved stereo, aligning them by
/// `delta_ms` (the system anchor minus the mic anchor) at `sample_rate`;
/// `silence` fills the prefix and the padding.
pub fn interleave_stereo<S: Copy>(
    mic: Vec<S>,
    system: Vec<S>,
    delta_ms: i64,
    sample_rate: u32,
    silence: S,
) -> (out: Vec<S>)
    requires
        prefix_samples(delta_ms as int, sample_rate as nat) + mic@.len() + system@.len()
            <= usize::MAX / 2,
        (if delta_ms < 0 { -delta_ms } else { delta_ms as int }) * sample_rate <= u64::MAX,
    ensures
        out@ == merged_stereo(mic@, system@, delta_ms as int, sample_rate as nat, silence),
{
    let z = silence;
    let a: u64 = if delta_ms < 0 {
        (-(delta_ms as i128)) as u64
    } else {
        delta_ms as u64
    };
    let p: u64 = a * (sample_rate as u64) / 1000;
    let p: usize = p as usize;
    let l = if delta_ms < 0 {
        silence_then(z, p, mic)
    } else {
        mic
    };
    let r = if delta_ms > 0 {
        silence_then(z, p, system)
    } else {
        system
    };
    let n = if l.len() < r.len() {
        r.len()
    } else {
        l.len()
    };
    let ghost lp = padded(l@, z, n as nat);
    let ghost rp = padded(r@, z, n as nat);
    let mut out: Vec<S> = Vec::new();
    let mut i: usize = 0;
    while i < n
        invariant
            i <= n,
            n == l@.len() || n == r@.len(),
            l@.len() <= n,
            r@.len() <= n,
            n <= usize::MAX / 2,
            lp == padded(l@, z, n as nat),
            rp == padded(r@, z, n as nat),
            out@ == interleaved(lp, rp, i as nat),
        decreases n - i,
    {
        let x = if i < l.len() {
            l[i]
        } else {
            z
        };
        let y = if i < r.len() {
            r[i]
        } else {
            z
        };
        assert(lp[i as int] == x);
        assert(rp[i as int] == y);
        out.push(x);
        out.push(y);
        assert(out@ =~= interleaved(lp, rp, (i + 1) as nat));
        i = i + 1;
    }
    assert(out@ == merged_stereo(mic@, system@, delta_ms as int, sample_rate as nat, z));
    out
}

} // verus!
