//! Encoder settings for the session's audio file, and the page-cadence
//! encoder used when no Opus codec is built in: it buffers samples and
//! hands them back one page (`page_interval_ms` of audio) at a time.

use vstd::prelude::*;

use crate::error::PipelineError;
use crate::text::{dec, push_dec, push_str, string_from_chars};

verus! {

/// Encoder settings: 48 kHz mono at 32 kbit/s, one Ogg page per second
/// by default.
#[derive(Clone, Copy, Debug, PartialEq, Eq)]
pub struct EncoderConfig {
    pub sample_rate: u32,
    pub channels: u16,
    pub bitrate_bps: u32,
    /// Interval between Ogg pages, in milliseconds.
    pub page_interval_ms: u64,
}

impl Default for EncoderConfig {
    fn default() -> (c: Self)
        ensures
            c.sample_rate == 48_000,
            c.channels == 1,
            c.bitrate_bps == 32_000,
            c.page_interval_ms == 1_000,
    {
        EncoderConfig { sample_rate: 48_000, channels: 1, bitrate_bps: 32_000, page_interval_ms: 1_000 }
    }
}


/// Samples per page: `sample_rate * page_interval_ms / 1000` rounded to
/// the nearest whole sample, times the channel count (at least one),
/// and never below one.
pub open spec fn samples_per_page(c: EncoderConfig) -> nat {
    let per_channel = (c.sample_rate * c.page_interval_ms + 500) / 1000;
    let channels: nat = if c.channels == 0 {
        1
    } else {
        c.channels as nat
    };
    if per_channel * channels == 0 {
        1
    } else {
        (per_channel * channels) as nat
    }
}

/// The encoder without a codec: buffers samples and emits them a page at
/// a time, unchanged.
pub struct NullEncoder<S> {
    config: EncoderConfig,
    pending: Vec<S>,
    samples_per_page: usize,
}

impl<S: Copy> NullEncoder<S> {
    pub closed spec fn config_view(&self) -> EncoderConfig {
        self.config
    }

    /// Samples waiting for a page to fill.
    pub closed spec fn pending_view(&self) -> Seq<S> {
        self.pending@
    }

    pub closed spec fn page_view(&self) -> nat {
        self.samples_per_page as nat
    }

    /// An empty encoder for `config`.
    pub fn new(config: EncoderConfig) -> (e: Self)
        requires
            (config.sample_rate * config.page_interval_ms + 500) / 1000 * (if config.channels
                == 0 {
                1
            } else {
                config.channels as int
            }) <= usize::MAX,
        ensures
            e.config_view() == config,
            e.pending_view().len() == 0,
            e.page_view() == samples_per_page(config),
    {
        let r: u128 = config.sample_rate as u128;
        let m: u128 = config.page_interval_ms as u128;
        assert(r * m <= 0xffff_ffff * 0xffff_ffff_ffff_ffff) by (nonlinear_arith)
            requires
                r <= 0xffff_ffff,
                m <= 0xffff_ffff_ffff_ffff,
        ;
        let per_channel: u128 = (r * m + 500) / 1000;
        let channels: u128 = if config.channels == 0 {
            1
        } else {
            config.channels as u128
        };
        assert(per_channel * channels <= usize::MAX) by (nonlinear_arith)
            requires
                per_channel * channels <= usize::MAX,
        ;
        let n = (per_channel * channels) as usize;
        NullEncoder { config, pending: Vec::new(), samples_per_page: if n == 0 {
            1
        } else {
            n
        } }
    }

    /// The settings this encoder was made with.
    pub fn config(&self) -> (c: EncoderConfig)
        ensures
            c == self.config_view(),
    {
        self.config
    }

    /// Buffers `samples`; once a page is full, returns the first page and
    /// keeps the rest, otherwise returns nothing.
    pub fn push_pcm(&mut self, samples: &[S]) -> (page: Vec<S>)
        ensures
            final(self).config_view() == old(self).config_view(),
            final(self).page_view() == old(self).page_view(),
            ({
                let all = old(self).pending_view() + samples@;
                let n = old(self).page_view();
                if all.len() < n {
                    page@.len() == 0 && final(self).pending_view() == all
                } else {
                    page@ == all.take(n as int) && final(self).pending_view() == all.skip(n as int)
                }
            }),
    {
        let mut i: usize = 0;
        let ghost before = self.pending@;
        while i < samples.len()
            invariant
                i <= samples@.len(),
                self.pending@ == before + samples@.take(i as int),
                self.config == old(self).config,
                self.samples_per_page == old(self).samples_per_page,
                before == old(self).pending@,
            decreases samples@.len() - i,
        {
            self.pending.push(samples[i]);
            assert(before + samples@.take(i + 1) =~= (before + samples@.take(i as int)).push(
                samples@[i as int],
            ));
            i = i + 1;
        }
        assert(samples@.take(samples@.len() as int) =~= samples@);
        if self.pending.len() < self.samples_per_page {
            return Vec::new();
        }
        let n = self.samples_per_page;
        let mut page = self.pending.split_off(n);
        std::mem::swap(&mut page, &mut self.pending);
        page
    }

    /// Everything still buffered, as a last (short) page.
    pub fn finish(&mut self) -> (tail: Vec<S>)
        ensures
            tail@ == old(self).pending_view(),
            final(self).pending_view().len() == 0,
            final(self).config_view() == old(self).config_view(),
            final(self).page_view() == old(self).page_view(),
    {
        let mut tail: Vec<S> = Vec::new();
        std::mem::swap(&mut tail, &mut self.pending);
        tail
    }
}

/// A sample rate Opus encodes at.
pub open spec fn is_opus_rate(rate: u32) -> bool {
    rate == 8_000 || rate == 12_000 || rate == 16_000 || rate == 24_000 || rate == 48_000
}

/// Why an Opus encoder cannot take `c`, if it cannot: a rate Opus does
/// not encode at, or neither mono nor stereo.
pub open spec fn opus_format_problem(c: EncoderConfig) -> Option<Seq<char>> {
    if !is_opus_rate(c.sample_rate) {
        Some(
            "unsupported sample rate "@ + dec(c.sample_rate as nat)
                + " Hz; Opus accepts 8000/12000/16000/24000/48000"@,
        )
    } else if c.channels != 1 && c.channels != 2 {
        Some(
            "unsupported channel count "@ + dec(c.channels as nat)
                + "; OggOpusEncoder requires mono or stereo"@,
        )
    } else {
        None
    }
}

/// The format check an Opus encoder makes before it opens the codec.
pub fn check_opus_format(config: &EncoderConfig) -> (r: Result<(), PipelineError>)
    ensures
        match opus_format_problem(*config) {
            Some(m) => r matches Err(PipelineError::OpusEncode(msg)) && msg@ == m,
            None => r is Ok,
        },
{
    let rate = config.sample_rate;
    if !(rate == 8_000 || rate == 12_000 || rate == 16_000 || rate == 24_000 || rate == 48_000) {
        let mut out: Vec<char> = Vec::new();
        push_str(&mut out, "unsupported sample rate ");
        push_dec(&mut out, rate as u64);
        push_str(&mut out, " Hz; Opus accepts 8000/12000/16000/24000/48000");
        return Err(PipelineError::OpusEncode(string_from_chars(out.as_slice())));
    }
    if config.channels != 1 && config.channels != 2 {
        let mut out: Vec<char> = Vec::new();
        push_str(&mut out, "unsupported channel count ");
        push_dec(&mut out, config.channels as u64);
        push_str(&mut out, "; OggOpusEncoder requires mono or stereo");
        return Err(PipelineError::OpusEncode(string_from_chars(out.as_slice())));
    }
    Ok(())
}

} // verus!
