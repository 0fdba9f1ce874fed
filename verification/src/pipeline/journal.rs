//! Crash-safe PCM journal layout: segment file names, the manifest that
//! anchors each source in wall-clock time, and the rotation bookkeeping
//! of a writer (a new segment every 30 s of audio).
//!
//! The writer thread and the file I/O live outside this crate; every
//! decision they take per frame is [`SegmentTracker::record`].

use vstd::prelude::*;

use crate::paths::{join_path, path_join};
use crate::text::{dec4, push_dec4, push_str, string_from_chars};
use crate::types::FrameSource;

verus! {

/// Seconds of audio per journal segment.
pub const ROTATE_INTERVAL_SECS: u32 = 30;

/// What a writer reports when it closes.
#[derive(Clone, Debug, PartialEq, Eq)]
pub struct JournalSummary {
    pub source: FrameSource,
    pub sample_rate: u32,
    pub channels: u16,
    /// Frames per channel written across every segment.
    pub frames_written: u64,
    /// Number of non-empty segment files created.
    pub segment_count: u32,
}

/// Anchor of one source's journal: the wall-clock time (epoch ms) of its
/// first frame and its format.
#[derive(Clone, Copy, Debug, PartialEq, Eq)]
pub struct JournalAnchor {
    pub first_frame_epoch_ms: i64,
    pub sample_rate: u32,
    pub channels: u16,
    pub frames_written: u64,
}

/// `journal/manifest.toml`: one optional anchor per source.
#[derive(Clone, Copy, Debug, PartialEq, Eq)]
pub struct JournalManifest {
    pub mic: Option<JournalAnchor>,
    pub system: Option<JournalAnchor>,
}

impl Default for JournalManifest {
    fn default() -> (m: Self)
        ensures
            m.mic is None,
            m.system is None,
    {
        JournalManifest { mic: None, system: None }
    }
}

/// The file-name tag of a source's segments.
pub open spec fn source_tag_text(source: FrameSource) -> Seq<char> {
    match source {
        FrameSource::Mic => "mic"@,
        FrameSource::Mixed => "mic"@,
        FrameSource::System => "system"@,
    }
}

/// The file-name tag of a source's segments: `mic` (also for mixed
/// capture) or `system`.
pub fn source_tag(source: FrameSource) -> (t: &'static str)
    ensures
        t@ == source_tag_text(source),
{
    match source {
        FrameSource::Mic => "mic",
        FrameSource::Mixed => "mic",
        FrameSource::System => "system",
    }
}

/// The name of segment `seq` for `tag`: `<tag>-<seq, 4 digits>.f32`.
pub open spec fn segment_file_name(tag: Seq<char>, seq: u32) -> Seq<char> {
    tag + "-"@ + dec4(seq as nat) + ".f32"@
}

/// The path segment `seq` of `tag` is written to under `dir`.
pub fn segment_path(dir: &str, tag: &str, seq: u32) -> (p: String)
    ensures
        p@ == path_join(dir@, segment_file_name(tag@, seq)),
{
    let mut name: Vec<char> = Vec::new();
    push_str(&mut name, tag);
    push_str(&mut name, "-");
    push_dec4(&mut name, seq as u64);
    push_str(&mut name, ".f32");
    let n = string_from_chars(name.as_slice());
    join_path(dir, n.as_str())
}

/// Samples (all channels) per segment for a format.
pub open spec fn rotate_at(sample_rate: u32, channels: u16) -> nat {
    (ROTATE_INTERVAL_SECS as nat) * (sample_rate as nat) * (if channels == 0 {
        1nat
    } else {
        channels as nat
    })
}

/// What the writer does with one non-empty frame.
#[derive(Clone, Copy, Debug, PartialEq, Eq)]
pub struct FrameWrite {
    /// Open segment `seq` before writing, when no segment is open.
    pub open_segment: Option<u32>,
    /// Close the segment after writing: it reached the rotation size.
    pub close_after: bool,
}

/// The rotation bookkeeping of one source's writer.
#[derive(Clone, Copy, Debug, PartialEq, Eq)]
pub struct SegmentTracker {
    /// Sequence number of the current (or next) segment.
    pub seq: u32,
    /// Samples written to the open segment.
    pub segment_samples: u64,
    /// Frames per channel written so far.
    pub frames_written: u64,
    /// Segments opened so far.
    pub segment_count: u32,
    /// Whether a segment is open.
    pub open: bool,
    pub rotate_at_samples: u64,
    pub channel_divisor: u64,
}

impl SegmentTracker {
    /// Fresh bookkeeping for a source of this format.
    pub fn new(sample_rate: u32, channels: u16) -> (t: SegmentTracker)
        ensures
            t.seq == 0 && t.segment_samples == 0 && t.frames_written == 0 && t.segment_count == 0,
            !t.open,
            t.rotate_at_samples == rotate_at(sample_rate, channels),
            t.channel_divisor == (if channels == 0 {
                1
            } else {
                channels as u64
            }),
    {
        let divisor: u64 = if channels == 0 {
            1
        } else {
            channels as u64
        };
        assert(30 * sample_rate * divisor <= 30 * 0xffff_ffff * 0xffff) by (nonlinear_arith)
            requires
                sample_rate <= 0xffff_ffff,
                divisor <= 0xffff,
        ;
        SegmentTracker {
            seq: 0,
            segment_samples: 0,
            frames_written: 0,
            segment_count: 0,
            open: false,
            rotate_at_samples: 30 * (sample_rate as u64) * divisor,
            channel_divisor: divisor,
        }
    }

    /// Records one frame of `samples` interleaved samples. An empty frame
    /// is skipped (`None`). Otherwise a segment is opened first when none
    /// is open, the counters grow, and the segment is closed (and the
    /// sequence advanced) once it holds the rotation size.
    pub fn record(&mut self, samples: u64) -> (w: Option<FrameWrite>)
        requires
            old(self).channel_divisor > 0,
            old(self).segment_count < u32::MAX,
            old(self).seq < u32::MAX,
            old(self).segment_samples + samples <= u64::MAX,
            old(self).frames_written + samples / old(self).channel_divisor <= u64::MAX,
        ensures
            samples == 0 ==> w is None && *final(self) == *old(self),
            samples > 0 ==> {
                let grown = old(self).segment_samples + samples;
                let rotate = grown >= old(self).rotate_at_samples;
                &&& w matches Some(fw)
                &&& fw.open_segment == (if old(self).open {
                    None
                } else {
                    Some(old(self).seq)
                })
                &&& fw.close_after == rotate
                &&& final(self).segment_count == old(self).segment_count + (if old(self).open {
                    0int
                } else {
                    1int
                })
                &&& final(self).frames_written == old(self).frames_written + samples
                    / old(self).channel_divisor
                &&& final(self).seq == old(self).seq + (if rotate {
                    1int
                } else {
                    0int
                })
                &&& final(self).segment_samples == (if rotate {
                    0
                } else {
                    grown
                })
                &&& final(self).open == !rotate
                &&& final(self).rotate_at_samples == old(self).rotate_at_samples
                &&& final(self).channel_divisor == old(self).channel_divisor
            },
    {
        if samples == 0 {
            return None;
        }
        let open_segment = if self.open {
            None
        } else {
            self.segment_count = self.segment_count + 1;
            Some(self.seq)
        };
        self.segment_samples = self.segment_samples + samples;
        self.frames_written = self.frames_written + samples / self.channel_divisor;
        let close_after = self.segment_samples >= self.rotate_at_samples;
        if close_after {
            self.seq = self.seq + 1;
            self.segment_samples = 0;
            self.open = false;
        } else {
            self.open = true;
        }
        Some(FrameWrite { open_segment, close_after })
    }

    /// The summary reported when the writer closes.
    pub fn summary(&self, source: FrameSource, sample_rate: u32, channels: u16) -> (s: JournalSummary)
        ensures
            s == (JournalSummary {
                source,
                sample_rate,
                channels,
                frames_written: self.frames_written,
                segment_count: self.segment_count,
            }),
    {
        JournalSummary {
            source,
            sample_rate,
            channels,
            frames_written: self.frames_written,
            segment_count: self.segment_count,
        }
    }
}

} // verus!
