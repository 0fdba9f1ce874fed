//! Decisions of the session orchestrator: where each captured frame and
//! each transcribed chunk goes, how the transcript is re-headed once the
//! final title is known, and what `meta.toml` records. The orchestrator
//! loop itself (capture stream, providers, files, hooks) drives these
//! from outside the library.

use vstd::prelude::*;

use crate::error::{CoreError, PipelineError};
use crate::notes::{
    chrono_utc_format, clean_generated_title, cleaned_title, format_utc_millis, MAX_UTC_MILLIS,
    MIN_UTC_MILLIS,
};
use crate::pipeline::journal::JournalManifest;
use crate::text::{
    chars_of, find, find_exec, lemma_find_from_bounds, push_range, push_str, starts_with,
    string_from_chars,
};
use crate::types::{
    base32_text, AttributedChunk, ConsentAttestation, FrameSource, SessionId, SpeakerLabel,
};

verus! {

/// Which per-source transcript list a transcribed chunk joins.
#[derive(Clone, Copy, Debug, PartialEq, Eq, Structural)]
pub enum StoreTarget {
    Mic,
    System,
}

/// System audio is stored as the system side; mic and pre-mixed audio
/// as the mic side.
pub open spec fn target_of(source: FrameSource) -> StoreTarget {
    if source is System {
        StoreTarget::System
    } else {
        StoreTarget::Mic
    }
}

/// The list a chunk from `source` joins.
pub fn store_target(source: FrameSource) -> (t: StoreTarget)
    ensures
        t == target_of(source),
{
    match source {
        FrameSource::System => StoreTarget::System,
        FrameSource::Mic | FrameSource::Mixed => StoreTarget::Mic,
    }
}

/// The speaker a chunk from `source` is attributed to before
/// diarization: the remote side for system audio, the user otherwise.
pub fn speaker_for(source: FrameSource) -> (l: SpeakerLabel)
    ensures
        l == (if source is System {
            SpeakerLabel::Them
        } else {
            SpeakerLabel::Me
        }),
{
    match source {
        FrameSource::System => SpeakerLabel::Them,
        FrameSource::Mic | FrameSource::Mixed => SpeakerLabel::Me,
    }
}

/// The name a store target is logged under.
pub fn target_kind(target: StoreTarget) -> (s: &'static str)
    ensures
        s@ == (match target {
            StoreTarget::Mic => "mic"@,
            StoreTarget::System => "system"@,
        }),
{
    match target {
        StoreTarget::Mic => "mic",
        StoreTarget::System => "system",
    }
}

/// The chunker a captured frame feeds: system frames feed the system
/// chunker when the session has one (a system VAD) and are otherwise
/// not chunked; mic and pre-mixed frames feed the mic chunker.
pub fn chunker_for(source: FrameSource, has_system_chunker: bool) -> (r: Option<StoreTarget>)
    ensures
        r == (if source is System {
            if has_system_chunker {
                Some(StoreTarget::System)
            } else {
                None
            }
        } else {
            Some(StoreTarget::Mic)
        }),
{
    match source {
        FrameSource::System => if has_system_chunker {
            Some(StoreTarget::System)
        } else {
            None
        },
        FrameSource::Mic | FrameSource::Mixed => Some(StoreTarget::Mic),
    }
}

/// Whether `journal/manifest.toml` is written: when some source
/// journaled at least one frame.
pub fn needs_manifest(m: &JournalManifest) -> (b: bool)
    ensures
        b == (m.mic is Some || m.system is Some),
{
    m.mic.is_some() || m.system.is_some()
}

/// The title the session folder is first named after.
pub fn initial_title(title: Option<&str>) -> (t: &str)
    ensures
        t@ == (match title {
            Some(s) => s@,
            None => "untitled"@,
        }),
{
    match title {
        Some(s) => s,
        None => "untitled",
    }
}

/// The session title taken from the model's answer, once cleaned; an
/// answer with nothing alphanumeric in it is an error.
pub fn title_from_generation(raw: &str) -> (r: Result<String, CoreError>)
    ensures
        match cleaned_title(raw@) {
            Some(t) => r matches Ok(s) && s@ == t,
            None => r matches Err(CoreError::Pipeline(PipelineError::InvalidGeneratedTitle)),
        },
{
    match clean_generated_title(raw) {
        Some(t) => Ok(t),
        None => Err(CoreError::Pipeline(PipelineError::InvalidGeneratedTitle)),
    }
}

/// `transcript.md` once its title is final: unchanged (`None`) when it
/// already starts with `# {title}` and a line ending; otherwise the new
/// `header` followed by everything after the first blank line (nothing
/// when there is none).
pub open spec fn retitled(body: Seq<char>, title: Seq<char>, header: Seq<char>) -> Option<
    Seq<char>,
> {
    if starts_with(body, "# "@ + title + "\n"@) {
        None
    } else {
        let rest = match find(body, "\n\n"@) {
            Some(k) => body.subrange(k + 2, body.len() as int),
            None => Seq::empty(),
        };
        Some(header + rest)
    }
}

/// Re-heads a transcript whose title became final; `header` is the
/// header rendered for that title.
pub fn retitled_transcript(body: &str, title: &str, header: &str) -> (r: Option<String>)
    ensures
        match retitled(body@, title@, header@) {
            Some(t) => r matches Some(s) && s@ == t,
            None => r is None,
        },
{
    let cs = chars_of(body);
    let mut prefix: Vec<char> = Vec::new();
    push_str(&mut prefix, "# ");
    push_str(&mut prefix, title);
    push_str(&mut prefix, "\n");
    if prefix.len() <= cs.len() && crate::text::matches_at_exec(&cs, 0, cs.len(), &prefix, 0) {
        proof {
            assert(cs@.subrange(0, cs@.len() as int) == cs@);
        }
        return None;
    }
    proof {
        assert(cs@.subrange(0, cs@.len() as int) == cs@);
    }
    let mut sep: Vec<char> = Vec::new();
    push_str(&mut sep, "\n\n");
    let mut out: Vec<char> = Vec::new();
    push_str(&mut out, header);
    match find_exec(&cs, 0, cs.len(), &sep, 0) {
        Some(k) => {
            proof {
                reveal_strlit("\n\n");
                lemma_find_from_bounds(cs@, sep@, 0);
                assert(k + sep@.len() <= cs@.len());
            }
            push_range(&mut out, &cs, k + 2, cs.len());
        },
        None => {},
    }
    Some(string_from_chars(out.as_slice()))
}

/// The channel-attribution descriptor recorded for `audio.opus`: stereo
/// carries the mic on the left and system audio on the right.
pub fn audio_layout(stereo: bool, channels: u16) -> (s: &'static str)
    ensures
        s@ == (if stereo && channels == 2 {
            "stereo:mic-l,system-r"@
        } else {
            "mono:mic"@
        }),
{
    if stereo && channels == 2 {
        "stereo:mic-l,system-r"
    } else {
        "mono:mic"
    }
}

/// Whole seconds from `started_ms` to `ended_ms`; 0 when the end is
/// before the start.
pub open spec fn elapsed_secs(started_ms: int, ended_ms: int) -> nat {
    if ended_ms <= started_ms {
        0
    } else {
        ((ended_ms - started_ms) / 1000) as nat
    }
}

/// The session duration recorded in `meta.toml`.
pub fn duration_secs(started_ms: i64, ended_ms: i64) -> (d: u64)
    ensures
        d == elapsed_secs(started_ms as int, ended_ms as int),
{
    if ended_ms <= started_ms {
        0
    } else {
        let diff: u64 = ((ended_ms as i128) - (started_ms as i128)) as u64;
        diff / 1000
    }
}

/// How `audio.opus` was encoded.
#[derive(Clone, Debug, PartialEq, Eq)]
pub struct AudioMeta {
    pub channels: u16,
    pub layout: String,
    pub sample_rate: u32,
    pub bitrate_bps: u32,
    pub mic_epoch_ms: Option<i64>,
    pub system_epoch_ms: Option<i64>,
}

/// The audio block for a merge that produced `channels` channels from
/// the sources anchored in `manifest`.
pub fn audio_meta(
    channels: u16,
    sample_rate: u32,
    bitrate_bps: u32,
    manifest: &JournalManifest,
) -> (m: AudioMeta)
    ensures
        m.channels == channels,
        m.layout@ == (if channels == 2 {
            "stereo:mic-l,system-r"@
        } else {
            "mono:mic"@
        }),
        m.sample_rate == sample_rate,
        m.bitrate_bps == bitrate_bps,
        m.mic_epoch_ms == (match manifest.mic {
            Some(a) => Some(a.first_frame_epoch_ms),
            None => None,
        }),
        m.system_epoch_ms == (match manifest.system {
            Some(a) => Some(a.first_frame_epoch_ms),
            None => None,
        }),
{
    let layout = audio_layout(channels == 2, channels);
    let mut cs: Vec<char> = Vec::new();
    push_str(&mut cs, layout);
    AudioMeta {
        channels,
        layout: string_from_chars(cs.as_slice()),
        sample_rate,
        bitrate_bps,
        mic_epoch_ms: match manifest.mic {
            Some(a) => Some(a.first_frame_epoch_ms),
            None => None,
        },
        system_epoch_ms: match manifest.system {
            Some(a) => Some(a.first_frame_epoch_ms),
            None => None,
        },
    }
}


/// What a finished session hands back: where its files ended up, the
/// consent it recorded, and the speaker-attributed transcript.
#[derive(Debug)]
pub struct SessionOutputs {
    pub folder: String,
    pub transcript_path: String,
    pub notes_path: String,
    pub meta_path: String,
    pub audio_path: String,
    pub attestation: ConsentAttestation,
    pub chunks: Vec<AttributedChunk>,
}

/// What `meta.toml` records of a finished session.
#[derive(Debug)]
pub struct MetaRecord {
    /// The session id in its 26-character form.
    pub session_id: String,
    pub title: Option<String>,
    pub started_at_ms: i64,
    pub ended_at_ms: i64,
    pub duration_secs: u64,
    pub consent: ConsentAttestation,
    pub stt: String,
    pub llm: String,
    pub diarizer: String,
    /// The version of the software that wrote the file.
    pub version: String,
    pub audio: Option<AudioMeta>,
}

fn owned(s: &str) -> (r: String)
    ensures
        r@ == s@,
{
    let mut cs: Vec<char> = Vec::new();
    push_str(&mut cs, s);
    string_from_chars(cs.as_slice())
}

/// The record of a session that ran from `started_at_ms` to
/// `ended_at_ms` under the named providers.
pub fn meta_record(
    id: SessionId,
    title: Option<&str>,
    started_at_ms: i64,
    ended_at_ms: i64,
    attestation: ConsentAttestation,
    stt_name: &str,
    llm_name: &str,
    diarizer_name: &str,
    version: &str,
    audio: Option<AudioMeta>,
) -> (m: MetaRecord)
    ensures
        m.session_id@ == crate::types::base32_text(id.0 as nat, 26),
        match title {
            Some(t) => m.title matches Some(mt) && mt@ == t@,
            None => m.title is None,
        },
        m.started_at_ms == started_at_ms,
        m.ended_at_ms == ended_at_ms,
        m.duration_secs == elapsed_secs(started_at_ms as int, ended_at_ms as int),
        m.consent == attestation,
        m.stt@ == stt_name@,
        m.llm@ == llm_name@,
        m.diarizer@ == diarizer_name@,
        m.version@ == version@,
        m.audio == audio,
{
    MetaRecord {
        session_id: id.to_string_26(),
        title: match title {
            Some(t) => Some(owned(t)),
            None => None,
        },
        started_at_ms,
        ended_at_ms,
        duration_secs: duration_secs(started_at_ms, ended_at_ms),
        consent: attestation,
        stt: owned(stt_name),
        llm: owned(llm_name),
        diarizer: owned(diarizer_name),
        version: owned(version),
        audio,
    }
}

// ---------------------------------------------------------------------
// Session folder names
// ---------------------------------------------------------------------

/// An ASCII letter or digit.
pub open spec fn is_ascii_alnum(c: char) -> bool {
    ||| 'a' <= c && c <= 'z'
    ||| 'A' <= c && c <= 'Z'
    ||| '0' <= c && c <= '9'
}

/// `c` with an ASCII capital lowercased.
pub open spec fn lower_ascii(c: char) -> char {
    if 'A' <= c && c <= 'Z' {
        "abcdefghijklmnopqrstuvwxyz"@[c as int - 'A' as int]
    } else {
        c
    }
}

/// The slug of `s` as it is built: each ASCII letter or digit kept
/// (lowercased), and each run of other characters after the first kept
/// one turned into a single `-`.
pub open spec fn slug_run(s: Seq<char>) -> Seq<char>
    decreases s.len(),
{
    if s.len() == 0 {
        Seq::empty()
    } else {
        let out = slug_run(s.drop_last());
        let c = s.last();
        if is_ascii_alnum(c) {
            out.push(lower_ascii(c))
        } else if out.len() > 0 && out.last() != '-' {
            out.push('-')
        } else {
            out
        }
    }
}

/// `t` without the `-` characters it ends with.
pub open spec fn without_trailing_dashes(t: Seq<char>) -> Seq<char>
    decreases t.len(),
{
    if t.len() > 0 && t.last() == '-' {
        without_trailing_dashes(t.drop_last())
    } else {
        t
    }
}

/// The lowercase slug of a title: runs of anything but ASCII letters and
/// digits become one `-`, with none at either end; `untitled` when
/// nothing is left.
pub open spec fn slug_text(title: Seq<char>) -> Seq<char> {
    let t = without_trailing_dashes(slug_run(title));
    if t.len() == 0 {
        "untitled"@
    } else {
        t
    }
}

/// The slug of `title` (see `slug_text`).
pub fn slug(title: &str) -> (s: String)
    ensures
        s@ == slug_text(title@),
{
    let cs = chars_of(title);
    let lower: Vec<char> = chars_of("abcdefghijklmnopqrstuvwxyz");
    proof {
        reveal_strlit("abcdefghijklmnopqrstuvwxyz");
    }
    let mut out: Vec<char> = Vec::new();
    let mut i: usize = 0;
    while i < cs.len()
        invariant
            cs@ == title@,
            lower@ == "abcdefghijklmnopqrstuvwxyz"@,
            lower@.len() == 26,
            i <= cs@.len(),
            out@ == slug_run(cs@.take(i as int)),
        decreases cs@.len() - i,
    {
        let c = cs[i];
        proof {
            assert(cs@.take(i + 1).drop_last() =~= cs@.take(i as int));
            assert(cs@.take(i + 1).last() == c);
        }
        if ('a' <= c && c <= 'z') || ('0' <= c && c <= '9') {
            out.push(c);
        } else if 'A' <= c && c <= 'Z' {
            let k = (c as u32 - 'A' as u32) as usize;
            assert(k < 26);
            out.push(lower[k]);
        } else if out.len() > 0 && out[out.len() - 1] != '-' {
            out.push('-');
        }
        i = i + 1;
    }
    assert(cs@.take(cs@.len() as int) =~= cs@);
    while out.len() > 0 && out[out.len() - 1] == '-'
        invariant
            without_trailing_dashes(out@) == without_trailing_dashes(slug_run(title@)),
        decreases out@.len(),
    {
        out.pop();
    }
    if out.len() == 0 {
        String::from_str("untitled")
    } else {
        string_from_chars(out.as_slice())
    }
}

/// The name of a session folder: `YYYY-MM-DD-HHMM-<title slug>-<ULID>`,
/// the time being the start in UTC as chrono renders it.
pub open spec fn folder_name_text(started_ms: int, title: Seq<char>, id: u128) -> Seq<char> {
    chrono_utc_format(started_ms, "%Y-%m-%d-%H%M"@) + "-"@ + slug_text(title) + "-"@ + base32_text(
        id as nat,
        26,
    )
}

/// Names the folder of session `id`, started at `started_at_ms` (epoch
/// milliseconds) under `title`.
pub fn session_folder_name(started_at_ms: i64, title: &str, id: SessionId) -> (s: String)
    requires
        MIN_UTC_MILLIS <= started_at_ms <= MAX_UTC_MILLIS,
    ensures
        s@ == folder_name_text(started_at_ms as int, title@, id.0),
{
    let stamp = format_utc_millis(started_at_ms, "%Y-%m-%d-%H%M");
    let mut out: Vec<char> = Vec::new();
    push_str(&mut out, stamp.as_str());
    push_str(&mut out, "-");
    push_str(&mut out, slug(title).as_str());
    push_str(&mut out, "-");
    push_str(&mut out, id.to_string_26().as_str());
    string_from_chars(out.as_slice())
}

} // verus!
