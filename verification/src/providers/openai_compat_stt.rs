//! Request logic of the OpenAI-compatible `/audio/transcriptions`
//! provider: its configuration, the endpoint it posts to, and which HTTP
//! statuses are worth a retry. The HTTP exchange happens outside this
//! crate.

use vstd::prelude::*;

use crate::error::SttError;
use crate::providers::retry::{RetryFailure, RetryOutcome, RetryPolicy};
use crate::text::{chars_of, push_range, push_str, string_from_chars};
use crate::types::{FrameSource, TranscriptChunk};

verus! {

/// Configuration of the OpenAI-compatible transcription provider.
#[derive(Clone, Debug, PartialEq, Eq)]
pub struct OpenAiCompatSttConfig {
    /// Base URL up to and including `/v1`.
    pub base_url: String,
    /// API key; empty disables the `Authorization` header.
    pub api_key: String,
    /// Model name sent in the multipart `model` field.
    pub model: String,
    /// `auto` for autodetection, otherwise an ISO-639-1 code.
    pub language: String,
    /// Provider name surfaced in `meta.toml`.
    pub display_name: String,
    pub retry: RetryPolicy,
    /// Per-request timeout in milliseconds.
    pub timeout_ms: u64,
}

impl Default for OpenAiCompatSttConfig {
    fn default() -> (c: Self)
        ensures
            c.base_url@.len() == 0,
            c.api_key@.len() == 0,
            c.model@.len() == 0,
            c.language@ == "auto"@,
            c.display_name@ == "openai-compat"@,
            c.retry.is_default(),
            c.timeout_ms == 60_000,
    {
        OpenAiCompatSttConfig {
            base_url: String::new(),
            api_key: String::new(),
            model: String::new(),
            language: "auto".to_owned(),
            display_name: "openai-compat".to_owned(),
            retry: RetryPolicy::default(),
            timeout_ms: 60_000,
        }
    }
}

/// `s` without its trailing `'/'` characters.
pub open spec fn trim_slashes(s: Seq<char>) -> Seq<char>
    decreases s.len(),
{
    if s.len() > 0 && s.last() == '/' {
        trim_slashes(s.drop_last())
    } else {
        s
    }
}

/// The transcription endpoint for a base URL: trailing slashes removed,
/// then `/audio/transcriptions`.
pub open spec fn endpoint_text(base_url: Seq<char>) -> Seq<char> {
    trim_slashes(base_url) + "/audio/transcriptions"@
}

/// `base_url` without trailing slashes, then `route`.
pub fn endpoint_for(base_url: &str, route: &str) -> (url: String)
    ensures
        url@ == trim_slashes(base_url@) + route@,
{
    let cs = chars_of(base_url);
    let mut e = cs.len();
    assert(cs@.subrange(0, cs@.len() as int) == cs@);
    while e > 0 && cs[e - 1] == '/'
        invariant
            e <= cs@.len(),
            trim_slashes(cs@) == trim_slashes(cs@.subrange(0, e as int)),
        decreases e,
    {
        assert(cs@.subrange(0, e as int).drop_last() == cs@.subrange(0, e - 1));
        e = e - 1;
    }
    proof {
        assert(cs@.subrange(0, cs@.len() as int) == cs@);
    }
    let mut out: Vec<char> = Vec::new();
    push_range(&mut out, &cs, 0, e);
    push_str(&mut out, route);
    string_from_chars(out.as_slice())
}

/// The URL requests are posted to.
pub fn endpoint(base_url: &str) -> (url: String)
    ensures
        url@ == endpoint_text(base_url@),
{
    endpoint_for(base_url, "/audio/transcriptions")
}

/// Statuses worth a retry: 408, 425, 429 and every 5xx.
pub open spec fn transient_status(status: u16) -> bool {
    status == 408 || status == 425 || status == 429 || (500 <= status && status <= 599)
}

/// Whether a non-success HTTP status is transient.
pub fn is_transient_status(status: u16) -> (b: bool)
    ensures
        b == transient_status(status),
{
    status == 408 || status == 425 || status == 429 || (500 <= status && status <= 599)
}

/// Whether the `language` form field is sent: only for an explicit
/// language.
pub fn sends_language(language: &str) -> (b: bool)
    ensures
        b == (language@ != "auto"@),
{
    !crate::text::str_eq(language, "auto")
}

/// Whether the bearer token is sent: only for a nonempty API key.
pub fn sends_api_key(api_key: &str) -> (b: bool)
    ensures
        b == (api_key@.len() > 0),
{
    chars_of(api_key).len() > 0
}


/// What a request that could not be sent becomes: a timeout or a failed
/// connection is worth a retry, anything else is not.
pub fn send_failure<T>(is_timeout: bool, is_connect: bool, message: String) -> (r: RetryOutcome<
    T,
    SttError,
>)
    ensures
        (is_timeout || is_connect) ==> (r matches RetryOutcome::Transient(SttError::Transport(m))
            && m == message),
        !(is_timeout || is_connect) ==> (r matches RetryOutcome::Permanent(SttError::Transport(m))
            && m == message),
{
    if is_timeout || is_connect {
        RetryOutcome::Transient(SttError::Transport(message))
    } else {
        RetryOutcome::Permanent(SttError::Transport(message))
    }
}

/// What a non-success status becomes (see `transient_status`).
pub fn status_failure<T>(status: u16) -> (r: RetryOutcome<T, SttError>)
    ensures
        transient_status(status) ==> (r matches RetryOutcome::Transient(
            SttError::ProviderStatus { status: s },
        ) && s == status),
        !transient_status(status) ==> (r matches RetryOutcome::Permanent(
            SttError::ProviderStatus { status: s },
        ) && s == status),
{
    if is_transient_status(status) {
        RetryOutcome::Transient(SttError::ProviderStatus { status })
    } else {
        RetryOutcome::Permanent(SttError::ProviderStatus { status })
    }
}

/// The transcript of a chunk from the provider's `text` and `language`,
/// placed where the chunk was.
pub fn transcript_from_response(
    text: String,
    language: Option<String>,
    source: FrameSource,
    start_ms: u64,
    duration_ms: u64,
) -> (c: TranscriptChunk)
    ensures
        c.text == text,
        c.language == language,
        c.source == source,
        c.start_ms == start_ms,
        c.duration_ms == duration_ms,
        c.tokens@.len() == 0,
{
    TranscriptChunk { text, source, start_ms, duration_ms, language, tokens: Vec::new() }
}

/// The error a transcription ends with once the retry loop gave up: the
/// permanent error itself, or `RetriesExhausted` after transient ones.
pub fn transcription_error(failure: RetryFailure<SttError>) -> (e: SttError)
    ensures
        failure.permanent ==> e == failure.last_error,
        !failure.permanent ==> e == (SttError::RetriesExhausted { attempts: failure.attempts }),
{
    if failure.permanent {
        failure.last_error
    } else {
        SttError::RetriesExhausted { attempts: failure.attempts }
    }
}

/// The 44-byte header of a mono 16 kHz 16-bit PCM WAV file holding
/// `sample_count` samples (the data length saturates at `u32::MAX`).
pub open spec fn wav_header_bytes(sample_count: nat) -> Seq<u8> {
    let data_len: nat = if sample_count * 2 <= u32::MAX {
        sample_count * 2
    } else {
        u32::MAX as nat
    };
    let chunk_size: nat = if 36 + data_len <= u32::MAX {
        36 + data_len
    } else {
        u32::MAX as nat
    };
    "RIFF"@.map_values(|c: char| c as u8) + le32(chunk_size) + "WAVE"@.map_values(
        |c: char| c as u8,
    ) + "fmt "@.map_values(|c: char| c as u8) + le32(16) + le16(1) + le16(1) + le32(16_000)
        + le32(32_000) + le16(2) + le16(16) + "data"@.map_values(|c: char| c as u8) + le32(
        data_len,
    )
}

/// Little-endian bytes of `v < 2^32`.
pub open spec fn le32(v: nat) -> Seq<u8> {
    seq![
        (v % 256) as u8,
        ((v / 256) % 256) as u8,
        ((v / 65536) % 256) as u8,
        ((v / 16777216) % 256) as u8,
    ]
}

/// Little-endian bytes of `v < 2^16`.
pub open spec fn le16(v: nat) -> Seq<u8> {
    seq![(v % 256) as u8, ((v / 256) % 256) as u8]
}

fn push_le32(out: &mut Vec<u8>, v: u32)
    ensures
        final(out)@ == old(out)@ + le32(v as nat),
{
    out.push((v % 256) as u8);
    out.push(((v / 256) % 256) as u8);
    out.push(((v / 65536) % 256) as u8);
    out.push(((v / 16777216) % 256) as u8);
    assert(final(out)@ =~= old(out)@ + le32(v as nat));
}

fn push_le16(out: &mut Vec<u8>, v: u16)
    ensures
        final(out)@ == old(out)@ + le16(v as nat),
{
    out.push((v % 256) as u8);
    out.push(((v / 256) % 256) as u8);
    assert(final(out)@ =~= old(out)@ + le16(v as nat));
}

fn push_tag(out: &mut Vec<u8>, a: u8, b: u8, c: u8, d: u8)
    ensures
        final(out)@ == old(out)@ + seq![a, b, c, d],
{
    out.push(a);
    out.push(b);
    out.push(c);
    out.push(d);
    assert(final(out)@ =~= old(out)@ + seq![a, b, c, d]);
}

/// The WAV header for `sample_count` samples (see `wav_header_bytes`);
/// the samples follow as little-endian `i16`.
pub fn wav_header(sample_count: usize) -> (h: Vec<u8>)
    ensures
        h@ == wav_header_bytes(sample_count as nat),
        h@.len() == 44,
{
    let data_len: u32 = if sample_count <= 2_147_483_647 {
        (sample_count * 2) as u32
    } else {
        u32::MAX
    };
    let chunk_size: u32 = if data_len <= u32::MAX - 36 {
        data_len + 36
    } else {
        u32::MAX
    };
    let mut out: Vec<u8> = Vec::new();
    push_tag(&mut out, 82, 73, 70, 70);
    push_le32(&mut out, chunk_size);
    push_tag(&mut out, 87, 65, 86, 69);
    push_tag(&mut out, 102, 109, 116, 32);
    push_le32(&mut out, 16);
    push_le16(&mut out, 1);
    push_le16(&mut out, 1);
    push_le32(&mut out, 16_000);
    push_le32(&mut out, 32_000);
    push_le16(&mut out, 2);
    push_le16(&mut out, 16);
    push_tag(&mut out, 100, 97, 116, 97);
    push_le32(&mut out, data_len);
    proof {
        reveal_strlit("RIFF");
        reveal_strlit("WAVE");
        reveal_strlit("fmt ");
        reveal_strlit("data");
        assert("RIFF"@.map_values(|c: char| c as u8) =~= seq![82u8, 73u8, 70u8, 70u8]);
        assert("WAVE"@.map_values(|c: char| c as u8) =~= seq![87u8, 65u8, 86u8, 69u8]);
        assert("fmt "@.map_values(|c: char| c as u8) =~= seq![102u8, 109u8, 116u8, 32u8]);
        assert("data"@.map_values(|c: char| c as u8) =~= seq![100u8, 97u8, 116u8, 97u8]);
        assert(out@ =~= wav_header_bytes(sample_count as nat));
    }
    out
}

} // verus!
