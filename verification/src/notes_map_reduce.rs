//! Capped ordered map-reduce over canonical transcript segments.
//!
//! Every chunk with new segments ends up as exactly one successful map
//! group or one named processing gap, in source order. The reduction
//! request is checked against the input cap before it is sent; when it
//! does not fit, the middle groups are replaced by an explicit marker.

use vstd::prelude::*;

use crate::config::NotesConfig;
use crate::context::MeetingContext;
use crate::error::{ConfigError, LlmError};
use crate::notes::{map_prompt_text, reduce_prompt_text, render_map_prompt, render_reduce_prompt};
use crate::notes_segments::SegmentChunk;
use crate::text::{dec, push_dec, push_str, starts_with, string_from_chars};

verus! {

// ---------------------------------------------------------------------
// Limits
// ---------------------------------------------------------------------

/// What `validate_limits` decides for a token target and input cap.
pub open spec fn limits_ok(target: u32, cap: u32) -> bool {
    0 < cap && 0 < target && target <= cap
}

/// Checks the request bounds: the cap and the target must be positive and
/// the target must not exceed the cap. The first failing check names its
/// key.
pub fn validate_limits(target: u32, cap: u32) -> (r: Result<(), ConfigError>)
    ensures
        cap == 0 ==> (r matches Err(e) && e.is_invalid(
            "notes.input_cap_tokens"@,
            "must be greater than zero"@,
        )),
        cap != 0 && target == 0 ==> (r matches Err(e) && e.is_invalid(
            "notes.target_tokens"@,
            "must be greater than zero"@,
        )),
        cap != 0 && target != 0 && target > cap ==> (r matches Err(e) && e.is_invalid(
            "notes.target_tokens"@,
            "must not exceed notes.input_cap_tokens"@,
        )),
        r is Ok <==> limits_ok(target, cap),
{
    if cap == 0 {
        return Err(ConfigError::invalid("notes.input_cap_tokens", "must be greater than zero"));
    }
    if target == 0 {
        return Err(ConfigError::invalid("notes.target_tokens", "must be greater than zero"));
    }
    if target > cap {
        return Err(
            ConfigError::invalid("notes.target_tokens", "must not exceed notes.input_cap_tokens"),
        );
    }
    Ok(())
}

/// The `tokenizers` crate's tokenizer, carried opaquely.
#[verifier::external_type_specification]
#[verifier::external_body]
pub struct ExTokenizer(tokenizers::Tokenizer);

/// `tokenizers::Tokenizer::from_bytes` may build `r` from the JSON
/// definition `bytes`: the tokenizer, or the parser's message.
pub uninterp spec fn may_build_tokenizer(bytes: Seq<u8>, r: Result<tokenizers::Tokenizer, Seq<char>>) -> bool;

/// `tokenizers::Tokenizer::from_bytes`: builds a tokenizer from its JSON
/// definition, or gives the parser's message. Claims only that the
/// outcome is one these bytes may give; nothing is claimed of the
/// tokenizer itself.
#[verifier::external_body]
fn tokenizer_from_json(bytes: &[u8]) -> (r: Result<tokenizers::Tokenizer, String>)
    ensures
        may_build_tokenizer(
            bytes@,
            match r {
                Ok(t) => Ok(t),
                Err(m) => Err(m@),
            },
        ),
{
    tokenizers::Tokenizer::from_bytes(bytes).map_err(|e| e.to_string())
}

/// Encoding `text` with `tokenizer` (no special tokens) may give `r`:
/// the number of tokens, or the encoder's message. A relation, not a
/// function: a model may draw random numbers while encoding (BPE
/// dropout).
pub uninterp spec fn may_encode_len(tokenizer: tokenizers::Tokenizer, text: Seq<char>, r: Result<nat, Seq<char>>) -> bool;

/// A token count or an encoder failure, as plain values.
pub open spec fn len_outcome(r: Result<usize, String>) -> Result<nat, Seq<char>> {
    match r {
        Ok(n) => Ok(n as nat),
        Err(m) => Err(m@),
    }
}

/// `tokenizers::Tokenizer::encode(text, false)`, then
/// `tokenizers::Encoding::len` of the encoding: the number of tokens, or
/// the encoder's message. Claims only that the outcome is one encoding
/// this text with this tokenizer may give.
#[verifier::external_body]
fn encoded_len(tokenizer: &tokenizers::Tokenizer, text: &str) -> (r: Result<usize, String>)
    ensures
        may_encode_len(
            *tokenizer,
            text@,
            len_outcome(r),
        ),
{
    tokenizer.encode(text, false).map(|e| e.len()).map_err(|e| e.to_string())
}

/// `e` is a tokenizer failure for the file at `path`: an invalid
/// `notes.tokenizer_path` whose reason names the file.
pub open spec fn is_tokenizer_error(e: ConfigError, path: Seq<char>) -> bool {
    e matches ConfigError::Invalid { key, reason } && key@ == "notes.tokenizer_path"@
        && starts_with(reason@, path + ": "@)
}

/// The error a tokenizer file at `path` that could not be read or parsed
/// gives, with the reader's or parser's `message`.
pub fn tokenizer_error(path: &str, message: &str) -> (e: ConfigError)
    ensures
        e.is_invalid("notes.tokenizer_path"@, path@ + ": "@ + message@),
{
    let mut out: Vec<char> = Vec::new();
    push_str(&mut out, path);
    push_str(&mut out, ": ");
    push_str(&mut out, message);
    ConfigError::Invalid {
        key: "notes.tokenizer_path".to_owned(),
        reason: string_from_chars(out.as_slice()),
    }
}

/// The loaded tokenizer and the request limits it enforces.
pub struct NotesRuntime {
    tokenizer: tokenizers::Tokenizer,
    input_cap_tokens: u32,
    target_tokens: u32,
    overlap_segments: u32,
}

/// `r` is what loading the tokenizer at `path` gives, with the given
/// limits: `read_file` is asked for `path`; its failure, or a definition
/// the tokenizer cannot be built from, is an invalid
/// `notes.tokenizer_path` naming the file; otherwise the runtime holds
/// the tokenizer built from the bytes read, and the limits.
pub open spec fn loaded_from<R: FnOnce(&str) -> Result<Vec<u8>, String>>(
    read_file: R,
    path: Seq<char>,
    cap: u32,
    target: u32,
    overlap: u32,
    r: Result<NotesRuntime, ConfigError>,
) -> bool {
    exists|p: &str, read: Result<Vec<u8>, String>|
        p@ == path && #[trigger] read_file.ensures((p,), read) && match read {
            Err(m) => r matches Err(e) && e.is_invalid("notes.tokenizer_path"@, path + ": "@ + m@),
            Ok(bytes) => exists|t: Result<tokenizers::Tokenizer, Seq<char>>|
                #[trigger] may_build_tokenizer(bytes@, t) && match t {
                    Ok(tok) => r matches Ok(rt) && rt.tokenizer_view() == tok && rt.cap_view()
                        == cap && rt.target_view() == target && rt.overlap_view() == overlap,
                    Err(m) => r matches Err(e) && e.is_invalid(
                        "notes.tokenizer_path"@,
                        path + ": "@ + m,
                    ),
                },
        }
}

impl NotesRuntime {
    /// The loaded tokenizer.
    pub closed spec fn tokenizer_view(&self) -> tokenizers::Tokenizer {
        self.tokenizer
    }

    /// `r` is a count of `text` the tokenizer may give: the number of
    /// tokens of an encoding, an error when it does not fit a `u32`, or
    /// the encoder's message, each an invalid `notes.tokenizer_path`.
    pub open spec fn counts(&self, text: Seq<char>, r: Result<u32, ConfigError>) -> bool {
        exists|o: Result<nat, Seq<char>>|
            #[trigger] may_encode_len(self.tokenizer_view(), text, o) && match o {
                Ok(n) => if n <= u32::MAX {
                    r == Ok::<u32, ConfigError>(n as u32)
                } else {
                    r matches Err(e) && e.is_invalid(
                        "notes.tokenizer_path"@,
                        "token count exceeds u32"@,
                    )
                },
                Err(m) => r matches Err(e) && e.is_invalid("notes.tokenizer_path"@, m),
            }
    }

    /// Largest request, in tokens.
    pub closed spec fn cap_view(&self) -> u32 {
        self.input_cap_tokens
    }

    pub closed spec fn target_view(&self) -> u32 {
        self.target_tokens
    }

    pub closed spec fn overlap_view(&self) -> u32 {
        self.overlap_segments
    }

    /// Loads a notes configuration for real LLM requests: the tokenizer
    /// path and the input cap must be set and the limits must pass
    /// `validate_limits`; only then is the tokenizer file read (by
    /// `read_file`) and parsed.
    pub fn load<R: FnOnce(&str) -> Result<Vec<u8>, String>>(config: &NotesConfig, read_file: R) -> (r:
        Result<NotesRuntime, ConfigError>)
        requires
            forall|p: &str| read_file.requires((p,)),
        ensures
            config.tokenizer_path is None ==> (r matches Err(e) && e.is_missing(
                "notes.tokenizer_path"@,
            )),
            config.tokenizer_path is Some && config.input_cap_tokens is None ==> (r matches Err(e)
                && e.is_missing("notes.input_cap_tokens"@)),
            config.tokenizer_path is Some && config.input_cap_tokens is Some ==> {
                let path = config.tokenizer_path->0@;
                let cap = config.input_cap_tokens->0;
                &&& !limits_ok(config.target_tokens, cap) ==> (r matches Err(e) && limits_error(
                    config.target_tokens,
                    cap,
                    e,
                ))
                &&& limits_ok(config.target_tokens, cap) ==> loaded_from(
                    read_file,
                    path,
                    cap,
                    config.target_tokens,
                    config.overlap_segments,
                    r,
                )
                &&& limits_ok(config.target_tokens, cap) ==> match r {
                    Ok(rt) => rt.cap_view() == cap && rt.target_view() == config.target_tokens
                        && rt.overlap_view() == config.overlap_segments,
                    Err(e) => is_tokenizer_error(e, path),
                }
            },
    {
        let path = match &config.tokenizer_path {
            Some(p) => p,
            None => {
                return Err(ConfigError::missing("notes.tokenizer_path"));
            },
        };
        let cap = match config.input_cap_tokens {
            Some(c) => c,
            None => {
                return Err(ConfigError::missing("notes.input_cap_tokens"));
            },
        };
        if let Err(e) = validate_limits(config.target_tokens, cap) {
            return Err(e);
        }
        let p = path.as_str();
        let read = read_file(p);
        let ghost gread = read;
        proof {
            assert(read_file.ensures((p,), gread));
        }
        let bytes = match read {
            Ok(b) => b,
            Err(message) => {
                let e = tokenizer_error(p, message.as_str());
                proof {
                    let pre = path@ + ": "@;
                    assert((pre + message@).subrange(0, pre.len() as int) =~= pre);
                }
                return Err(e);
            },
        };
        let built = tokenizer_from_json(bytes.as_slice());
        let ghost gbuilt = built;
        proof {
            let t = match gbuilt {
                Ok(t) => Ok(t),
                Err(m) => Err(m@),
            };
            assert(may_build_tokenizer(bytes@, t));
        }
        match built {
            Ok(tokenizer) => Ok(
                NotesRuntime {
                    tokenizer,
                    input_cap_tokens: cap,
                    target_tokens: config.target_tokens,
                    overlap_segments: config.overlap_segments,
                },
            ),
            Err(message) => {
                let e = tokenizer_error(p, message.as_str());
                proof {
                    let pre = path@ + ": "@;
                    assert((pre + message@).subrange(0, pre.len() as int) =~= pre);
                }
                Err(e)
            },
        }
    }

    /// The number of tokens the loaded tokenizer splits `text` into; a
    /// failing encoder, or a count beyond `u32`, is an invalid
    /// `notes.tokenizer_path`.
    pub fn count_tokens(&self, text: &str) -> (r: Result<u32, ConfigError>)
        ensures
            self.counts(text@, r),
            r matches Err(e) ==> e matches ConfigError::Invalid { key, .. } && key@
                == "notes.tokenizer_path"@,
    {
        let encoded = encoded_len(&self.tokenizer, text);
        let ghost o = len_outcome(encoded);
        let result = match encoded {
            Ok(n) => token_count(n),
            Err(message) => Err(ConfigError::invalid("notes.tokenizer_path", message.as_str())),
        };
        proof {
            assert(may_encode_len(self.tokenizer_view(), text@, o));
        }
        result
    }

    /// Whether a prompt whose token count the tokenizer reported fits the
    /// input cap; a tokenizer failure is passed on.
    pub fn fits_cap(&self, token_count: Result<u32, ConfigError>) -> (r: Result<bool, ConfigError>)
        ensures
            match token_count {
                Ok(n) => r == Ok::<bool, ConfigError>(n <= self.cap_view()),
                Err(e) => r == Err::<bool, ConfigError>(e),
            },
    {
        match token_count {
            Ok(n) => Ok(n <= self.input_cap_tokens),
            Err(e) => Err(e),
        }
    }

    /// Whether a fully rendered request fits the input cap, counted with
    /// the loaded tokenizer (see `fits_cap`).
    pub fn prompt_fits(&self, prompt: &str) -> (r: Result<bool, ConfigError>)
        ensures
            exists|c: Result<u32, ConfigError>|
                #[trigger] self.counts(prompt@, c) && match c {
                    Ok(n) => r == Ok::<bool, ConfigError>(n <= self.cap_view()),
                    Err(e) => r == Err::<bool, ConfigError>(e),
                },
            r matches Err(e) ==> e matches ConfigError::Invalid { key, .. } && key@
                == "notes.tokenizer_path"@,
    {
        let count = self.count_tokens(prompt);
        self.fits_cap(count)
    }

    /// Preferred token target for packing new transcript segments.
    pub fn target_tokens(&self) -> (t: u32)
        ensures
            t == self.target_view(),
    {
        self.target_tokens
    }

    /// Whole trailing source segments repeated for map context.
    pub fn overlap_segments(&self) -> (n: u32)
        ensures
            n == self.overlap_view(),
    {
        self.overlap_segments
    }
}

/// `e` is the error `validate_limits` reports for these limits.
pub open spec fn limits_error(target: u32, cap: u32, e: ConfigError) -> bool {
    if cap == 0 {
        e.is_invalid("notes.input_cap_tokens"@, "must be greater than zero"@)
    } else if target == 0 {
        e.is_invalid("notes.target_tokens"@, "must be greater than zero"@)
    } else {
        e.is_invalid("notes.target_tokens"@, "must not exceed notes.input_cap_tokens"@)
    }
}

/// Token count reported for an encoding of `len` tokens: an error when
/// the count does not fit a `u32`.
pub fn token_count(len: usize) -> (r: Result<u32, ConfigError>)
    ensures
        len <= u32::MAX ==> r == Ok::<u32, ConfigError>(len as u32),
        len > u32::MAX ==> (r matches Err(e) && e.is_invalid(
            "notes.tokenizer_path"@,
            "token count exceeds u32"@,
        )),
{
    if len <= 0xffff_ffffusize {
        Ok(len as u32)
    } else {
        Err(ConfigError::invalid("notes.tokenizer_path", "token count exceeds u32"))
    }
}

// ---------------------------------------------------------------------
// Map groups and processing gaps
// ---------------------------------------------------------------------

/// A map unit that completed successfully.
#[derive(Clone, Debug, PartialEq, Eq)]
pub struct MapGroup {
    /// First canonical segment ordinal represented by this unit.
    pub start_ordinal: usize,
    /// Last canonical segment ordinal represented by this unit.
    pub end_ordinal: usize,
    /// Factual bullets returned by the map request.
    pub bullets: String,
}

/// Deterministic source coverage information outside model control.
#[derive(Clone, Debug, PartialEq, Eq)]
pub struct ProcessingGap {
    /// First canonical segment ordinal not represented by a successful map.
    pub start_ordinal: usize,
    /// Last canonical segment ordinal not represented by a successful map.
    pub end_ordinal: usize,
    /// Stable sanitized failure classification.
    pub reason: &'static str,
}

/// Successful groups, named map gaps, and the final reduction output.
#[derive(Clone, Debug, PartialEq, Eq)]
pub struct MapReduceOutput {
    /// Successful map outputs in source order.
    pub groups: Vec<MapGroup>,
    /// Named map failures in source order.
    pub gaps: Vec<ProcessingGap>,
    /// Structured notes from the final reduction request.
    pub reduced_notes: String,
}

/// The stable class name of an LLM failure.
pub open spec fn error_class_text(e: LlmError) -> Seq<char> {
    match e {
        LlmError::ProviderStatus { .. } => "provider-status"@,
        LlmError::RetriesExhausted { .. } => "retries-exhausted"@,
        LlmError::PromptRendering(_) => "prompt-rendering"@,
        LlmError::Transport(_) => "transport"@,
    }
}

/// Classifies an LLM failure for a processing gap.
pub fn error_class(error: &LlmError) -> (s: &'static str)
    ensures
        s@ == error_class_text(*error),
{
    match error {
        LlmError::ProviderStatus { .. } => "provider-status",
        LlmError::RetriesExhausted { .. } => "retries-exhausted",
        LlmError::PromptRendering(_) => "prompt-rendering",
        LlmError::Transport(_) => "transport",
    }
}

/// The first and last ordinal of a chunk's new segments.
pub open spec fn chunk_span(chunk: SegmentChunk) -> (usize, usize) {
    (chunk.segments@[0].ordinal, chunk.segments@.last().ordinal)
}

/// Map groups and gaps gathered so far, in source order.
pub struct MapProgress {
    pub groups: Vec<MapGroup>,
    pub gaps: Vec<ProcessingGap>,
}

impl MapProgress {
    /// No chunk mapped yet.
    pub fn new() -> (p: MapProgress)
        ensures
            p.groups@.len() == 0,
            p.gaps@.len() == 0,
    {
        MapProgress { groups: Vec::new(), gaps: Vec::new() }
    }

    /// The map request for a chunk; `None` for a chunk without new
    /// segments, which is skipped.
    pub fn map_request(chunk: &SegmentChunk) -> (r: Option<String>)
        ensures
            chunk.segments@.len() == 0 ==> r is None,
            chunk.segments@.len() > 0 ==> (r matches Some(p) && p@ == map_prompt_text(
                chunk.overlap@,
                chunk.segments@,
            )),
    {
        if chunk.segments.len() == 0 {
            None
        } else {
            Some(render_map_prompt(chunk.overlap.as_slice(), chunk.segments.as_slice()))
        }
    }

    /// Records a chunk whose map request is over the input cap: it is
    /// never sent and becomes an `input-cap-exceeded` gap.
    pub fn record_over_cap(&mut self, chunk: &SegmentChunk)
        requires
            chunk.segments@.len() > 0,
        ensures
            final(self).groups@ == old(self).groups@,
            final(self).gaps@.len() == old(self).gaps@.len() + 1,
            final(self).gaps@.drop_last() == old(self).gaps@,
            final(self).gaps@.last().start_ordinal == chunk_span(*chunk).0,
            final(self).gaps@.last().end_ordinal == chunk_span(*chunk).1,
            final(self).gaps@.last().reason@ == "input-cap-exceeded"@,
    {
        let first = chunk.segments[0].ordinal;
        let last = chunk.segments[chunk.segments.len() - 1].ordinal;
        self.gaps.push(
            ProcessingGap { start_ordinal: first, end_ordinal: last, reason: "input-cap-exceeded" },
        );
        assert(self.gaps@.drop_last() =~= old(self).gaps@);
    }

    /// Records the provider's answer to a chunk's map request: bullets
    /// become a group, a failure becomes a gap named by its class.
    pub fn record_response(&mut self, chunk: &SegmentChunk, result: Result<String, LlmError>)
        requires
            chunk.segments@.len() > 0,
        ensures
            match result {
                Ok(bullets) => {
                    &&& final(self).gaps@ == old(self).gaps@
                    &&& final(self).groups@ == old(self).groups@.push(
                        MapGroup {
                            start_ordinal: chunk_span(*chunk).0,
                            end_ordinal: chunk_span(*chunk).1,
                            bullets,
                        },
                    )
                },
                Err(e) => {
                    &&& final(self).groups@ == old(self).groups@
                    &&& final(self).gaps@.len() == old(self).gaps@.len() + 1
                    &&& final(self).gaps@.drop_last() == old(self).gaps@
                    &&& final(self).gaps@.last().start_ordinal == chunk_span(*chunk).0
                    &&& final(self).gaps@.last().end_ordinal == chunk_span(*chunk).1
                    &&& final(self).gaps@.last().reason@ == error_class_text(e)
                },
            },
    {
        let first = chunk.segments[0].ordinal;
        let last = chunk.segments[chunk.segments.len() - 1].ordinal;
        match result {
            Ok(bullets) => {
                self.groups.push(MapGroup { start_ordinal: first, end_ordinal: last, bullets });
            },
            Err(e) => {
                let reason = error_class(&e);
                self.gaps.push(ProcessingGap { start_ordinal: first, end_ordinal: last, reason });
                assert(self.gaps@.drop_last() =~= old(self).gaps@);
            },
        }
    }
}

// ---------------------------------------------------------------------
// Reduction under the input cap
// ---------------------------------------------------------------------

/// The bullets of the group that stands for the omitted middle groups.
pub open spec fn omitted_marker() -> Seq<char> {
    "[OMITTED MIDDLE MAP GROUPS DUE TO INPUT CAP]"@
}

/// `c` holds the first group, the omitted-middle marker (ordinals 0,
/// which the reduce prompt shows without a segment range), and the last
/// group.
pub open spec fn is_compact_of(c: Seq<MapGroup>, groups: Seq<MapGroup>) -> bool {
    &&& c.len() == 3
    &&& c[0] == groups[0]
    &&& c[1].start_ordinal == 0
    &&& c[1].end_ordinal == 0
    &&& c[1].bullets@ == omitted_marker()
    &&& c[2] == groups.last()
}

/// `fits` can report `v` for a string holding `text`.
pub open spec fn fit_reported<F: Fn(&str) -> Result<bool, ConfigError>>(
    fits: F,
    text: Seq<char>,
    v: Result<bool, ConfigError>,
) -> bool {
    exists|s: &str| s@ == text && fits.ensures((s,), v)
}

fn copy_group(g: &MapGroup) -> (r: MapGroup)
    ensures
        r == *g,
{
    MapGroup { start_ordinal: g.start_ordinal, end_ordinal: g.end_ordinal, bullets: g.bullets.clone() }
}

/// What the reduction step may return once the input-cap check has
/// answered: the full prompt when it fits; otherwise, with at least three
/// groups, the compacted prompt when that fits; otherwise the error.
pub open spec fn reduce_outcome<F: Fn(&str) -> Result<bool, ConfigError>>(
    fits: F,
    groups: Seq<MapGroup>,
    gaps: Seq<ProcessingGap>,
    context: MeetingContext,
    r: Result<(String, Vec<MapGroup>), ConfigError>,
) -> bool {
    let full = reduce_prompt_text(groups, gaps, context);
    match r {
        Ok((p, gs)) => {
            ||| (fit_reported(fits, full, Ok(true)) && p@ == full && gs@ == groups)
            ||| (groups.len() >= 3 && fit_reported(fits, full, Ok(false)) && is_compact_of(
                gs@,
                groups,
            ) && p@ == reduce_prompt_text(gs@, gaps, context) && fit_reported(fits, p@, Ok(true)))
        },
        Err(e) => {
            ||| fit_reported(fits, full, Err(e))
            ||| (groups.len() < 3 && fit_reported(fits, full, Ok(false)) && e.is_invalid(
                "notes.input_cap_tokens"@,
                "cannot fit the reduction prompt without dropping required content"@,
            ))
            ||| (groups.len() >= 3 && fit_reported(fits, full, Ok(false)) && exists|
                c: Seq<MapGroup>,
            |
                is_compact_of(c, groups) && {
                    let compact = reduce_prompt_text(c, gaps, context);
                    ||| fit_reported(fits, compact, Err(e))
                    ||| (fit_reported(fits, compact, Ok(false)) && e.is_invalid(
                        "notes.input_cap_tokens"@,
                        "cannot fit required reduction scaffolding, gaps, and omitted-middle marker"@,
                    ))
                })
        },
    }
}

/// Renders the reduction request and checks it against the input cap.
/// When it does not fit and there are at least three groups, the middle
/// groups are replaced by an explicit omitted-middle marker and the
/// compacted request is checked again. Required content (gaps, first and
/// last group) is never dropped: when even that does not fit, the result
/// is a configuration error.
pub fn capped_reduce_prompt<F>(
    groups: Vec<MapGroup>,
    gaps: &[ProcessingGap],
    context: &MeetingContext,
    prompt_fits: F,
) -> (r: Result<(String, Vec<MapGroup>), ConfigError>) where F: Fn(&str) -> Result<bool, ConfigError>
    requires
        forall|s: &str| prompt_fits.requires((s,)),
    ensures
        reduce_outcome(prompt_fits, groups@, gaps@, *context, r),
{
    let ghost full = reduce_prompt_text(groups@, gaps@, *context);
    let prompt = render_reduce_prompt(groups.as_slice(), gaps, context);
    let ps = prompt.as_str();
    let fits = prompt_fits(ps);
    assert(fit_reported(prompt_fits, full, fits)) by {
        assert(ps@ == full);
    }
    match fits {
        Err(e) => {
            return Err(e);
        },
        Ok(true) => {
            return Ok((prompt, groups));
        },
        Ok(false) => {},
    }
    if groups.len() < 3 {
        return Err(
            ConfigError::invalid(
                "notes.input_cap_tokens",
                "cannot fit the reduction prompt without dropping required content",
            ),
        );
    }
    let mut compact: Vec<MapGroup> = Vec::new();
    compact.push(copy_group(&groups[0]));
    compact.push(
        MapGroup {
            start_ordinal: 0,
            end_ordinal: 0,
            bullets: "[OMITTED MIDDLE MAP GROUPS DUE TO INPUT CAP]".to_owned(),
        },
    );
    compact.push(copy_group(&groups[groups.len() - 1]));
    assert(is_compact_of(compact@, groups@));
    let prompt = render_reduce_prompt(compact.as_slice(), gaps, context);
    let ps = prompt.as_str();
    let fits = prompt_fits(ps);
    let ghost compact_text = reduce_prompt_text(compact@, gaps@, *context);
    assert(fit_reported(prompt_fits, compact_text, fits)) by {
        assert(ps@ == compact_text);
    }
    match fits {
        Err(e) => Err(e),
        Ok(true) => Ok((prompt, compact)),
        Ok(false) => Err(
            ConfigError::invalid(
                "notes.input_cap_tokens",
                "cannot fit required reduction scaffolding, gaps, and omitted-middle marker",
            ),
        ),
    }
}

// ---------------------------------------------------------------------
// Processing gaps in notes.md
// ---------------------------------------------------------------------

/// One rendered gap line.
pub open spec fn gap_entry_text(g: ProcessingGap) -> Seq<char> {
    if g.start_ordinal == g.end_ordinal {
        "- Transcript segment "@ + dec(g.start_ordinal as nat) + " ("@ + g.reason@ + ")\n"@
    } else {
        "- Transcript segments "@ + dec(g.start_ordinal as nat) + "–"@ + dec(
            g.end_ordinal as nat,
        ) + " ("@ + g.reason@ + ")\n"@
    }
}

/// The rendered gap lines of `gs`.
pub open spec fn gap_entries_text(gs: Seq<ProcessingGap>) -> Seq<char>
    decreases gs.len(),
{
    if gs.len() == 0 {
        Seq::empty()
    } else {
        gap_entries_text(gs.drop_last()) + gap_entry_text(gs.last())
    }
}

/// The processing-gaps section: empty without gaps, otherwise a heading
/// and one line per gap.
pub open spec fn processing_gaps_text(gs: Seq<ProcessingGap>) -> Seq<char> {
    if gs.len() == 0 {
        Seq::empty()
    } else {
        "## Processing gaps\n"@ + gap_entries_text(gs)
    }
}

/// Renders the named gaps outside the model response for durable
/// visibility. The result is empty exactly when there are no gaps.
pub fn render_processing_gaps(gaps: &[ProcessingGap]) -> (out: String)
    ensures
        out@ == processing_gaps_text(gaps@),
        out@.len() == 0 <==> gaps@.len() == 0,
{
    if gaps.len() == 0 {
        return String::new();
    }
    let mut out: Vec<char> = Vec::new();
    push_str(&mut out, "## Processing gaps\n");
    let ghost head = out@;
    let mut i: usize = 0;
    while i < gaps.len()
        invariant
            i <= gaps@.len(),
            out@ == head + gap_entries_text(gaps@.take(i as int)),
        decreases gaps@.len() - i,
    {
        let g = &gaps[i];
        if g.start_ordinal == g.end_ordinal {
            push_str(&mut out, "- Transcript segment ");
            push_dec(&mut out, g.start_ordinal as u64);
        } else {
            push_str(&mut out, "- Transcript segments ");
            push_dec(&mut out, g.start_ordinal as u64);
            push_str(&mut out, "–");
            push_dec(&mut out, g.end_ordinal as u64);
        }
        push_str(&mut out, " (");
        push_str(&mut out, g.reason);
        push_str(&mut out, ")\n");
        proof {
            assert(gaps@.take(i + 1).drop_last() == gaps@.take(i as int));
            assert(gaps@.take(i + 1).last() == *g);
            assert(out@ =~= head + gap_entries_text(gaps@.take(i + 1)));
        }
        i = i + 1;
    }
    assert(gaps@.take(gaps@.len() as int) == gaps@);
    proof {
        reveal_strlit("## Processing gaps\n");
    }
    string_from_chars(out.as_slice())
}

} // verus!
