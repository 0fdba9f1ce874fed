use scrybe_core::config::NotesConfig;
use scrybe_core::context::MeetingContext;
use scrybe_core::error::{ConfigError, LlmError};
use scrybe_core::notes_map_reduce::{
    capped_reduce_prompt, error_class, render_processing_gaps, token_count, validate_limits,
    MapGroup, MapProgress, NotesRuntime, ProcessingGap,
};
use scrybe_core::notes_segments::{SegmentChunk, TranscriptSegment};

fn segment(ordinal: usize, text: &str) -> TranscriptSegment {
    TranscriptSegment { ordinal, speaker: "Me".to_string(), start_ms: 0, text: text.to_string() }
}

fn invalid(key: &str, reason: &str) -> ConfigError {
    ConfigError::Invalid { key: key.to_string(), reason: reason.to_string() }
}

#[test]
fn map_failure_is_visible_and_later_chunk_still_reduces() {
    let first = segment(1, "first");
    let second = segment(2, "second");
    let chunks = [
        SegmentChunk { segments: vec![&first], overlap: vec![] },
        SegmentChunk { segments: vec![&second], overlap: vec![] },
    ];
    let mut progress = MapProgress::new();
    let answers = [Err(LlmError::ProviderStatus { status: 503 }), Ok("- second fact".to_string())];
    for (chunk, answer) in chunks.iter().zip(answers) {
        assert!(MapProgress::map_request(chunk).is_some());
        progress.record_response(chunk, answer);
    }

    assert_eq!(progress.groups.len(), 1);
    assert_eq!(progress.groups[0].start_ordinal, 2);
    assert_eq!(progress.gaps, vec![ProcessingGap { start_ordinal: 1, end_ordinal: 1, reason: "provider-status" }]);
    assert!(render_processing_gaps(&progress.gaps).contains("segment 1 (provider-status)"));
}

#[test]
fn over_cap_map_prompt_is_never_dispatched_and_becomes_gap() {
    let only = segment(1, "too large");
    let chunk = SegmentChunk { segments: vec![&only], overlap: vec![] };
    let mut progress = MapProgress::new();
    let prompt = MapProgress::map_request(&chunk).unwrap();
    assert!(prompt.contains("TRANSCRIPT SEGMENTS (new coverage)"));
    progress.record_over_cap(&chunk);

    assert!(progress.groups.is_empty());
    assert_eq!(progress.gaps[0].reason, "input-cap-exceeded");
    assert!(render_processing_gaps(&progress.gaps).contains("input-cap-exceeded"));
}

#[test]
fn empty_chunks_are_skipped() {
    let chunk = SegmentChunk { segments: vec![], overlap: vec![] };
    assert!(MapProgress::map_request(&chunk).is_none());
}

#[test]
fn processing_gaps_render_single_and_ranges() {
    assert_eq!(render_processing_gaps(&[]), "");
    let gaps = [
        ProcessingGap { start_ordinal: 3, end_ordinal: 3, reason: "transport" },
        ProcessingGap { start_ordinal: 5, end_ordinal: 9, reason: "retries-exhausted" },
    ];
    assert_eq!(
        render_processing_gaps(&gaps),
        "## Processing gaps\n- Transcript segment 3 (transport)\n- Transcript segments 5–9 (retries-exhausted)\n"
    );
}

#[test]
fn llm_errors_are_classified() {
    assert_eq!(error_class(&LlmError::ProviderStatus { status: 500 }), "provider-status");
    assert_eq!(error_class(&LlmError::RetriesExhausted { attempts: 3 }), "retries-exhausted");
    assert_eq!(error_class(&LlmError::PromptRendering("x".into())), "prompt-rendering");
    assert_eq!(error_class(&LlmError::Transport("x".into())), "transport");
}

#[test]
fn limits_are_validated_in_order() {
    assert_eq!(validate_limits(10, 0), Err(invalid("notes.input_cap_tokens", "must be greater than zero")));
    assert_eq!(validate_limits(0, 10), Err(invalid("notes.target_tokens", "must be greater than zero")));
    assert_eq!(
        validate_limits(11, 10),
        Err(invalid("notes.target_tokens", "must not exceed notes.input_cap_tokens"))
    );
    assert!(validate_limits(10, 10).is_ok());
}

const WORD_TOKENIZER: &str = r#"{
  "version": "1.0",
  "truncation": null,
  "padding": null,
  "added_tokens": [],
  "normalizer": null,
  "pre_tokenizer": {"type": "Whitespace"},
  "post_processor": null,
  "decoder": null,
  "model": {"type": "WordLevel", "vocab": {"[UNK]": 0, "hello": 1, "world": 2}, "unk_token": "[UNK]"}
}"#;

fn read_word_tokenizer(_path: &str) -> Result<Vec<u8>, String> {
    Ok(WORD_TOKENIZER.as_bytes().to_vec())
}

#[test]
fn runtime_load_requires_path_and_cap() {
    let base = NotesConfig { tokenizer_path: None, input_cap_tokens: Some(100), target_tokens: 50, overlap_segments: 1 };
    assert_eq!(
        NotesRuntime::load(&base, read_word_tokenizer).err(),
        Some(ConfigError::Missing { key: "notes.tokenizer_path".to_string() })
    );
    let no_cap = NotesConfig { tokenizer_path: Some("/t.json".into()), input_cap_tokens: None, ..base.clone() };
    assert_eq!(
        NotesRuntime::load(&no_cap, read_word_tokenizer).err(),
        Some(ConfigError::Missing { key: "notes.input_cap_tokens".to_string() })
    );
    let over = NotesConfig { tokenizer_path: Some("/t.json".into()), target_tokens: 101, ..base.clone() };
    assert_eq!(
        NotesRuntime::load(&over, |_: &str| -> Result<Vec<u8>, String> { panic!("limits are checked before the file is read") }).err(),
        Some(invalid("notes.target_tokens", "must not exceed notes.input_cap_tokens"))
    );
    let ok = NotesConfig { tokenizer_path: Some("/t.json".into()), ..base };
    let rt = NotesRuntime::load(&ok, read_word_tokenizer).unwrap();
    assert_eq!(rt.target_tokens(), 50);
    assert_eq!(rt.overlap_segments(), 1);
    assert_eq!(rt.fits_cap(Ok(100)), Ok(true));
    assert_eq!(rt.fits_cap(Ok(101)), Ok(false));
    assert_eq!(token_count(7), Ok(7));
}

#[test]
fn runtime_counts_tokens_with_the_loaded_tokenizer() {
    let cfg = NotesConfig { tokenizer_path: Some("/t.json".into()), input_cap_tokens: Some(3), target_tokens: 2, overlap_segments: 0 };
    let rt = NotesRuntime::load(&cfg, read_word_tokenizer).unwrap();
    assert_eq!(rt.count_tokens("hello world again"), Ok(3));
    assert_eq!(rt.count_tokens(""), Ok(0));
    assert_eq!(rt.prompt_fits("hello world"), Ok(true));
    assert_eq!(rt.prompt_fits("hello world hello world"), Ok(false));
}

#[test]
fn runtime_load_reports_unreadable_and_malformed_tokenizer_files() {
    let cfg = NotesConfig { tokenizer_path: Some("/t.json".into()), input_cap_tokens: Some(10), target_tokens: 5, overlap_segments: 0 };
    let missing = NotesRuntime::load(&cfg, |_: &str| -> Result<Vec<u8>, String> { Err("No such file or directory (os error 2)".into()) });
    assert_eq!(
        missing.err(),
        Some(invalid("notes.tokenizer_path", "/t.json: No such file or directory (os error 2)"))
    );
    let malformed = NotesRuntime::load(&cfg, |_: &str| -> Result<Vec<u8>, String> { Ok(b"{not json".to_vec()) });
    match malformed.err() {
        Some(ConfigError::Invalid { key, reason }) => {
            assert_eq!(key, "notes.tokenizer_path");
            assert!(reason.starts_with("/t.json: "), "reason should name the file: {reason}");
        }
        other => panic!("expected Invalid, got {other:?}"),
    }
}

fn group(start: usize, bullets: &str) -> MapGroup {
    MapGroup { start_ordinal: start, end_ordinal: start, bullets: bullets.to_string() }
}

#[test]
fn reduce_prompt_compacts_middle_groups_when_over_cap() {
    let groups = vec![group(1, "a"), group(2, "b"), group(3, "c"), group(4, "d")];
    let fits = |p: &str| Ok(!p.contains("- b") && !p.contains("\nb\n"));
    let (prompt, kept) = capped_reduce_prompt(groups, &[], &MeetingContext::default(), fits).unwrap();
    assert_eq!(kept.len(), 3);
    assert_eq!(kept[1].bullets, "[OMITTED MIDDLE MAP GROUPS DUE TO INPUT CAP]");
    assert_eq!(kept[0].start_ordinal, 1);
    assert_eq!(kept[2].start_ordinal, 4);
    assert!(prompt.contains("[OMITTED MIDDLE MAP GROUPS DUE TO INPUT CAP]"));
}

#[test]
fn reduce_prompt_errors_when_required_content_cannot_fit() {
    let two = vec![group(1, "a"), group(2, "b")];
    assert_eq!(
        capped_reduce_prompt(two, &[], &MeetingContext::default(), |_| Ok(false)).err(),
        Some(invalid("notes.input_cap_tokens", "cannot fit the reduction prompt without dropping required content"))
    );
    let three = vec![group(1, "a"), group(2, "b"), group(3, "c")];
    assert_eq!(
        capped_reduce_prompt(three, &[], &MeetingContext::default(), |_| Ok(false)).err(),
        Some(invalid(
            "notes.input_cap_tokens",
            "cannot fit required reduction scaffolding, gaps, and omitted-middle marker"
        ))
    );
    let full = vec![group(1, "a")];
    let (_, kept) = capped_reduce_prompt(full, &[], &MeetingContext::default(), |_| Ok(true)).unwrap();
    assert_eq!(kept.len(), 1);
}

#[test]
fn runtime_load_reads_the_configured_tokenizer_path() {
    let cfg = NotesConfig { tokenizer_path: Some("/models/tok.json".into()), input_cap_tokens: Some(10), target_tokens: 5, overlap_segments: 0 };
    let rt = NotesRuntime::load(&cfg, |path: &str| -> Result<Vec<u8>, String> {
        if path == "/models/tok.json" {
            Ok(WORD_TOKENIZER.as_bytes().to_vec())
        } else {
            Err(format!("unexpected path {path}"))
        }
    })
    .unwrap();
    assert_eq!(rt.count_tokens("hello hello world"), Ok(3));
    assert_eq!(rt.prompt_fits("hello"), Ok(true));
}
