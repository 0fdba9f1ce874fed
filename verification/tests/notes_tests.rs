use scrybe_core::context::MeetingContext;
use scrybe_core::error::ConfigError;
use scrybe_core::notes::{
    clean_generated_title, format_hms_ms, render_map_prompt, render_notes_body,
    render_notes_body_with_gaps, render_notes_prompt, render_reduce_prompt, render_title_prompt,
    render_transcript_header, render_transcript_line, validate_template, DEFAULT_TEMPLATE,
    MAX_UTC_MILLIS, MIN_UTC_MILLIS,
};
use scrybe_core::notes_map_reduce::{MapGroup, ProcessingGap};
use scrybe_core::notes_segments::TranscriptSegment;
use scrybe_core::types::{AttributedChunk, FrameSource, SpeakerLabel, TranscriptChunk};
use chrono::{DateTime, Utc};

const APR_29_1430: i64 = 1_777_473_000_000;
const APR_29_0900: i64 = 1_777_453_200_000;
const APR_29_0915: i64 = 1_777_454_100_000;

fn chunk(text: &str, source: FrameSource, start_ms: u64, duration_ms: u64) -> TranscriptChunk {
    TranscriptChunk {
        text: text.into(),
        source,
        start_ms,
        duration_ms,
        language: None,
        tokens: Vec::new(),
    }
}

#[test]
fn test_render_transcript_header_includes_title_and_started_at() {
    let header = render_transcript_header(Some("Acme discovery"), APR_29_1430, None);

    assert!(header.starts_with("# Acme discovery\n"));
    assert!(header.contains("2026-04-29 14:30"));
}

#[test]
fn test_render_transcript_header_includes_ended_at_when_provided() {
    let header = render_transcript_header(Some("Standup"), APR_29_0900, Some(APR_29_0915));

    assert!(header.contains("2026-04-29 09:00 — 09:15"));
}

#[test]
fn test_render_transcript_header_uses_untitled_default_when_title_missing() {
    let header = render_transcript_header(None, APR_29_1430, None);

    assert!(header.contains("Untitled session"));
}

#[test]
fn transcript_header_is_exact() {
    assert_eq!(
        render_transcript_header(Some("Standup"), APR_29_0900, Some(APR_29_0915)),
        "# Standup\n*2026-04-29 09:00 — 09:15*\n\n"
    );
}

#[test]
fn chrono_accepts_exactly_the_documented_millisecond_range() {
    assert!(DateTime::from_timestamp_millis(MIN_UTC_MILLIS).is_some());
    assert!(DateTime::from_timestamp_millis(MAX_UTC_MILLIS).is_some());
    assert!(DateTime::from_timestamp_millis(MIN_UTC_MILLIS - 1).is_none());
    assert!(DateTime::from_timestamp_millis(MAX_UTC_MILLIS + 1).is_none());
    assert_eq!(DateTime::<Utc>::MIN_UTC.timestamp_millis(), MIN_UTC_MILLIS);
    assert_eq!(DateTime::<Utc>::MAX_UTC.timestamp_millis(), MAX_UTC_MILLIS);
    assert!(DateTime::from_timestamp_millis(-8_334_601_315_200_000).is_none());
}

#[test]
fn test_clean_generated_title_strips_markdown_and_quotes() {
    let title = clean_generated_title("## \"Local Validation Setup\"\nextra").unwrap();

    assert_eq!(title, "Local Validation Setup");
}

#[test]
fn test_clean_generated_title_rejects_empty_punctuation() {
    assert_eq!(clean_generated_title(" --- "), None);
}

#[test]
fn clean_generated_title_collapses_whitespace_and_clips() {
    assert_eq!(clean_generated_title("\n\n  a   b\tc  \n"), Some("a b c".to_string()));
    let long = "x".repeat(100);
    assert_eq!(clean_generated_title(&long).unwrap().chars().count(), 80);
    assert_eq!(clean_generated_title(""), None);
}

#[test]
fn test_render_transcript_line_for_me_speaker_starts_with_me_label() {
    let chunk = AttributedChunk { chunk: chunk("Hi.", FrameSource::Mic, 3_000, 500), speaker: SpeakerLabel::Me };

    let line = render_transcript_line(&chunk);

    assert_eq!(line, "**Me** [00:00:03]: Hi.\n");
}

#[test]
fn test_render_transcript_line_for_them_speaker_starts_with_them_label() {
    let chunk =
        AttributedChunk { chunk: chunk("Sure.", FrameSource::System, 65_000, 500), speaker: SpeakerLabel::Them };

    let line = render_transcript_line(&chunk);

    assert_eq!(line, "**Them** [00:01:05]: Sure.\n");
}

#[test]
fn render_transcript_line_shows_diarized_display_name() {
    let chunk = AttributedChunk {
        chunk: chunk("Hi.", FrameSource::System, 0, 500),
        speaker: SpeakerLabel::Named("Alex".to_string()),
    };

    let line = render_transcript_line(&chunk);

    assert_eq!(line, "**Alex** [00:00:00]: Hi.\n");
}

#[test]
fn test_render_transcript_line_trims_inner_whitespace_from_text() {
    let chunk =
        AttributedChunk { chunk: chunk("  hi there  ", FrameSource::Mic, 0, 1_000), speaker: SpeakerLabel::Me };

    let line = render_transcript_line(&chunk);

    assert!(line.contains("hi there"));
    assert!(!line.contains("  hi"));
}

#[test]
fn hms_rendering_handles_long_sessions() {
    assert_eq!(format_hms_ms(0), "00:00:00");
    assert_eq!(format_hms_ms(3_599_999), "00:59:59");
    assert_eq!(format_hms_ms(360_000_000), "100:00:00");
}

#[test]
fn test_render_notes_prompt_includes_transcript_between_markers() {
    let transcript = "**Me** [00:00:01]: Hi.\n";
    let ctx = MeetingContext::default();

    let prompt = render_notes_prompt(transcript, &ctx);

    assert!(prompt.contains("--- TRANSCRIPT ---"));
    assert!(prompt.contains(transcript));
    assert!(prompt.contains("--- END TRANSCRIPT ---"));
}

#[test]
fn test_render_notes_prompt_includes_meeting_context_when_populated() {
    let ctx = MeetingContext {
        title: Some("Acme discovery".into()),
        attendees: vec!["Tom".into(), "Alex".into()],
        agenda: Some("Walk proposal".into()),
        ..MeetingContext::default()
    };

    let prompt = render_notes_prompt("transcript", &ctx);

    assert!(prompt.contains("Meeting title: Acme discovery"));
    assert!(prompt.contains("Attendees: Tom, Alex"));
    assert!(prompt.contains("Agenda: Walk proposal"));
}

#[test]
fn test_render_notes_prompt_omits_context_lines_for_default_meeting_context() {
    let prompt = render_notes_prompt("transcript", &MeetingContext::default());

    assert!(!prompt.contains("Meeting title:"));
    assert!(!prompt.contains("Attendees:"));
    assert!(!prompt.contains("Agenda:"));
}

#[test]
fn notes_prompt_adds_missing_final_newline_once() {
    let a = render_notes_prompt("x", &MeetingContext::default());
    let b = render_notes_prompt("x\n", &MeetingContext::default());
    assert_eq!(a, b);
    assert!(a.ends_with("\n--- TRANSCRIPT ---\nx\n--- END TRANSCRIPT ---\n"));
}

#[test]
fn test_render_notes_body_wraps_llm_output_with_title_and_timestamp() {
    let body = render_notes_body(Some("Standup"), APR_29_0900, "## TL;DR\nShipped.\n");

    assert!(body.starts_with("# Standup — notes\n"));
    assert!(body.contains("2026-04-29 09:00"));
    assert!(body.contains("## TL;DR\nShipped."));
}

#[test]
fn test_render_notes_body_uses_untitled_default_when_no_title_supplied() {
    let body = render_notes_body(None, APR_29_0900, "## TL;DR\n\nA\n");

    assert!(body.contains("Untitled session"));
}

#[test]
fn notes_body_with_gaps_appends_section_only_for_gaps() {
    let plain = render_notes_body_with_gaps(Some("S"), APR_29_0900, "ok  \n", &[]);
    assert_eq!(plain, "# S — notes\n*Generated 2026-04-29 09:00*\n\nok\n");
    let gaps = [ProcessingGap { start_ordinal: 2, end_ordinal: 4, reason: "transport" }];
    let with = render_notes_body_with_gaps(Some("S"), APR_29_0900, "ok", &gaps);
    assert!(with.ends_with("ok\n\n## Processing gaps\n- Transcript segments 2–4 (transport)\n"));
}

#[test]
fn default_template_is_accepted() {
    assert!(validate_template(DEFAULT_TEMPLATE).is_ok());
}

#[test]
fn unknown_template_names_are_rejected() {
    let error = validate_template("executive").unwrap_err();

    assert!(matches!(
        error,
        ConfigError::Invalid { key, .. } if key == "notes.template"
    ));
}

#[test]
fn unknown_template_reason_quotes_the_name() {
    let error = validate_template("exec\"utive").unwrap_err();
    assert_eq!(
        error,
        ConfigError::Invalid {
            key: "notes.template".to_string(),
            reason: "unknown template \"exec\\\"utive\"; expected \"default\"".to_string(),
        }
    );
}

fn seg(ordinal: usize, speaker: &str, start_ms: u64, text: &str) -> TranscriptSegment {
    TranscriptSegment { ordinal, speaker: speaker.to_string(), start_ms, text: text.to_string() }
}

#[test]
fn map_prompt_lists_overlap_then_new_segments() {
    let a = seg(1, "Me", 1_000, "a");
    let b = seg(2, "Them", 62_000, "b");
    let prompt = render_map_prompt(&[&a], &[&b]);
    assert!(prompt.contains("\n--- CONTEXT OVERLAP (already covered) ---\n[1] **Me** [00:00:01]: a\n"));
    assert!(prompt.ends_with(
        "\n--- TRANSCRIPT SEGMENTS (new coverage) ---\n[2] **Them** [00:01:02]: b\n--- END TRANSCRIPT SEGMENTS ---\n"
    ));
    assert!(!render_map_prompt(&[], &[&b]).contains("CONTEXT OVERLAP"));
}

#[test]
fn reduce_prompt_marks_groups_gaps_and_context() {
    let groups = vec![
        MapGroup { start_ordinal: 1, end_ordinal: 3, bullets: "  - fact \n".to_string() },
        MapGroup { start_ordinal: 0, end_ordinal: 0, bullets: "[OMITTED]".to_string() },
    ];
    let gaps = vec![ProcessingGap { start_ordinal: 4, end_ordinal: 4, reason: "transport" }];
    let ctx = MeetingContext { title: Some("T".into()), attendees: vec!["A".into()], ..MeetingContext::default() };
    let prompt = render_reduce_prompt(&groups, &gaps, &ctx);
    assert!(prompt.contains("\nRequested meeting title: T\nRequested attendee context: A\n"));
    assert!(prompt.contains(
        "--- FACTUAL MAP BULLETS ---\n[Transcript segments 1–3]\n- fact\n[OMITTED]\n[Processing gap: transcript segments 4–4 (transport)]\n--- END FACTUAL MAP BULLETS ---\n"
    ));
}

#[test]
fn title_prompt_wraps_transcript() {
    let p = render_title_prompt("hello");
    assert!(p.starts_with("Create a short, factual title for this transcript.\n"));
    assert!(p.ends_with("--- TRANSCRIPT ---\nhello\n--- END TRANSCRIPT ---\n"));
}
