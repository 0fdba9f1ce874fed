use scrybe_core::notes::render_transcript_header;
use scrybe_core::notes_segments::{
    pack_segments, parse_canonical_transcript, try_parse_canonical_transcript, TranscriptSegment,
};
use scrybe_core::notes::render_transcript_line;
use scrybe_core::types::{AttributedChunk, FrameSource, SpeakerLabel, TranscriptChunk};

fn segment(ordinal: usize, speaker: &str, start_ms: u64, text: &str) -> TranscriptSegment {
    TranscriptSegment { ordinal, speaker: speaker.to_string(), start_ms, text: text.to_string() }
}

fn word_count(text: &str) -> u32 {
    u32::try_from(text.split_whitespace().count()).unwrap()
}

fn canonical_header() -> &'static str {
    "# Acme discovery\n*2026-04-29 14:30*\n\n"
}

#[test]
fn test_parse_canonical_transcript_parses_lines_in_order() {
    let markdown = format!(
        "{}**Me** [00:00:03]: Hi there.\n**Them** [00:00:05]: Sure thing.\n",
        canonical_header()
    );

    let segments = parse_canonical_transcript(&markdown).unwrap();

    assert_eq!(
        segments,
        vec![segment(1, "Me", 3_000, "Hi there."), segment(2, "Them", 5_000, "Sure thing.")]
    );
}

#[test]
fn test_parse_canonical_transcript_skips_static_header() {
    let markdown = format!("{}**Me** [00:00:00]: Hello.\n", canonical_header());

    let segments = parse_canonical_transcript(&markdown).unwrap();

    assert_eq!(segments.len(), 1);
    assert_eq!(segments[0].text, "Hello.");
}

#[test]
fn test_parse_canonical_transcript_skips_header_with_ended_at_range() {
    let markdown = "# Standup\n*2026-04-29 09:00 — 09:15*\n\n**Me** [00:00:00]: Hi.\n";

    let segments = parse_canonical_transcript(markdown).unwrap();

    assert_eq!(segments, vec![segment(1, "Me", 0, "Hi.")]);
}

#[test]
fn test_parse_canonical_transcript_empty_body_yields_no_segments() {
    let markdown = canonical_header();

    let segments = parse_canonical_transcript(markdown).unwrap();

    assert!(segments.is_empty());
}

#[test]
fn test_parse_canonical_transcript_empty_string_yields_no_segments() {
    let segments = parse_canonical_transcript("").unwrap();

    assert!(segments.is_empty());
}

#[test]
fn test_parse_canonical_transcript_rejects_malformed_nonblank_line_with_line_number() {
    let markdown =
        format!("{}**Me** [00:00:00]: Hi.\nsomeone forgot the markers here\n", canonical_header());

    let err = parse_canonical_transcript(&markdown).unwrap_err();

    assert_eq!(err.line, 5);
}

#[test]
fn test_parse_canonical_transcript_rejects_missing_timestamp_delimiter() {
    let markdown = format!("{}**Me** [00:00:00] Hi.\n", canonical_header());

    let err = parse_canonical_transcript(&markdown).unwrap_err();

    assert_eq!(err.line, 4);
    assert!(err.reason.contains("timestamp"));
}

#[test]
fn test_parse_canonical_transcript_rejects_invalid_hms_timestamp() {
    let markdown = format!("{}**Me** [not-a-time]: Hi.\n", canonical_header());

    let err = parse_canonical_transcript(&markdown).unwrap_err();

    assert_eq!(err.line, 4);
}

#[test]
fn test_parse_canonical_transcript_ignores_blank_lines_between_segments() {
    let markdown =
        format!("{}**Me** [00:00:00]: Hi.\n\n**Them** [00:00:01]: Hello.\n", canonical_header());

    let segments = parse_canonical_transcript(&markdown).unwrap();

    assert_eq!(segments.len(), 2);
}

#[test]
fn parse_error_renders_line_and_reason() {
    let err = parse_canonical_transcript("**** [00:00:00]: x\n").unwrap_err();
    assert_eq!(err.to_string(), "malformed transcript line 1: empty speaker label");
}

#[test]
fn rendered_transcript_parses_back() {
    let mut md = render_transcript_header(Some("Sync"), 1_777_453_200_000, Some(1_777_454_100_000));
    for (i, (speaker, text)) in [(SpeakerLabel::Me, " hello "), (SpeakerLabel::Them, "hi: there")].iter().enumerate() {
        md.push_str(&render_transcript_line(&AttributedChunk {
            chunk: TranscriptChunk {
                text: text.to_string(),
                source: FrameSource::Mic,
                start_ms: 61_500 * (i as u64 + 1),
                duration_ms: 10,
                language: None,
                tokens: Vec::new(),
            },
            speaker: speaker.clone(),
        }));
    }
    let segments = parse_canonical_transcript(&md).unwrap();
    assert_eq!(segments, vec![segment(1, "Me", 61_000, "hello"), segment(2, "Them", 123_000, "hi: there")]);
}

#[test]
fn rendered_named_speaker_parses_back_verbatim() {
    let mut md = render_transcript_header(None, 1_777_453_200_000, None);
    md.push_str(&render_transcript_line(&AttributedChunk {
        chunk: TranscriptChunk {
            text: "Hi.".to_string(),
            source: FrameSource::System,
            start_ms: 2_400,
            duration_ms: 10,
            language: None,
            tokens: Vec::new(),
        },
        speaker: SpeakerLabel::Named("Alex Kim".to_string()),
    }));
    assert!(md.starts_with("# Untitled session\n*"));
    let segments = parse_canonical_transcript(&md).unwrap();
    assert_eq!(segments, vec![segment(1, "Alex Kim", 2_000, "Hi.")]);
}

#[test]
fn test_pack_segments_empty_input_yields_no_chunks() {
    let segments: Vec<TranscriptSegment> = Vec::new();

    let chunks = pack_segments(&segments, 10, 1, word_count);

    assert!(chunks.is_empty());
}

#[test]
fn test_pack_segments_keeps_all_segments_in_one_chunk_when_under_target() {
    let segments = vec![segment(1, "Me", 0, "one two"), segment(2, "Them", 1_000, "three four")];

    let chunks = pack_segments(&segments, 100, 0, word_count);

    assert_eq!(chunks.len(), 1);
    assert_eq!(chunks[0].segments, vec![&segments[0], &segments[1]]);
    assert!(chunks[0].overlap.is_empty());
}

#[test]
fn test_pack_segments_splits_exactly_at_target_boundary() {
    let segments = vec![segment(1, "Me", 0, "a b"), segment(2, "Me", 1_000, "c d"), segment(3, "Me", 2_000, "e f")];

    let chunks = pack_segments(&segments, 4, 0, word_count);

    assert_eq!(chunks.len(), 2);
    assert_eq!(chunks[0].segments, vec![&segments[0], &segments[1]]);
    assert_eq!(chunks[1].segments, vec![&segments[2]]);
}

#[test]
fn test_pack_segments_one_token_over_target_starts_new_chunk() {
    let segments = vec![segment(1, "Me", 0, "a b c d"), segment(2, "Me", 1_000, "e")];

    let chunks = pack_segments(&segments, 4, 0, word_count);

    assert_eq!(chunks.len(), 2);
    assert_eq!(chunks[0].segments, vec![&segments[0]]);
    assert_eq!(chunks[1].segments, vec![&segments[1]]);
}

#[test]
fn test_pack_segments_never_splits_a_single_oversized_segment() {
    let segments = vec![segment(1, "Me", 0, "one two three four five"), segment(2, "Me", 1_000, "six")];

    let chunks = pack_segments(&segments, 2, 0, word_count);

    assert_eq!(chunks.len(), 2);
    assert_eq!(chunks[0].segments, vec![&segments[0]]);
    assert_eq!(chunks[1].segments, vec![&segments[1]]);
}

#[test]
fn test_pack_segments_carries_whole_trailing_overlap_into_next_chunk() {
    let segments = vec![segment(1, "Me", 0, "a b"), segment(2, "Me", 1_000, "c d"), segment(3, "Me", 2_000, "e f")];

    let chunks = pack_segments(&segments, 4, 1, word_count);

    assert_eq!(chunks.len(), 2);
    assert_eq!(chunks[0].segments, vec![&segments[0], &segments[1]]);
    assert!(chunks[0].overlap.is_empty());
    assert_eq!(chunks[1].segments, vec![&segments[2]]);
    assert_eq!(chunks[1].overlap, vec![&segments[1]]);
}

#[test]
fn test_pack_segments_overlap_clamps_to_available_segments() {
    let segments = vec![segment(1, "Me", 0, "a b"), segment(2, "Me", 1_000, "c d")];

    let chunks = pack_segments(&segments, 2, 5, word_count);

    assert_eq!(chunks.len(), 2);
    assert_eq!(chunks[1].overlap, vec![&segments[0]]);
}

#[test]
fn test_pack_segments_no_split_identity_reconstructs_original_order() {
    let segments: Vec<TranscriptSegment> = (0..10)
        .map(|i| segment(i + 1, "Me", u64::try_from(i).expect("test indices fit u64") * 1_000, "word word"))
        .collect();

    let chunks = pack_segments(&segments, 4, 1, word_count);

    let reconstructed: Vec<&TranscriptSegment> =
        chunks.iter().flat_map(|chunk| chunk.segments.iter().copied()).collect();
    assert_eq!(reconstructed, segments.iter().collect::<Vec<_>>());
}

#[test]
fn try_parse_reports_timestamp_overflow_as_none() {
    let huge = "**Me** [99999999999999999:00:00]: x\n";
    assert_eq!(try_parse_canonical_transcript(huge), None);
    let fits = "**Me** [5124095576030:25:15]: x\n";
    let parsed = try_parse_canonical_transcript(fits).unwrap().unwrap();
    assert_eq!(parsed[0].start_ms, 18_446_744_073_709_515_000);
    let bad = "**Me** [00:61:00]: x\n";
    assert_eq!(try_parse_canonical_transcript(bad).unwrap().unwrap_err().line, 1);
    let ok = "**Me** [00:00:01]: hi\n";
    assert_eq!(try_parse_canonical_transcript(ok), Some(parse_canonical_transcript(ok)));
}
