use scrybe_core::error::{CaptureError, CoreError};
use scrybe_core::hooks::LifecycleEvent;
use scrybe_core::notes_segments::parse_canonical_transcript;
use scrybe_core::session::{retitled_transcript, session_folder_name, slug, SessionOutputs, StoreTarget};
use scrybe_core::session_log::SessionLog;
use scrybe_core::types::{ConsentAttestation, ConsentMode, FrameSource, SessionId, SpeakerLabel, TranscriptChunk};

// 2026-04-29 14:30 UTC.
const APR_29_1430: i64 = 1_777_473_000_000;

fn text_chunk(text: &str, source: FrameSource, start_ms: u64) -> TranscriptChunk {
    TranscriptChunk {
        text: text.into(),
        source,
        start_ms,
        duration_ms: 1_000,
        language: None,
        tokens: Vec::new(),
    }
}

fn outputs() -> SessionOutputs {
    SessionOutputs {
        folder: "/s".into(),
        transcript_path: "/s/transcript.md".into(),
        notes_path: "/s/notes.md".into(),
        meta_path: "/s/meta.toml".into(),
        audio_path: "/s/audio.opus".into(),
        attestation: ConsentAttestation::new(ConsentMode::Quick, "tom", APR_29_1430),
        chunks: Vec::new(),
    }
}

#[test]
fn session_log_header_and_lines_build_the_transcript() {
    let (mut log, header) = SessionLog::start(SessionId(7), APR_29_1430, Some("Standup".into()));
    assert_eq!(header, "# Standup\n*2026-04-29 14:30*\n\n");
    let (mic_line, mic_event) = log.record_chunk(FrameSource::Mic, text_chunk("  hello there ", FrameSource::Mic, 1_500));
    assert_eq!(mic_line, "**Me** [00:00:01]: hello there\n");
    match mic_event {
        LifecycleEvent::ChunkTranscribed { id, chunk } => {
            assert_eq!(id, SessionId(7));
            assert_eq!(chunk.speaker, SpeakerLabel::Me);
            assert_eq!(chunk.chunk.text, "  hello there ");
        }
        other => panic!("unexpected event {other:?}"),
    }
    let (sys_line, _) = log.record_chunk(FrameSource::System, text_chunk("hi", FrameSource::System, 62_000));
    assert_eq!(sys_line, "**Them** [00:01:02]: hi\n");
    let (mixed_line, _) = log.record_chunk(FrameSource::Mixed, text_chunk("both", FrameSource::Mixed, 63_000));
    assert_eq!(mixed_line, "**Me** [00:01:03]: both\n");

    let mic = log.side(StoreTarget::Mic);
    let sys = log.side(StoreTarget::System);
    assert_eq!(mic.iter().map(|c| c.text.as_str()).collect::<Vec<_>>(), vec!["  hello there ", "both"]);
    assert_eq!(sys.iter().map(|c| c.text.as_str()).collect::<Vec<_>>(), vec!["hi"]);

    // What the session wrote reads back as the chunks it recorded.
    let written = format!("{header}{mic_line}{sys_line}{mixed_line}");
    let segments = parse_canonical_transcript(&written).unwrap();
    assert_eq!(segments.len(), 3);
    assert_eq!((segments[0].ordinal, segments[0].speaker.as_str(), segments[0].start_ms, segments[0].text.as_str()), (1, "Me", 1_000, "hello there"));
    assert_eq!((segments[1].ordinal, segments[1].speaker.as_str(), segments[1].start_ms, segments[1].text.as_str()), (2, "Them", 62_000, "hi"));
    assert_eq!((segments[2].ordinal, segments[2].speaker.as_str(), segments[2].start_ms, segments[2].text.as_str()), (3, "Me", 63_000, "both"));
}

#[test]
fn session_log_retitling_keeps_every_line() {
    let (mut log, header) = SessionLog::start(SessionId(1), APR_29_1430, None);
    assert_eq!(header, "# Untitled session\n*2026-04-29 14:30*\n\n");
    let (line, _) = log.record_chunk(FrameSource::Mic, text_chunk("agenda", FrameSource::Mic, 0));
    let written = format!("{header}{line}");
    let new_header = "# Weekly sync\n*2026-04-29 14:30*\n\n";
    assert_eq!(
        retitled_transcript(&written, "Weekly sync", new_header),
        Some(format!("{new_header}{line}"))
    );
    assert_eq!(retitled_transcript(&written, "Untitled session", new_header), None);
}

#[test]
fn session_log_outcome_is_the_first_capture_error() {
    let (log, _) = SessionLog::start(SessionId(2), 0, None);
    assert!(log.outcome(outputs()).is_ok());

    let (mut log, _) = SessionLog::start(SessionId(3), 0, None);
    log.end_capture(Some(CaptureError::StreamClosed));
    log.end_capture(Some(CaptureError::UnsupportedSampleRate(8_000)));
    match log.outcome(outputs()) {
        Err(CoreError::Capture(e)) => assert_eq!(e, CaptureError::StreamClosed),
        other => panic!("unexpected outcome {other:?}"),
    }

    let (mut log, _) = SessionLog::start(SessionId(4), 0, None);
    log.end_capture(None);
    assert!(log.outcome(outputs()).is_ok());
}

#[test]
fn slug_lowercases_and_collapses_separators() {
    assert_eq!(slug("Acme: Q3 / Discovery!!"), "acme-q3-discovery");
    assert_eq!(slug("  Hello   World  "), "hello-world");
    assert_eq!(slug("ÉTÉ 2026"), "t-2026");
    assert_eq!(slug(""), "untitled");
    assert_eq!(slug("--- ***"), "untitled");
}

#[test]
fn session_folder_name_joins_start_slug_and_ulid() {
    let name = session_folder_name(APR_29_1430, "Acme discovery", SessionId(0));
    assert_eq!(name, "2026-04-29-1430-acme-discovery-00000000000000000000000000");
    let id = SessionId(u128::MAX);
    let name = session_folder_name(APR_29_1430, "", id);
    assert_eq!(name, format!("2026-04-29-1430-untitled-{}", id.to_string_26()));
    assert!(name.ends_with("-7ZZZZZZZZZZZZZZZZZZZZZZZZZ"));
}

