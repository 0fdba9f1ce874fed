use scrybe_core::error::PipelineError;
use scrybe_core::pipeline::chunker::{ChunkBoundary, Chunker, ChunkerConfig, EmittedChunk};
use scrybe_core::pipeline::encoder::{check_opus_format, EncoderConfig};
use scrybe_core::pipeline::journal::{
    segment_path, source_tag, JournalManifest, SegmentTracker, ROTATE_INTERVAL_SECS,
};
use scrybe_core::pipeline::normalize::validate_frame_format;
use scrybe_core::pipeline::resample::ResampleError;
use scrybe_core::pipeline::vad::VadDecision;
use scrybe_core::types::FrameSource;
use scrybe_core::pipeline::journal::JournalAnchor;

const RATE: u64 = 16_000;

fn cfg_short() -> ChunkerConfig {
    ChunkerConfig {
        max_chunk_ns: 300_000_000,
        min_speech_before_silence_split_ns: 50_000_000,
        silence_split_after_ns: 50_000_000,
    }
}

fn ns_for_samples(samples: u64) -> u64 {
    samples * 1_000_000_000 / RATE
}

// A frame of `frame_size` samples at 16 kHz lasts `frame_size / 16 000` s;
// a sine frame is speech for the energy VAD, a zero frame is silence.
fn push(
    chunker: &mut Chunker<u64>,
    chunks: &mut Vec<EmittedChunk<u64>>,
    index: u64,
    frame_size: u64,
    decision: VadDecision,
) {
    let ts = ns_for_samples(index * frame_size);
    if let Some(c) = chunker.push(index, ts, ns_for_samples(frame_size), decision) {
        chunks.push(c);
    }
}

#[test]
fn test_chunker_emits_chunk_at_max_duration() {
    let cfg = cfg_short();
    let mut chunker = Chunker::new(cfg, FrameSource::Mic);
    let mut chunks = Vec::new();

    let frame_size = 1_600;
    let frames_needed = 3;
    for i in 0..frames_needed {
        push(&mut chunker, &mut chunks, i, frame_size, VadDecision::Speech);
    }

    assert_eq!(chunks.len(), 1);
    assert_eq!(chunks[0].ended_on, ChunkBoundary::MaxDuration);
    assert!(chunks[0].duration_ns >= cfg.max_chunk_ns);
}

#[test]
fn test_chunker_emits_chunk_on_silence_after_sufficient_speech() {
    let mut chunker = Chunker::new(cfg_short(), FrameSource::Mic);
    let mut chunks = Vec::new();

    let frame_size = 800;
    for i in 0..2 {
        push(&mut chunker, &mut chunks, i, frame_size, VadDecision::Speech);
    }
    for i in 0..2 {
        push(&mut chunker, &mut chunks, 2 + i, frame_size, VadDecision::Silence);
    }

    assert_eq!(chunks.len(), 1);
    assert_eq!(chunks[0].ended_on, ChunkBoundary::SilenceAfterSpeech);
}

#[test]
fn test_chunker_does_not_emit_when_only_silence_present() {
    let mut chunker = Chunker::new(cfg_short(), FrameSource::Mic);
    let mut chunks = Vec::new();

    for i in 0..3 {
        push(&mut chunker, &mut chunks, i, 800, VadDecision::Silence);
    }

    assert!(chunks.is_empty(), "pure silence must not trigger silence-after-speech boundary");
}

#[test]
fn test_chunker_finish_emits_remaining_frames_as_end_of_stream_chunk() {
    let mut chunker = Chunker::new(cfg_short(), FrameSource::Mic);
    let mut chunks = Vec::new();

    push(&mut chunker, &mut chunks, 0, 800, VadDecision::Speech);
    if let Some(c) = chunker.finish() {
        chunks.push(c);
    }

    assert_eq!(chunks.len(), 1);
    assert_eq!(chunks[0].ended_on, ChunkBoundary::EndOfStream);
}

#[test]
fn test_chunker_finish_is_idempotent_on_empty_buffer() {
    let mut chunker: Chunker<u64> = Chunker::new(cfg_short(), FrameSource::Mic);
    let mut chunks: Vec<EmittedChunk<u64>> = Vec::new();

    chunker.finish_into(&mut chunks);
    chunker.finish_into(&mut chunks);

    assert!(chunks.is_empty());
}

#[test]
fn test_chunker_resets_speech_counter_after_emitting_chunk() {
    let mut chunker = Chunker::new(cfg_short(), FrameSource::Mic);
    let mut chunks = Vec::new();

    let frame_size = 800;
    for i in 0..2 {
        push(&mut chunker, &mut chunks, i, frame_size, VadDecision::Speech);
    }
    for i in 0..2 {
        push(&mut chunker, &mut chunks, 2 + i, frame_size, VadDecision::Silence);
    }
    for i in 0..2 {
        push(&mut chunker, &mut chunks, 4 + i, frame_size, VadDecision::Silence);
    }

    assert_eq!(chunks.len(), 1, "second silence run must not emit a chunk");
}

#[test]
fn test_chunker_emits_chunks_with_contiguous_non_overlapping_starts() {
    let mut chunker = Chunker::new(cfg_short(), FrameSource::Mic);
    let mut chunks = Vec::new();

    let frame_size = 1_600;
    for i in 0..7 {
        push(&mut chunker, &mut chunks, i, frame_size, VadDecision::Speech);
    }
    if let Some(c) = chunker.finish() {
        chunks.push(c);
    }

    let mut last_end = 0;
    for c in &chunks {
        assert!(c.start_ns >= last_end, "overlap at chunk start={}", c.start_ns);
        last_end = c.start_ns + c.duration_ns;
    }
    assert!(!chunks.is_empty());
}

#[test]
fn test_chunker_records_source_on_emitted_chunk() {
    let mut chunker = Chunker::new(cfg_short(), FrameSource::System);
    let mut chunks = Vec::new();

    push(&mut chunker, &mut chunks, 0, 800, VadDecision::Speech);
    chunker.finish_into(&mut chunks);

    assert_eq!(chunks[0].source, FrameSource::System);
}

#[test]
fn chunker_keeps_every_frame_in_order_across_chunks() {
    let mut chunker = Chunker::new(cfg_short(), FrameSource::Mic);
    let mut chunks = Vec::new();
    for i in 0..10 {
        push(&mut chunker, &mut chunks, i, 1_600, VadDecision::Speech);
    }
    chunker.finish_into(&mut chunks);

    let frames: Vec<u64> = chunks.iter().flat_map(|c| c.frames.iter().copied()).collect();
    assert_eq!(frames, (0..10).collect::<Vec<u64>>());
    assert_eq!(chunks[0].start_ns, 0);
    assert_eq!(chunks[0].duration_ns, 300_000_000);
    assert_eq!(chunks[1].start_ns, 300_000_000);
}

#[test]
fn chunker_default_thresholds_match_documented_values() {
    let c = ChunkerConfig::default();
    assert_eq!(c.max_chunk_ns, 30_000_000_000);
    assert_eq!(c.min_speech_before_silence_split_ns, 5_000_000_000);
    assert_eq!(c.silence_split_after_ns, 5_000_000_000);
}

#[test]
fn test_encoder_config_default_uses_documented_v0_1_settings() {
    let c = EncoderConfig::default();

    assert_eq!(c.sample_rate, 48_000);
    assert_eq!(c.channels, 1);
    assert_eq!(c.bitrate_bps, 32_000);
    assert_eq!(c.page_interval_ms, 1_000);
}

#[test]
fn test_resample_error_promotes_to_pipeline_error_with_source_rate() {
    let err: PipelineError = ResampleError::Unsupported(0).into();

    assert_eq!(err, PipelineError::Resample { source_rate: 0 });
}

#[test]
fn frame_format_accepts_matching_nonzero_format() {
    assert!(validate_frame_format(0, 2, 48_000, 2, 48_000).is_ok());
}

#[test]
fn frame_format_rejects_channel_or_rate_change_and_degenerate_format() {
    let err = validate_frame_format(3, 1, 48_000, 2, 48_000).unwrap_err();
    assert_eq!(
        err,
        PipelineError::InvalidFrame(
            "STT input frame 3 has 1 channels at 48000 Hz; expected nonzero uniform 2 channels at 48000 Hz"
                .to_string()
        )
    );
    assert!(validate_frame_format(0, 2, 44_100, 2, 48_000).is_err());
    assert!(validate_frame_format(0, 0, 0, 0, 0).is_err());
}

#[test]
fn journal_segment_names_are_zero_padded() {
    assert_eq!(segment_path("/j", "mic", 0), "/j/mic-0000.f32");
    assert_eq!(segment_path("/j", "system", 12), "/j/system-0012.f32");
    assert_eq!(segment_path("/j/", "mic", 12_345), "/j/mic-12345.f32");
}

#[test]
fn test_journal_writer_mixed_source_shares_mic_tag() {
    assert_eq!(source_tag(FrameSource::Mixed), "mic");
    assert_eq!(source_tag(FrameSource::Mic), "mic");
    assert_eq!(source_tag(FrameSource::System), "system");
}

#[test]
fn test_journal_writer_rotates_after_crossing_sample_threshold() {
    let mut t = SegmentTracker::new(100, 1);
    assert_eq!(t.rotate_at_samples, u64::from(ROTATE_INTERVAL_SECS) * 100);
    let first = t.record(1_000).unwrap();
    assert_eq!(first.open_segment, Some(0));
    assert!(!first.close_after);
    let second = t.record(2_000).unwrap();
    assert_eq!(second.open_segment, None);
    assert!(second.close_after, "3000 samples reach the 30 s threshold");
    let third = t.record(10).unwrap();
    assert_eq!(third.open_segment, Some(1));
    assert_eq!(t.segment_count, 2);
    assert_eq!(t.frames_written, 3_010);
}

#[test]
fn test_journal_writer_empty_frame_is_ignored() {
    let mut t = SegmentTracker::new(48_000, 2);
    assert!(t.record(0).is_none());
    assert_eq!(t.segment_count, 0);
}

#[test]
fn test_journal_writer_multi_channel_frame_written_interleaved() {
    let mut t = SegmentTracker::new(48_000, 2);
    t.record(960).unwrap();
    let s = t.summary(FrameSource::Mic, 48_000, 2);
    assert_eq!(s.frames_written, 480);
    assert_eq!(s.segment_count, 1);
}

#[test]
fn journal_manifest_default_has_no_anchors() {
    let m = JournalManifest::default();
    assert!(m.mic.is_none() && m.system.is_none());
}

fn null_cfg() -> scrybe_core::pipeline::encoder::EncoderConfig {
    scrybe_core::pipeline::encoder::EncoderConfig {
        sample_rate: 16_000,
        channels: 1,
        bitrate_bps: 32_000,
        page_interval_ms: 100,
    }
}

/// Little-endian `f32` bytes of a page, as the codec-less encoder writes them.
fn page_bytes(page: &[f32]) -> Vec<u8> {
    page.iter().flat_map(|s| s.to_le_bytes()).collect()
}

#[test]
fn test_null_encoder_emits_page_when_buffer_reaches_page_size() {
    let mut enc = scrybe_core::pipeline::encoder::NullEncoder::<f32>::new(null_cfg());
    let samples_per_page = 1_600;
    let pcm = vec![0.5_f32; samples_per_page];
    let out = page_bytes(&enc.push_pcm(&pcm));
    assert_eq!(out.len(), samples_per_page * 4);
}

#[test]
fn test_null_encoder_buffers_below_page_size_without_emitting() {
    let mut enc = scrybe_core::pipeline::encoder::NullEncoder::<f32>::new(null_cfg());
    let out = enc.push_pcm(&vec![0.5_f32; 800]);
    assert!(out.is_empty());
}

#[test]
fn test_null_encoder_finish_returns_tail_below_page_threshold() {
    let mut enc = scrybe_core::pipeline::encoder::NullEncoder::<f32>::new(null_cfg());
    let _ = enc.push_pcm(&vec![0.25_f32; 200]);
    let tail = page_bytes(&enc.finish());
    assert_eq!(tail.len(), 200 * 4);
}

#[test]
fn test_null_encoder_finish_returns_empty_when_no_buffer() {
    let mut enc = scrybe_core::pipeline::encoder::NullEncoder::<f32>::new(null_cfg());
    assert!(enc.finish().is_empty());
}

#[test]
fn test_null_encoder_emits_multiple_pages_for_large_burst() {
    let mut enc = scrybe_core::pipeline::encoder::NullEncoder::<f32>::new(null_cfg());
    let first = page_bytes(&enc.push_pcm(&vec![0.1_f32; 1_600]));
    let second = page_bytes(&enc.push_pcm(&vec![0.2_f32; 1_600]));
    assert_eq!(first.len(), 1_600 * 4);
    assert_eq!(second.len(), 1_600 * 4);
}

#[test]
fn test_null_encoder_round_trip_decodes_to_within_5_percent_rms() {
    let mut enc = scrybe_core::pipeline::encoder::NullEncoder::<f32>::new(null_cfg());
    let pcm = vec![0.5_f32; 1_600];
    let bytes = page_bytes(&enc.push_pcm(&pcm));
    let decoded: Vec<f32> = bytes
        .chunks_exact(4)
        .map(|b| f32::from_le_bytes([b[0], b[1], b[2], b[3]]))
        .collect();
    let in_rms = (pcm.iter().map(|s| s * s).sum::<f32>() / pcm.len() as f32).sqrt();
    let out_rms = (decoded.iter().map(|s| s * s).sum::<f32>() / decoded.len() as f32).sqrt();
    let ratio = out_rms / in_rms;
    assert!((ratio - 1.0).abs() < 0.05, "round-trip RMS deviates by more than 5%: {ratio}");
}

#[test]
fn null_encoder_keeps_overflow_for_the_next_page() {
    let mut enc = scrybe_core::pipeline::encoder::NullEncoder::<u8>::new(null_cfg());
    let first = enc.push_pcm(&vec![1_u8; 2_000]);
    assert_eq!(first.len(), 1_600);
    let tail = enc.finish();
    assert_eq!(tail.len(), 400);
}

#[test]
fn merge_interleave_prefixes_later_system_source_with_silence() {
    // 40 ms at 1 kHz = 40 samples of silence before the system side.
    let out = scrybe_core::pipeline::merge::interleave_stereo(vec![1_i16; 50], vec![2_i16; 20], 40, 1_000, 0_i16);
    assert_eq!(out.len(), 2 * 60);
    assert_eq!(out[0], 1);
    assert_eq!(out[1], 0);
    assert_eq!(out[2 * 40 + 1], 2);
    assert_eq!(out[2 * 59 + 1], 2);
    assert_eq!(out[2 * 55], 0);
}

#[test]
fn merge_interleave_prefixes_later_mic_source_with_silence() {
    let out = scrybe_core::pipeline::merge::interleave_stereo(vec![1_i16; 3], vec![2_i16; 3], -2, 1_000, 0_i16);
    assert_eq!(out, vec![0, 2, 0, 2, 1, 2, 1, 0, 1, 0]);
}

#[test]
fn merge_channel_and_segment_helpers() {
    let anchor = |ms: i64| JournalAnchor { first_frame_epoch_ms: ms, sample_rate: 48_000, channels: 1, frames_written: 0 };
    let both = JournalManifest { mic: Some(anchor(1_000)), system: Some(anchor(1_040)) };
    assert_eq!(scrybe_core::pipeline::merge::merged_channels(&both), 2);
    assert_eq!(scrybe_core::pipeline::merge::epoch_delta_ms(&both), 40);
    let mono = JournalManifest { mic: Some(anchor(1_000)), system: None };
    assert_eq!(scrybe_core::pipeline::merge::merged_channels(&mono), 1);
    assert_eq!(scrybe_core::pipeline::merge::epoch_delta_ms(&mono), 0);
    assert_eq!(scrybe_core::pipeline::merge::usable_segment_len(10), 8);
}

#[test]
fn test_journal_writer_writes_samples_to_single_segment_below_rotation_threshold() {
    let mut t = SegmentTracker::new(100, 1);
    let w = t.record(50).unwrap();
    assert_eq!(w.open_segment, Some(0));
    assert!(!w.close_after);
    let summary = t.summary(FrameSource::Mic, 100, 1);
    assert_eq!(summary.source, FrameSource::Mic);
    assert_eq!(summary.sample_rate, 100);
    assert_eq!(summary.channels, 1);
    assert_eq!(summary.frames_written, 50);
    assert_eq!(summary.segment_count, 1);
    assert_eq!(t.seq, 0, "nothing rotated: segment 1 is never opened");
}

#[test]
fn test_journal_writer_rotation_never_splits_a_frame() {
    let mut t = SegmentTracker::new(100, 1);
    // One frame larger than the 3000-sample threshold stays whole in
    // segment 0, which closes after it.
    let big = t.record(5_000).unwrap();
    assert_eq!(big.open_segment, Some(0));
    assert!(big.close_after);
    let next = t.record(1).unwrap();
    assert_eq!(next.open_segment, Some(1));
    assert_eq!(t.segment_count, 2);
}

#[test]
fn test_journal_writer_finish_with_no_frames_creates_no_segments() {
    let t = SegmentTracker::new(100, 1);
    let summary = t.summary(FrameSource::System, 100, 1);
    assert_eq!(summary.frames_written, 0);
    assert_eq!(summary.segment_count, 0);
}

#[test]
fn test_normalizer_rejects_channel_change_mid_stream() {
    // The source's format was set by a mono 48 kHz first frame.
    let error = validate_frame_format(1, 2, 48_000, 1, 48_000).unwrap_err().to_string();
    assert!(
        error.contains("frame 1 has 2 channels"),
        "unexpected error: {error}"
    );
}

#[test]
fn test_normalizer_rejects_rate_change_mid_stream() {
    let error = validate_frame_format(1, 1, 44_100, 1, 48_000).unwrap_err().to_string();
    assert!(error.contains("at 44100 Hz"), "unexpected error: {error}");
}

#[test]
fn test_normalizer_rejects_degenerate_first_frame() {
    // A first frame sets the expected format from itself.
    let error = validate_frame_format(0, 0, 48_000, 0, 48_000).unwrap_err().to_string();
    assert!(
        error.contains("expected nonzero"),
        "unexpected error: {error}"
    );
}

#[test]
fn test_default_session_encoder_returns_null_encoder_without_feature() {
    let mut enc = scrybe_core::pipeline::encoder::NullEncoder::<u32>::new(EncoderConfig::default());
    let page = enc.push_pcm(&vec![7_u32; 48_000]);
    // One page of one second at 48 kHz mono, every sample passed through.
    assert_eq!(page.len(), 48_000);
    assert!(enc.finish().is_empty());
}

#[test]
fn opus_format_check_accepts_opus_rates_mono_and_stereo_only() {
    let ok = EncoderConfig::default();
    assert!(check_opus_format(&ok).is_ok());
    let stereo = EncoderConfig { channels: 2, sample_rate: 16_000, ..ok };
    assert!(check_opus_format(&stereo).is_ok());
    let bad_rate = EncoderConfig { sample_rate: 44_100, ..ok };
    assert_eq!(
        check_opus_format(&bad_rate),
        Err(PipelineError::OpusEncode(
            "unsupported sample rate 44100 Hz; Opus accepts 8000/12000/16000/24000/48000".to_string()
        ))
    );
    let bad_channels = EncoderConfig { channels: 6, ..ok };
    assert_eq!(
        check_opus_format(&bad_channels),
        Err(PipelineError::OpusEncode(
            "unsupported channel count 6; OggOpusEncoder requires mono or stereo".to_string()
        ))
    );
}
