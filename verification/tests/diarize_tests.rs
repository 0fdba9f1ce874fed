use scrybe_core::context::MeetingContext;
use scrybe_core::diarize::kind::{select_kind, DiarizerKind};
use scrybe_core::diarize::pyannote_onnx::{
    attribute_chunks, LivePyannoteBackend, PyannoteBackend, PyannoteOnnxConfig,
    PyannoteOnnxDiarizer, SpeakerCluster,
};
use scrybe_core::diarize::{requires_neural, BinaryChannelDiarizer, Diarizer};
use scrybe_core::error::{CoreError, PipelineError};
use scrybe_core::paths::is_partial;
use scrybe_core::types::{Capabilities, FrameSource, PermissionModel, SpeakerLabel, TranscriptChunk};

fn caps_with_system_audio(supports: bool) -> Capabilities {
    Capabilities {
        supports_system_audio: supports,
        supports_per_app_capture: false,
        native_sample_rates: vec![48_000],
        permission_model: PermissionModel::CoreAudioTap,
    }
}

fn t(text: &str, source: FrameSource, start_ms: u64) -> TranscriptChunk {
    td(text, source, start_ms, 1_000)
}

fn td(text: &str, source: FrameSource, start_ms: u64, duration_ms: u64) -> TranscriptChunk {
    TranscriptChunk { text: text.into(), source, start_ms, duration_ms, language: None, tokens: Vec::new() }
}

#[test]
fn test_requires_neural_true_when_system_audio_unsupported() {
    let caps = caps_with_system_audio(false);
    let ctx = MeetingContext::default();

    assert!(requires_neural(&caps, &ctx));
}

#[test]
fn test_requires_neural_true_when_attendees_three_or_more() {
    let caps = caps_with_system_audio(true);
    let ctx = MeetingContext { attendees: vec!["a".into(), "b".into(), "c".into()], ..MeetingContext::default() };

    assert!(requires_neural(&caps, &ctx));
}

#[test]
fn test_requires_neural_false_for_one_on_one_remote_call() {
    let caps = caps_with_system_audio(true);
    let ctx = MeetingContext { attendees: vec!["a".into(), "b".into()], ..MeetingContext::default() };

    assert!(!requires_neural(&caps, &ctx));
}

#[test]
fn test_requires_neural_false_for_solo_session() {
    let caps = caps_with_system_audio(true);
    let ctx = MeetingContext::default();

    assert!(!requires_neural(&caps, &ctx));
}

#[test]
fn test_binary_channel_diarizer_assigns_me_to_mic_and_them_to_system() {
    let result = BinaryChannelDiarizer
        .diarize(&[t("Hi.", FrameSource::Mic, 0)], &[t("Of course.", FrameSource::System, 1_000)], &MeetingContext::default())
        .unwrap();

    assert_eq!(result.len(), 2);
    assert_eq!(result[0].speaker, SpeakerLabel::Me);
    assert_eq!(result[0].chunk.text, "Hi.");
    assert_eq!(result[1].speaker, SpeakerLabel::Them);
    assert_eq!(result[1].chunk.text, "Of course.");
}

#[test]
fn test_binary_channel_diarizer_sorts_merged_chunks_by_start_ms() {
    let result = BinaryChannelDiarizer
        .diarize(
            &[t("Mic late.", FrameSource::Mic, 5_000), t("Mic early.", FrameSource::Mic, 1_000)],
            &[t("Sys early.", FrameSource::System, 0), t("Sys mid.", FrameSource::System, 3_000)],
            &MeetingContext::default(),
        )
        .unwrap();

    let texts: Vec<&str> = result.iter().map(|a| a.chunk.text.as_str()).collect();
    assert_eq!(texts, vec!["Sys early.", "Mic early.", "Sys mid.", "Mic late."]);
}

#[test]
fn test_binary_channel_diarizer_simultaneous_chunks_orders_mic_then_system() {
    let result = BinaryChannelDiarizer
        .diarize(&[t("Me here.", FrameSource::Mic, 2_000)], &[t("Them here.", FrameSource::System, 2_000)], &MeetingContext::default())
        .unwrap();

    assert_eq!(result.len(), 2);
    assert_eq!(result[0].speaker, SpeakerLabel::Me);
    assert_eq!(result[1].speaker, SpeakerLabel::Them);
}

#[test]
fn test_binary_channel_diarizer_overrides_source_field_on_misrouted_chunks() {
    let mic_with_wrong_source = t("Came in via mic stream.", FrameSource::Mixed, 0);

    let result = BinaryChannelDiarizer.diarize(&[mic_with_wrong_source], &[], &MeetingContext::default()).unwrap();

    assert_eq!(result[0].chunk.source, FrameSource::Mic);
    assert_eq!(result[0].speaker, SpeakerLabel::Me);
}

#[test]
fn test_binary_channel_diarizer_empty_inputs_yield_empty_output() {
    let result = BinaryChannelDiarizer.diarize(&[], &[], &MeetingContext::default()).unwrap();

    assert!(result.is_empty());
}

#[test]
fn test_binary_channel_diarizer_name_matches_meta_toml_provider_string() {
    assert_eq!(BinaryChannelDiarizer.name(), "binary-channel");
    assert_eq!(BinaryChannelDiarizer::NAME, "binary-channel");
}

#[test]
fn test_diarizer_kind_default_is_binary_channel() {
    assert_eq!(DiarizerKind::default(), DiarizerKind::BinaryChannel);
}

#[test]
fn test_diarizer_kind_from_config_str_parses_canonical_names() {
    assert_eq!(DiarizerKind::from_config_str("binary-channel"), Some(DiarizerKind::BinaryChannel));
    assert_eq!(DiarizerKind::from_config_str("pyannote-onnx"), Some(DiarizerKind::PyannoteOnnx));
}

#[test]
fn test_diarizer_kind_from_config_str_returns_none_for_unknown_value() {
    assert_eq!(DiarizerKind::from_config_str("neural"), None);
    assert_eq!(DiarizerKind::from_config_str(""), None);
    assert_eq!(DiarizerKind::from_config_str("Binary-Channel"), None);
}

#[test]
fn test_diarizer_kind_as_str_round_trips_through_from_config_str() {
    for kind in [DiarizerKind::BinaryChannel, DiarizerKind::PyannoteOnnx] {
        assert_eq!(DiarizerKind::from_config_str(kind.as_str()), Some(kind));
    }
}

#[test]
fn test_diarizer_kind_display_matches_as_str() {
    assert_eq!(DiarizerKind::BinaryChannel.to_string(), "binary-channel");
    assert_eq!(DiarizerKind::PyannoteOnnx.to_string(), "pyannote-onnx");
}

fn caps(supports_system_audio: bool) -> Capabilities {
    caps_with_system_audio(supports_system_audio)
}

#[test]
fn test_select_kind_explicit_choice_overrides_auto_rule_even_for_multi_party() {
    let ctx = MeetingContext { attendees: vec!["a".into(), "b".into(), "c".into(), "d".into()], ..MeetingContext::default() };

    let chosen = select_kind(Some(DiarizerKind::BinaryChannel), &caps(true), &ctx);

    assert_eq!(chosen, DiarizerKind::BinaryChannel);
}

#[test]
fn test_select_kind_explicit_pyannote_honored_for_one_on_one_remote_call() {
    let ctx = MeetingContext { attendees: vec!["me".into(), "them".into()], ..MeetingContext::default() };

    let chosen = select_kind(Some(DiarizerKind::PyannoteOnnx), &caps(true), &ctx);

    assert_eq!(chosen, DiarizerKind::PyannoteOnnx);
}

#[test]
fn test_select_kind_auto_routes_multi_party_to_pyannote() {
    let ctx = MeetingContext { attendees: vec!["a".into(), "b".into(), "c".into()], ..MeetingContext::default() };

    let chosen = select_kind(None, &caps(true), &ctx);

    assert_eq!(chosen, DiarizerKind::PyannoteOnnx);
}

#[test]
fn test_select_kind_auto_routes_single_channel_to_pyannote() {
    let ctx = MeetingContext::default();

    let chosen = select_kind(None, &caps(false), &ctx);

    assert_eq!(chosen, DiarizerKind::PyannoteOnnx);
}

#[test]
fn test_select_kind_auto_routes_one_on_one_to_binary_channel() {
    let ctx = MeetingContext { attendees: vec!["me".into(), "them".into()], ..MeetingContext::default() };

    let chosen = select_kind(None, &caps(true), &ctx);

    assert_eq!(chosen, DiarizerKind::BinaryChannel);
}

#[test]
fn test_select_kind_auto_routes_solo_session_to_binary_channel() {
    let chosen = select_kind(None, &caps(true), &MeetingContext::default());

    assert_eq!(chosen, DiarizerKind::BinaryChannel);
}

struct StubBackend {
    clusters: Vec<SpeakerCluster>,
}

impl PyannoteBackend for StubBackend {
    fn cluster(&self, _mic: &[TranscriptChunk], _sys: &[TranscriptChunk]) -> Result<Vec<SpeakerCluster>, CoreError> {
        Ok(self.clusters.clone())
    }
}

#[test]
fn test_pyannote_onnx_config_default_label_is_3_1() {
    let cfg = PyannoteOnnxConfig::new("/models/pyannote".to_string());

    assert_eq!(cfg.model_label, "3.1");
}

#[test]
fn test_pyannote_onnx_diarizer_name_includes_model_label() {
    let diarizer = PyannoteOnnxDiarizer::with_backend(StubBackend { clusters: vec![] }, "3.1");

    assert_eq!(diarizer.name(), "pyannote-onnx:3.1");
}

#[test]
fn test_pyannote_diarize_routes_chunks_to_clusters_by_temporal_overlap() {
    let backend = StubBackend {
        clusters: vec![
            SpeakerCluster { cluster_index: 0, spans_ms: vec![(0, 2_000)] },
            SpeakerCluster { cluster_index: 1, spans_ms: vec![(2_000, 4_000)] },
        ],
    };
    let diarizer = PyannoteOnnxDiarizer::with_backend(backend, "3.1");
    let mic = vec![td("Hi.", FrameSource::Mic, 100, 500)];
    let sys = vec![td("Hello.", FrameSource::System, 2_500, 800)];

    let attributed = diarizer.diarize(&mic, &sys, &MeetingContext::default()).unwrap();

    assert_eq!(attributed.len(), 2);
    assert_eq!(attributed[0].chunk.text, "Hi.");
    assert_eq!(attributed[0].speaker, SpeakerLabel::Named("Speaker 1".into()));
    assert_eq!(attributed[1].chunk.text, "Hello.");
    assert_eq!(attributed[1].speaker, SpeakerLabel::Named("Speaker 2".into()));
}

#[test]
fn test_pyannote_diarize_maps_cluster_indices_onto_attendee_names_when_available() {
    let backend = StubBackend {
        clusters: vec![
            SpeakerCluster { cluster_index: 0, spans_ms: vec![(0, 1_000)] },
            SpeakerCluster { cluster_index: 1, spans_ms: vec![(1_000, 2_000)] },
        ],
    };
    let diarizer = PyannoteOnnxDiarizer::with_backend(backend, "3.1");
    let ctx = MeetingContext { attendees: vec!["Alex".into(), "Sam".into()], ..MeetingContext::default() };
    let mic = vec![td("First.", FrameSource::Mic, 100, 500)];
    let sys = vec![td("Second.", FrameSource::System, 1_200, 500)];

    let attributed = diarizer.diarize(&mic, &sys, &ctx).unwrap();

    assert_eq!(attributed[0].speaker, SpeakerLabel::Named("Alex".into()));
    assert_eq!(attributed[1].speaker, SpeakerLabel::Named("Sam".into()));
}

#[test]
fn test_pyannote_diarize_falls_back_to_speaker_n_when_attendee_list_is_short() {
    let diarizer = PyannoteOnnxDiarizer::with_backend(
        StubBackend { clusters: vec![SpeakerCluster { cluster_index: 2, spans_ms: vec![(0, 1_000)] }] },
        "3.1",
    );
    let ctx = MeetingContext { attendees: vec!["Alex".into(), "Sam".into()], ..MeetingContext::default() };

    let attributed = diarizer.diarize(&[td("Hi.", FrameSource::Mic, 100, 500)], &[], &ctx).unwrap();

    assert_eq!(attributed[0].speaker, SpeakerLabel::Named("Speaker 3".into()));
}

#[test]
fn test_pyannote_diarize_emits_unknown_when_no_cluster_overlaps() {
    let diarizer = PyannoteOnnxDiarizer::with_backend(
        StubBackend { clusters: vec![SpeakerCluster { cluster_index: 0, spans_ms: vec![(10_000, 11_000)] }] },
        "3.1",
    );

    let attributed =
        diarizer.diarize(&[td("Stranded.", FrameSource::Mic, 100, 500)], &[], &MeetingContext::default()).unwrap();

    assert_eq!(attributed[0].speaker, SpeakerLabel::Unknown);
}

#[test]
fn test_pyannote_diarize_sorts_merged_chunks_by_start_ms() {
    let clusters = vec![SpeakerCluster { cluster_index: 0, spans_ms: vec![(0, 10_000)] }];
    let mic = vec![td("Mic late.", FrameSource::Mic, 5_000, 500), td("Mic early.", FrameSource::Mic, 1_000, 500)];
    let sys = vec![td("Sys early.", FrameSource::System, 0, 500), td("Sys mid.", FrameSource::System, 3_000, 500)];

    let attributed = attribute_chunks(&mic, &sys, &clusters, &MeetingContext::default());

    let texts: Vec<&str> = attributed.iter().map(|a| a.chunk.text.as_str()).collect();
    assert_eq!(texts, vec!["Sys early.", "Mic early.", "Sys mid.", "Mic late."]);
}

#[test]
fn test_pyannote_onnx_diarizer_new_live_rejects_partial_model_path() {
    let cfg = PyannoteOnnxConfig::new("/models/pyannote.partial".to_string());

    let Err(err) = PyannoteOnnxDiarizer::new_live(cfg) else {
        panic!("expected an error");
    };

    match err {
        CoreError::Pipeline(PipelineError::DiarizerUnavailable { reason }) => {
            assert!(reason.contains("partial"), "reason should mention partial download: {reason}");
        }
        other => panic!("expected DiarizerUnavailable, got {other:?}"),
    }
}

#[test]
fn test_pyannote_onnx_diarizer_new_live_errors_when_feature_disabled() {
    let cfg = PyannoteOnnxConfig::new("/models/pyannote".to_string());

    let Err(err) = PyannoteOnnxDiarizer::new_live(cfg) else {
        panic!("expected an error");
    };

    match err {
        CoreError::Pipeline(PipelineError::DiarizerUnavailable { reason }) => {
            assert!(reason.contains("diarize-pyannote"), "reason should name the cargo feature: {reason}");
        }
        other => panic!("expected DiarizerUnavailable, got {other:?}"),
    }
}

#[test]
fn live_backend_cluster_reports_pending_binding() {
    let backend = LivePyannoteBackend { model_path: "/models/pyannote".to_string() };
    let err = backend.cluster(&[], &[]).unwrap_err();
    assert!(matches!(err, CoreError::Pipeline(PipelineError::DiarizerUnavailable { .. })));
}

#[test]
fn pyannote_onnx_test_is_partial_helper_matches_partial_extension_case_insensitive() {
    assert!(is_partial("/models/foo.partial"));
    assert!(is_partial("/models/foo.PARTIAL"));
    assert!(!is_partial("/models/foo"));
    assert!(!is_partial("/models/foo.bin"));
}

#[test]
fn test_speaker_cluster_round_trips_via_clone_and_eq() {
    let cluster = SpeakerCluster { cluster_index: 1, spans_ms: vec![(100, 200), (300, 400)] };

    assert_eq!(cluster.clone(), cluster);
}
