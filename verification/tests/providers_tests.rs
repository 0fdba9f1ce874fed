use std::time::Duration;

use scrybe_core::error::SttError;
use scrybe_core::providers::openai_compat_stt::{
    endpoint, is_transient_status, sends_api_key, sends_language, OpenAiCompatSttConfig,
};
use scrybe_core::providers::parakeet_local::{ParakeetLocalConfig, ParakeetLocalProvider};
use scrybe_core::providers::retry::{retry_step, RetryOutcome, RetryPolicy, RetryStep};
use scrybe_core::providers::sherpa_streaming::{
    SherpaStreamingConfig, SherpaStreamingProvider, MODEL_LABEL,
};
use scrybe_core::providers::whisper_local::{
    derive_model_label, WhisperLocalConfig, WhisperLocalProvider,
};
use scrybe_core::paths::is_partial;
use scrybe_core::error::LlmError;
use scrybe_core::providers::openai_compat_llm::{ chat_endpoint, completion_error, completion_outcome, send_failure, status_failure, };
use scrybe_core::providers::retry::RetryFailure;
use scrybe_core::providers::openai_compat_stt::wav_header;

#[test]
fn test_whisper_local_provider_name_includes_model_label() {
    let provider = WhisperLocalProvider::new(WhisperLocalConfig::new(
        "/models/large-v3-turbo.gguf".to_string(),
    ))
    .unwrap();

    assert_eq!(provider.name(), "whisper-local:large-v3-turbo");
}

#[test]
fn test_whisper_local_provider_name_reflects_actual_model_file() {
    let provider = WhisperLocalProvider::new(WhisperLocalConfig::new(
        "/Users/druk/Library/Application Support/scrybe/models/ggml-base.en.bin".to_string(),
    ))
    .unwrap();

    assert_eq!(provider.name(), "whisper-local:ggml-base.en");
}

#[test]
fn test_derive_model_label_handles_pathological_inputs() {
    assert_eq!(derive_model_label("foo.bin"), "foo");
    assert_eq!(derive_model_label("foo.en.bin"), "foo.en");
    assert_eq!(derive_model_label("/abs/foo.bin"), "foo");
    assert_eq!(derive_model_label("noext"), "noext");
    assert_eq!(derive_model_label(""), "unknown");
}

#[test]
fn test_whisper_local_provider_rejects_partial_model_file() {
    let err = WhisperLocalProvider::new(WhisperLocalConfig::new(
        "/models/large-v3-turbo.partial".to_string(),
    ))
    .unwrap_err();

    assert!(matches!(err, SttError::ModelCorrupt { .. }));
}

#[test]
fn whisper_local_test_is_partial_helper_matches_partial_extension_case_insensitive() {
    assert!(is_partial("/models/foo.partial"));
    assert!(is_partial("/models/foo.PARTIAL"));
    assert!(!is_partial("/models/foo.gguf"));
    assert!(!is_partial("/models/foo.bin"));
}

#[test]
fn whisper_transcription_reports_missing_feature() {
    let provider =
        WhisperLocalProvider::new(WhisperLocalConfig::new("/models/large-v3-turbo.gguf".to_string()))
            .unwrap();
    let err = provider.transcribe_error();
    assert!(err.to_string().contains("whisper-local"));
    assert!(err.to_string().contains("/models/large-v3-turbo.gguf"));
}

#[test]
fn test_parakeet_local_provider_name_includes_model_label() {
    let provider =
        ParakeetLocalProvider::new(ParakeetLocalConfig::new("/models/parakeet-tdt-v2".to_string()))
            .unwrap();

    assert_eq!(provider.name(), "parakeet-local:tdt-v2");
}

#[test]
fn test_parakeet_local_provider_rejects_partial_model_path() {
    let err = ParakeetLocalProvider::new(ParakeetLocalConfig::new(
        "/models/parakeet-tdt-v2.partial".to_string(),
    ))
    .unwrap_err();

    assert!(matches!(err, SttError::ModelCorrupt { .. }));
}

#[test]
fn test_parakeet_local_config_default_label_is_tdt_v2() {
    let config = ParakeetLocalConfig::new("/models/parakeet-tdt-v2".to_string());

    assert_eq!(config.model_label, "tdt-v2");
}

#[test]
fn parakeet_local_test_is_partial_helper_matches_partial_extension_case_insensitive() {
    assert!(is_partial("/models/foo.partial"));
    assert!(is_partial("/models/foo.PARTIAL"));
    assert!(!is_partial("/models/foo"));
    assert!(!is_partial("/models/foo.bin"));
}

#[test]
fn parakeet_transcription_reports_missing_feature() {
    let provider =
        ParakeetLocalProvider::new(ParakeetLocalConfig::new("/models/parakeet-tdt-v2".to_string()))
            .unwrap();
    assert!(provider.transcribe_error().to_string().contains("parakeet-local"));
}

#[test]
fn test_sherpa_streaming_config_uses_pinned_model_label() {
    let config = SherpaStreamingConfig::new("/models/zipformer".to_string());

    assert_eq!(config.model_label, MODEL_LABEL);
    assert_eq!(config.num_threads, 2);
}

#[test]
fn test_provider_rejects_requested_model_without_feature() {
    let Err(error) = SherpaStreamingProvider::new(SherpaStreamingConfig::new(
        "/models/zipformer".to_string(),
    )) else {
        panic!("missing feature must reject the requested model");
    };

    assert!(matches!(error, SttError::ModelNotLoaded(_)));
    assert!(error.to_string().contains("stt-sherpa"));
}

#[test]
fn test_retry_policy_default_matches_system_design_section_8_2() {
    let p = RetryPolicy::default();

    assert_eq!(p.max_attempts, 3);
    assert_eq!(p.initial_backoff_ms, 500);
    assert_eq!(p.max_backoff_ms, 8_000);
}

#[test]
fn test_retry_policy_backoff_doubles_per_attempt_until_ceiling() {
    let p = RetryPolicy::default();

    assert_eq!(p.backoff_for(1), Duration::from_millis(500));
    assert_eq!(p.backoff_for(2), Duration::from_millis(1_000));
    assert_eq!(p.backoff_for(3), Duration::from_millis(2_000));
    assert_eq!(p.backoff_for(4), Duration::from_millis(4_000));
    assert_eq!(p.backoff_for(5), Duration::from_millis(8_000));
    assert_eq!(p.backoff_for(6), Duration::from_millis(8_000));
}

#[test]
fn test_retry_policy_backoff_attempt_zero_treated_as_initial() {
    let p = RetryPolicy::default();

    assert_eq!(p.backoff_for(0), Duration::from_millis(500));
}

#[test]
fn backoff_shift_is_capped_at_31_doublings() {
    let p = RetryPolicy { max_attempts: 3, initial_backoff_ms: 1, max_backoff_ms: u32::MAX };
    assert_eq!(p.backoff_millis(32), 1u64 << 31);
    assert_eq!(p.backoff_millis(1_000), 1u64 << 31);
    let big = RetryPolicy { max_attempts: 3, initial_backoff_ms: 10_000, max_backoff_ms: 8_000 };
    assert_eq!(big.backoff_millis(1), 8_000);
    assert_eq!(big.backoff_millis(2), 8_000);
    assert_eq!(big.backoff_for(1), Duration::from_millis(8_000));
}

#[test]
fn test_retry_with_policy_returns_ok_immediately_on_first_success() {
    let step = retry_step::<u32, &str>(RetryPolicy::default(), 1, RetryOutcome::Success(7));
    assert!(matches!(step, RetryStep::Done(Ok(7))));
}

#[test]
fn test_retry_with_policy_permanent_error_short_circuits_after_one_attempt() {
    let step = retry_step::<(), &str>(RetryPolicy::default(), 1, RetryOutcome::Permanent("no"));
    match step {
        RetryStep::Done(Err(f)) => {
            assert_eq!(f.attempts, 1);
            assert!(f.permanent);
            assert_eq!(f.last_error, "no");
        }
        other => panic!("unexpected step {other:?}"),
    }
}

#[test]
fn test_retry_with_policy_exhausts_budget_on_repeated_transient_errors() {
    let p = RetryPolicy::default();
    let mut attempt = 1;
    loop {
        match retry_step::<(), u32>(p, attempt, RetryOutcome::Transient(attempt)) {
            RetryStep::Sleep { backoff, next_attempt } => {
                assert_eq!(backoff, p.backoff_for(attempt));
                attempt = next_attempt;
            }
            RetryStep::Done(r) => {
                let f = r.unwrap_err();
                assert_eq!(f.attempts, 3);
                assert_eq!(f.last_error, 3);
                assert!(!f.permanent);
                break;
            }
        }
    }
    assert_eq!(attempt, 3);
}

#[test]
fn test_retry_with_policy_succeeds_after_one_transient_failure() {
    let p = RetryPolicy::default();
    let first = retry_step::<u32, &str>(p, 1, RetryOutcome::Transient("busy"));
    assert!(matches!(first, RetryStep::Sleep { next_attempt: 2, .. }));
    let second = retry_step::<u32, &str>(p, 2, RetryOutcome::Success(9));
    assert!(matches!(second, RetryStep::Done(Ok(9))));
}

#[test]
fn openai_stt_defaults_and_endpoint() {
    let c = OpenAiCompatSttConfig::default();
    assert_eq!(c.language, "auto");
    assert_eq!(c.display_name, "openai-compat");
    assert_eq!(c.timeout_ms, 60_000);
    assert_eq!(endpoint("https://api.groq.com/openai/v1"), "https://api.groq.com/openai/v1/audio/transcriptions");
    assert_eq!(endpoint("http://h/v1//"), "http://h/v1/audio/transcriptions");
}

#[test]
fn openai_stt_transient_statuses() {
    for s in [408u16, 425, 429, 500, 503, 599] {
        assert!(is_transient_status(s), "{s}");
    }
    for s in [400u16, 401, 404, 600, 200] {
        assert!(!is_transient_status(s), "{s}");
    }
    assert!(!sends_language("auto"));
    assert!(sends_language("en"));
    assert!(!sends_api_key(""));
    assert!(sends_api_key("k"));
}

#[test]
fn llm_request_decisions() {
    assert_eq!(chat_endpoint("http://localhost:11434/v1//"), "http://localhost:11434/v1/chat/completions");
    assert!(matches!(completion_outcome(Some("hi".to_string())), RetryOutcome::Success(s) if s == "hi"));
    assert!(matches!(
        completion_outcome(None),
        RetryOutcome::Permanent(LlmError::Transport(m)) if m == "upstream returned 200 with empty choices array"
    ));
    assert!(matches!(status_failure::<String>(429), RetryOutcome::Transient(LlmError::ProviderStatus { status: 429 })));
    assert!(matches!(status_failure::<String>(401), RetryOutcome::Permanent(LlmError::ProviderStatus { status: 401 })));
    assert!(matches!(send_failure::<String>(true, false, "t".to_string()), RetryOutcome::Transient(_)));
    assert!(matches!(send_failure::<String>(false, false, "t".to_string()), RetryOutcome::Permanent(_)));
    let f = RetryFailure { attempts: 3, last_error: LlmError::ProviderStatus { status: 503 }, permanent: false };
    assert!(matches!(completion_error(f), LlmError::RetriesExhausted { attempts: 3 }));
}

#[test]
fn stt_wav_header_layout() {
    let h = wav_header(16_000);
    assert_eq!(h.len(), 44);
    assert_eq!(&h[0..4], b"RIFF");
    assert_eq!(u32::from_le_bytes([h[4], h[5], h[6], h[7]]), 36 + 32_000);
    assert_eq!(&h[8..16], b"WAVEfmt ");
    assert_eq!(u32::from_le_bytes([h[24], h[25], h[26], h[27]]), 16_000);
    assert_eq!(u32::from_le_bytes([h[28], h[29], h[30], h[31]]), 32_000);
    assert_eq!(&h[36..40], b"data");
    assert_eq!(u32::from_le_bytes([h[40], h[41], h[42], h[43]]), 32_000);
}

#[test]
fn token_timings_pair_tokens_with_offsets() {
    use_token_timings();
}

fn use_token_timings() {
    let tokens = vec!["hel".to_string(), "lo".to_string()];
    let out = scrybe_core::providers::streaming::token_timings(&tokens, Some(vec![0, 250]), 1_000).unwrap();
    assert_eq!(out.len(), 2);
    assert_eq!(out[1].token, "lo");
    assert_eq!(out[1].timestamp_ms, 1_250);
    let sat = scrybe_core::providers::streaming::token_timings(&tokens, Some(vec![u64::MAX, 1]), 5).unwrap();
    assert_eq!(sat[0].timestamp_ms, u64::MAX);
    let err = scrybe_core::providers::streaming::token_timings(&tokens, None, 0).unwrap_err();
    assert_eq!(err.to_string(), "decoding: recognizer returned 2 tokens with no timestamps");
    let err = scrybe_core::providers::streaming::token_timings(&tokens, Some(vec![1]), 0).unwrap_err();
    assert!(err.to_string().contains("recognizer returned 2 tokens but 1 timestamps"));
    assert!(scrybe_core::providers::streaming::token_timings(&Vec::new(), None, 0).unwrap().is_empty());
}

fn token_list(values: &[&str]) -> Vec<String> {
    values.iter().map(|v| (*v).to_string()).collect()
}

#[test]
fn test_token_timings_offsets_stream_relative_seconds_to_session_absolute() {
    // 0.08 s, 0.24 s and 0.6 s after the segment start, in milliseconds.
    let timings = scrybe_core::providers::streaming::token_timings(
        &token_list(&["▁hel", "lo", "▁there"]),
        Some(vec![80, 240, 600]),
        12_000,
    )
    .unwrap();
    let pairs: Vec<(String, u64)> = timings
        .into_iter()
        .map(|t| (t.token, t.timestamp_ms))
        .collect();
    assert_eq!(
        pairs,
        vec![
            ("▁hel".to_string(), 12_080),
            ("lo".to_string(), 12_240),
            ("▁there".to_string(), 12_600),
        ]
    );
}

#[test]
fn test_token_timings_rejects_cardinality_mismatch() {
    let error = scrybe_core::providers::streaming::token_timings(
        &token_list(&["a", "b", "c"]),
        Some(vec![100, 200]),
        0,
    )
    .unwrap_err()
    .to_string();
    assert!(
        error.contains("3 tokens but 2 timestamps"),
        "unexpected error: {error}"
    );
}

#[test]
fn test_token_timings_rejects_tokens_without_timestamps() {
    let error = scrybe_core::providers::streaming::token_timings(&token_list(&["a"]), None, 0)
        .unwrap_err()
        .to_string();
    assert!(
        error.contains("1 tokens with no timestamps"),
        "unexpected error: {error}"
    );
}

#[test]
fn test_token_timings_allows_empty_result_without_timestamps() {
    let timings = scrybe_core::providers::streaming::token_timings(&Vec::new(), None, 5_000).unwrap();
    assert!(timings.is_empty());
}
