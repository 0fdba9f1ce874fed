use scrybe_core::config::{
    classify_toml_error, line_of_byte, validate_schema_version, AndroidConfig, Config,
    DiarizerConfig, LinuxConfig, WindowsConfig, CURRENT_SCHEMA_VERSION,
    DIARIZER_KIND_BINARY_CHANNEL, DIARIZER_KIND_PYANNOTE_ONNX, RECORD_LLM_STUB,
    RECORD_SOURCE_SYNTHETIC,
};
use scrybe_core::error::ConfigError;
use scrybe_core::types::ConsentMode;
use scrybe_core::diarize::kind::{
    DIARIZER_KIND_BINARY_CHANNEL as KIND_BC, DIARIZER_KIND_PYANNOTE_ONNX as KIND_PY,
};

#[test]
fn test_config_default_uses_documented_v0_1_provider_choices() {
    let c = Config::default();

    assert_eq!(c.schema_version, CURRENT_SCHEMA_VERSION);
    assert_eq!(c.stt.provider, "whisper-local");
    assert_eq!(c.stt.model, "large-v3-turbo");
    assert_eq!(c.llm.provider, "ollama");
    assert_eq!(c.llm.base_url, "http://localhost:11434/v1");
    assert_eq!(c.storage.audio_format, "opus");
    assert_eq!(c.storage.audio_bitrate_kbps, 32);
    assert!(c.capture.system_audio);
    assert_eq!(c.record.source, RECORD_SOURCE_SYNTHETIC);
    assert_eq!(c.record.llm, RECORD_LLM_STUB);
    assert_eq!(c.record.whisper_model, None);
}

#[test]
fn test_line_of_byte_counts_newlines_to_produce_1_indexed_line_number() {
    let text = "first\nsecond\nthird\n";

    assert_eq!(line_of_byte(text, 0), 1);
    assert_eq!(line_of_byte(text, 5), 1);
    assert_eq!(line_of_byte(text, 6), 2);
    assert_eq!(line_of_byte(text, 13), 3);
    assert_eq!(line_of_byte(text, 9_999), 4);
}

#[test]
fn test_config_rejects_future_schema_version() {
    let parsed = Config { schema_version: CURRENT_SCHEMA_VERSION + 1, ..Config::default() };

    let err = parsed.check_schema().unwrap_err();

    assert!(matches!(
        err,
        ConfigError::UnsupportedSchemaVersion { found, target }
            if found == CURRENT_SCHEMA_VERSION + 1 && target == CURRENT_SCHEMA_VERSION
    ));
}

#[test]
fn test_config_accepts_current_schema_version() {
    let parsed = Config { schema_version: CURRENT_SCHEMA_VERSION, ..Config::default() };

    let c = parsed.check_schema().unwrap();

    assert_eq!(c.schema_version, CURRENT_SCHEMA_VERSION);
}

#[test]
fn test_config_default_includes_empty_context_and_default_consent_mode() {
    let c = Config::default();

    assert!(c.context.sources.is_empty());
    assert!(c.context.ics_path.is_none());
    assert!(c.hooks.webhook.is_none());
    assert_eq!(c.consent.default_mode, ConsentMode::Quick);
}

#[test]
fn test_linux_config_default_audio_backend_is_auto() {
    let c = LinuxConfig::default();

    assert_eq!(c.audio_backend, "auto");
}

#[test]
fn test_config_default_includes_linux_block_with_auto_backend() {
    let c = Config::default();

    assert_eq!(c.linux.audio_backend, "auto");
}

#[test]
fn test_linux_config_validated_backend_accepts_canonical_values() {
    for value in ["auto", "pipewire", "pulse"] {
        let cfg = LinuxConfig { audio_backend: value.to_string() };

        assert_eq!(cfg.validated_backend(), Some(value));
    }
}

#[test]
fn test_linux_config_validated_backend_returns_none_for_unknown_value() {
    let cfg = LinuxConfig { audio_backend: "alsa".to_string() };

    assert!(cfg.validated_backend().is_none());
}

#[test]
fn test_linux_config_validated_backend_returns_none_for_empty_string() {
    let cfg = LinuxConfig { audio_backend: String::new() };

    assert!(cfg.validated_backend().is_none());
}

#[test]
fn test_linux_config_validated_backend_is_case_sensitive() {
    let cfg = LinuxConfig { audio_backend: "PipeWire".to_string() };

    assert!(cfg.validated_backend().is_none());
}

#[test]
fn test_windows_config_default_audio_backend_is_auto() {
    let c = WindowsConfig::default();

    assert_eq!(c.audio_backend, "auto");
}

#[test]
fn test_config_default_includes_windows_block_with_auto_backend() {
    let c = Config::default();

    assert_eq!(c.windows.audio_backend, "auto");
}

#[test]
fn test_windows_config_validated_backend_accepts_canonical_values() {
    for value in ["auto", "wasapi-loopback", "wasapi-process-loopback"] {
        let cfg = WindowsConfig { audio_backend: value.to_string() };

        assert_eq!(cfg.validated_backend(), Some(value));
    }
}

#[test]
fn test_windows_config_validated_backend_returns_none_for_unknown_value() {
    let cfg = WindowsConfig { audio_backend: "wasapi".to_string() };

    assert!(cfg.validated_backend().is_none());
}

#[test]
fn test_windows_config_validated_backend_returns_none_for_empty_string() {
    let cfg = WindowsConfig { audio_backend: String::new() };

    assert!(cfg.validated_backend().is_none());
}

#[test]
fn test_windows_config_validated_backend_is_case_sensitive() {
    let cfg = WindowsConfig { audio_backend: "WASAPI-Loopback".to_string() };

    assert!(cfg.validated_backend().is_none());
}

#[test]
fn test_android_config_default_audio_backend_is_auto() {
    let c = AndroidConfig::default();

    assert_eq!(c.audio_backend, "auto");
}

#[test]
fn test_config_default_includes_android_block_with_auto_backend() {
    let c = Config::default();

    assert_eq!(c.android.audio_backend, "auto");
}

#[test]
fn test_android_config_validated_backend_accepts_canonical_values() {
    for value in ["auto", "media-projection", "mic-only"] {
        let cfg = AndroidConfig { audio_backend: value.to_string() };

        assert_eq!(cfg.validated_backend(), Some(value));
    }
}

#[test]
fn test_android_config_validated_backend_returns_none_for_unknown_value() {
    let cfg = AndroidConfig { audio_backend: "system".to_string() };

    assert!(cfg.validated_backend().is_none());
}

#[test]
fn test_android_config_validated_backend_returns_none_for_empty_string() {
    let cfg = AndroidConfig { audio_backend: String::new() };

    assert!(cfg.validated_backend().is_none());
}

#[test]
fn test_android_config_validated_backend_is_case_sensitive() {
    let cfg = AndroidConfig { audio_backend: "Media-Projection".to_string() };

    assert!(cfg.validated_backend().is_none());
}

#[test]
fn test_diarizer_config_default_kind_is_auto() {
    let c = DiarizerConfig::default();

    assert_eq!(c.kind, "auto");
    assert!(c.is_auto());
}

#[test]
fn test_config_default_includes_diarizer_block_with_auto_kind() {
    let c = Config::default();

    assert_eq!(c.diarizer.kind, "auto");
}

#[test]
fn test_diarizer_config_validated_kind_accepts_canonical_values() {
    for value in ["auto", "binary-channel", "pyannote-onnx"] {
        let cfg = DiarizerConfig { kind: value.to_string() };

        assert_eq!(cfg.validated_kind(), Some(value));
    }
}

#[test]
fn test_diarizer_config_validated_kind_returns_none_for_unknown_value() {
    let cfg = DiarizerConfig { kind: "neural".to_string() };

    assert!(cfg.validated_kind().is_none());
}

#[test]
fn test_diarizer_config_validated_kind_returns_none_for_empty_string() {
    let cfg = DiarizerConfig { kind: String::new() };

    assert!(cfg.validated_kind().is_none());
}

#[test]
fn test_diarizer_config_validated_kind_is_case_sensitive() {
    let cfg = DiarizerConfig { kind: "Pyannote-Onnx".to_string() };

    assert!(cfg.validated_kind().is_none());
}

#[test]
fn test_diarizer_config_kind_constants_match_diarize_module_constants() {

    assert_eq!(DIARIZER_KIND_BINARY_CHANNEL, KIND_BC);
    assert_eq!(DIARIZER_KIND_PYANNOTE_ONNX, KIND_PY);
}

#[test]
fn diarizer_is_auto_only_for_the_sentinel() {
    assert!(!DiarizerConfig { kind: "binary-channel".to_string() }.is_auto());
    assert!(!DiarizerConfig { kind: "Auto".to_string() }.is_auto());
}

#[test]
fn schema_version_gate_accepts_older_and_rejects_newer() {
    assert!(validate_schema_version(0).is_ok());
    assert!(validate_schema_version(CURRENT_SCHEMA_VERSION).is_ok());
    assert_eq!(
        validate_schema_version(7),
        Err(ConfigError::UnsupportedSchemaVersion { found: 7, target: CURRENT_SCHEMA_VERSION })
    );
}

#[test]
fn unknown_field_message_becomes_unknown_key_with_line() {
    let text = "schema_version = 1\nbogus = 3\n";
    let err = classify_toml_error(
        "unknown field `bogus`, expected one of `schema_version`, `storage`",
        Some(19),
        "/tmp/scrybe/config.toml",
        text,
    );

    assert_eq!(err, ConfigError::UnknownKey { key: "bogus".to_string(), line: 2 });
}

#[test]
fn unknown_field_without_span_reports_line_one() {
    let err = classify_toml_error("unknown field `x`", None, "/c.toml", "");

    assert_eq!(err, ConfigError::UnknownKey { key: "x".to_string(), line: 1 });
}

#[test]
fn other_parse_messages_keep_path_and_message() {
    let err = classify_toml_error("invalid type: string", Some(3), "/c.toml", "a = \"b\"");

    assert_eq!(
        err,
        ConfigError::Parse { path: "/c.toml".to_string(), message: "invalid type: string".to_string() }
    );
    let unterminated = classify_toml_error("unknown field `oops", None, "/c.toml", "");
    assert!(matches!(unterminated, ConfigError::Parse { .. }));
}
