use std::path::Path;

use scrybe_core::config::{
    RecordConfig, RECORD_LLM_OPENAI_COMPAT, RECORD_LLM_STUB, RECORD_SOURCE_MIC,
    RECORD_SOURCE_MIC_SYSTEM, RECORD_SOURCE_SYNTHETIC,
};
use scrybe_core::record_defaults::{
    ergonomic_llm, ergonomic_source, ergonomic_whisper_model, platform_default_source,
};

const ON_MACOS: bool = false;

fn existing_default() -> Option<String> {
    let candidate = "/nonexistent/scrybe/models/ggml-medium.en.bin";
    if Path::new(candidate).exists() {
        Some(candidate.to_string())
    } else {
        None
    }
}

#[test]
fn test_ergonomic_whisper_model_returns_explicit_config_value() {
    let cfg = RecordConfig { whisper_model: Some("/explicit/path/model.bin".to_string()), ..RecordConfig::default() };

    assert_eq!(ergonomic_whisper_model(&cfg, existing_default).as_deref(), Some("/explicit/path/model.bin"));
}

#[test]
fn test_ergonomic_whisper_model_returns_none_or_existing_path_when_unset() {
    let cfg = RecordConfig { whisper_model: None, ..RecordConfig::default() };

    if let Some(path) = ergonomic_whisper_model(&cfg, existing_default) {
        assert!(Path::new(&path).exists(), "resolver returned non-existent path {path:?}");
    }
}

#[test]
fn test_ergonomic_source_honors_explicit_mic_system() {
    let cfg = RecordConfig { source: RECORD_SOURCE_MIC_SYSTEM.to_string(), ..RecordConfig::default() };

    assert_eq!(ergonomic_source(&cfg, ON_MACOS), RECORD_SOURCE_MIC_SYSTEM);
}

#[test]
fn test_ergonomic_source_honors_explicit_mic() {
    let cfg = RecordConfig { source: RECORD_SOURCE_MIC.to_string(), ..RecordConfig::default() };

    assert_eq!(ergonomic_source(&cfg, ON_MACOS), RECORD_SOURCE_MIC);
}

#[test]
fn test_ergonomic_source_falls_back_to_platform_default_for_synthetic() {
    let cfg = RecordConfig { source: RECORD_SOURCE_SYNTHETIC.to_string(), ..RecordConfig::default() };

    assert_eq!(ergonomic_source(&cfg, ON_MACOS), platform_default_source(ON_MACOS));
}

#[test]
fn test_ergonomic_source_falls_back_to_platform_default_for_unknown_value() {
    let cfg = RecordConfig { source: "garbage-value".to_string(), ..RecordConfig::default() };

    assert_eq!(ergonomic_source(&cfg, ON_MACOS), platform_default_source(ON_MACOS));
}

#[test]
fn test_platform_default_source_matches_target_os() {
    assert_eq!(platform_default_source(true), RECORD_SOURCE_MIC_SYSTEM);
    assert_eq!(platform_default_source(false), RECORD_SOURCE_MIC);
}

#[test]
fn test_ergonomic_llm_honors_explicit_openai_compat() {
    let cfg = RecordConfig { llm: RECORD_LLM_OPENAI_COMPAT.to_string(), ..RecordConfig::default() };

    assert_eq!(ergonomic_llm(&cfg, || panic!("probe must not run for an explicit choice")), RECORD_LLM_OPENAI_COMPAT);
}

#[test]
fn test_ergonomic_llm_returns_validated_value_on_stub_with_probe_outcome() {
    let cfg = RecordConfig { llm: RECORD_LLM_STUB.to_string(), ..RecordConfig::default() };

    let result = ergonomic_llm(&cfg, || false);

    assert!(
        result == RECORD_LLM_STUB || result == RECORD_LLM_OPENAI_COMPAT,
        "ergonomic_llm returned unexpected value: {result:?}"
    );
    assert_eq!(ergonomic_llm(&cfg, || true), RECORD_LLM_OPENAI_COMPAT);
    assert_eq!(ergonomic_llm(&cfg, || false), RECORD_LLM_STUB);
}
