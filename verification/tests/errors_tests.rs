use scrybe_core::error::{
    CaptureError, ConfigError, ConsentError, CoreError, HookError, PipelineError, StorageError,
    SttError,
};

#[test]
fn test_core_error_capture_variant_renders_via_display_chain() {
    let inner = CaptureError::PermissionDenied("Screen Recording".into());
    let core: CoreError = inner.into();

    assert_eq!(core.to_string(), "capture: permission denied: Screen Recording");
}

#[test]
fn test_core_error_stt_variant_includes_attempt_count() {
    let inner = SttError::RetriesExhausted { attempts: 3 };
    let core: CoreError = inner.into();

    assert_eq!(core.to_string(), "speech-to-text: retry budget exhausted after 3 attempts");
}

#[test]
fn test_core_error_storage_io_promotion_carries_source() {
    let storage = StorageError::Io("truncated".to_string());
    let core: CoreError = storage.into();

    assert!(core.to_string().starts_with("storage: io:"));
    assert!(core.to_string().contains("truncated"));
}

#[test]
fn test_capture_error_device_changed_includes_both_device_names() {
    let err = CaptureError::DeviceChanged { was: "MacBook Pro Microphone".into(), now: "AirPods Pro".into() };

    let rendered = err.to_string();

    assert!(rendered.contains("MacBook Pro Microphone"));
    assert!(rendered.contains("AirPods Pro"));
}

#[test]
fn test_capture_error_platform_preserves_inner_source() {
    let err = CaptureError::Platform("kAudioHardwareUnknownPropertyError".to_string());

    assert!(err.to_string().contains("platform API error"));
    assert!(err.to_string().contains("kAudioHardwareUnknownPropertyError"));
}

#[test]
fn test_storage_error_atomic_rename_displays_path_and_chains_source() {
    let err = StorageError::AtomicRename { path: "/var/scrybe/notes.md".to_string(), source: "EACCES".to_string() };

    assert!(err.to_string().contains("/var/scrybe/notes.md"));
}

#[test]
fn test_config_error_unknown_key_includes_line_number() {
    let err = ConfigError::UnknownKey { key: "stt.weight".into(), line: 42 };

    assert_eq!(err.to_string(), "unknown config key stt.weight (line 42)");
}

#[test]
fn test_consent_error_attestation_write_failed_chains_storage_error() {
    let storage_err = StorageError::DiskFull { path: "/var/scrybe/sess/meta.toml".to_string() };
    let err = ConsentError::AttestationWriteFailed(storage_err);

    assert!(err.to_string().contains("attestation could not be written"));
}

#[test]
fn test_hook_error_timeout_renders_milliseconds() {
    let err = HookError::Timeout { timeout_ms: 30_000 };

    assert_eq!(err.to_string(), "hook timed out after 30000 ms");
}

#[test]
fn test_pipeline_error_resample_includes_source_rate() {
    let err = PipelineError::Resample { source_rate: 44_100 };

    assert_eq!(err.to_string(), "resample failed: source rate 44100 Hz");
}

#[test]
fn test_pipeline_error_diarizer_unavailable_renders_reason_in_display() {
    let err = PipelineError::DiarizerUnavailable { reason: "live binding pending".into() };

    assert_eq!(err.to_string(), "diarizer unavailable: live binding pending");
}

#[test]
fn test_pipeline_error_diarizer_unavailable_promotes_through_core_error() {
    let core: CoreError = PipelineError::DiarizerUnavailable { reason: "feature off".into() }.into();

    assert!(core.to_string().starts_with("pipeline: diarizer unavailable"));
}
