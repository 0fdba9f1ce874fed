use scrybe_core::types::{Capabilities, PermissionModel};
use scrybe_core::session::{chunker_for, initial_title, retitled_transcript, store_target, StoreTarget};
use scrybe_core::types::FrameSource;
use scrybe_core::session::duration_secs;
use scrybe_core::pipeline::journal::{JournalAnchor, JournalManifest};
use scrybe_core::repair::{earliest_epoch_ms, needs_repair, reconstructed_session_id};
use scrybe_core::types::SessionId;

struct FakeCapture;

impl FakeCapture {
    fn capabilities(&self) -> Capabilities {
        Capabilities {
            supports_system_audio: true,
            supports_per_app_capture: false,
            native_sample_rates: vec![48_000],
            permission_model: PermissionModel::CoreAudioTap,
        }
    }
}

#[test]
fn test_capabilities_default_for_fake_capture_reports_core_audio_tap() {
    let cap = FakeCapture;
    let caps = cap.capabilities();

    assert!(caps.supports_system_audio);
    assert_eq!(caps.permission_model, PermissionModel::CoreAudioTap);
}

#[test]
fn test_audio_layout_returns_stereo_descriptor_for_two_channels() {
    assert_eq!(scrybe_core::session::audio_layout(true, 2), "stereo:mic-l,system-r");
}

#[test]
fn test_audio_layout_falls_back_to_mono_descriptor() {
    assert_eq!(scrybe_core::session::audio_layout(false, 1), "mono:mic");
    assert_eq!(scrybe_core::session::audio_layout(true, 1), "mono:mic");
}

#[test]
fn session_routing_and_titles() {
    assert_eq!(store_target(FrameSource::System), StoreTarget::System);
    assert_eq!(store_target(FrameSource::Mixed), StoreTarget::Mic);
    assert_eq!(chunker_for(FrameSource::System, false), None);
    assert_eq!(chunker_for(FrameSource::System, true), Some(StoreTarget::System));
    assert_eq!(chunker_for(FrameSource::Mic, false), Some(StoreTarget::Mic));
    assert_eq!(initial_title(None), "untitled");
    let body = "# untitled\n*2026-01-01 09:00*\n\n**Me** [00:00:01]: hi\n";
    let header = "# Standup\n*2026-01-01 09:00*\n\n";
    assert_eq!(
        retitled_transcript(body, "Standup", header).as_deref(),
        Some("# Standup\n*2026-01-01 09:00*\n\n**Me** [00:00:01]: hi\n")
    );
    assert_eq!(retitled_transcript(header, "Standup", header), None);
    assert_eq!(retitled_transcript("no blank line", "T", "H\n\n").as_deref(), Some("H\n\n"));
}

#[test]
fn session_durations_and_meta() {
    assert_eq!(duration_secs(1_000, 62_999), 61);
    assert_eq!(duration_secs(5_000, 1_000), 0);
}

#[test]
fn repair_decisions() {
    assert!(needs_repair(true, false));
    assert!(!needs_repair(true, true));
    assert!(!needs_repair(false, false));
    let anchor = |ms: i64| JournalAnchor { first_frame_epoch_ms: ms, sample_rate: 48_000, channels: 1, frames_written: 0 };
    let m = JournalManifest { mic: Some(anchor(2_000)), system: Some(anchor(1_500)) };
    assert_eq!(earliest_epoch_ms(&m), Some(1_500));
    assert_eq!(earliest_epoch_ms(&JournalManifest { mic: None, system: None }), None);
    let id = SessionId(0x0123_4567_89ab_cdef_0123_4567_89ab_cdef);
    let text = id.to_string_26();
    let folder = format!("2026-01-01-0900-standup-{text}");
    assert_eq!(reconstructed_session_id(Some(&folder)), id);
    assert_eq!(reconstructed_session_id(Some("no-ulid-here")), SessionId(0));
    assert_eq!(reconstructed_session_id(None), SessionId(0));
}

#[test]
fn session_id_text_round_trips() {
    for v in [0_u128, 1, 31, 32, u128::MAX, 0x0123_4567_89ab_cdef_0123_4567_89ab_cdef] {
        let id = SessionId(v);
        assert_eq!(SessionId::parse_26(&id.to_string_26()), Some(id));
        assert_eq!(SessionId::parse_26(&id.to_string_26().to_lowercase()), Some(id));
    }
    assert_eq!(SessionId::parse_26("8ZZZZZZZZZZZZZZZZZZZZZZZZZ"), None);
    assert_eq!(SessionId::parse_26("short"), None);
    assert_eq!(SessionId::parse_26("0000000000000000000000000U"), None);
}
