use scrybe_core::consent::{run, AbortingPrompter, AcceptingPrompter};
use scrybe_core::error::ConsentError;
use scrybe_core::types::ConsentMode;

const NOW_MS: i64 = 1_777_473_000_000;

#[test]
fn test_run_quick_mode_records_attestation_when_user_accepts() {
    let attestation = run(ConsentMode::Quick, "tom", &AcceptingPrompter, NOW_MS).unwrap();

    assert_eq!(attestation.mode, ConsentMode::Quick);
    assert_eq!(attestation.by_user, "tom");
    assert!(!attestation.chat_message_sent);
    assert!(attestation.chat_message_target.is_none());
    assert!(!attestation.tts_announce_played);
}

#[test]
fn test_run_returns_user_aborted_when_prompter_declines() {
    let err = run(ConsentMode::Quick, "tom", &AbortingPrompter, NOW_MS).unwrap_err();

    assert!(matches!(err, ConsentError::UserAborted));
}

#[test]
fn test_run_notify_mode_downgrades_to_quick_until_v0_2_adapters() {
    let attestation = run(ConsentMode::Notify, "tom", &AcceptingPrompter, NOW_MS).unwrap();

    assert_eq!(attestation.mode, ConsentMode::Quick, "notify must downgrade to quick at v0.1");
}

#[test]
fn test_run_announce_mode_downgrades_to_quick_until_v0_2_adapters() {
    let attestation = run(ConsentMode::Announce, "tom", &AcceptingPrompter, NOW_MS).unwrap();

    assert_eq!(attestation.mode, ConsentMode::Quick);
}

#[test]
fn test_run_attestation_timestamp_is_close_to_now() {
    let attestation = run(ConsentMode::Quick, "tom", &AcceptingPrompter, NOW_MS).unwrap();

    assert_eq!(attestation.attested_at_ms, NOW_MS);
}
