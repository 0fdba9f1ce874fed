//! Webhook hook: one JSON POST per terminal lifecycle event, signed with
//! HMAC-SHA256 when a secret is configured.
//!
//! Only `SessionEnd`, `NotesGenerated` and `SessionFailed` produce a
//! payload. The HTTP exchange happens outside this crate; this module
//! decides what is sent and computes the signature header.

use hmac::Mac;

use vstd::prelude::*;

use crate::error::HookError;
use crate::hooks::{event_kind, LifecycleEvent};
use crate::text::{dec, push_dec, push_str, string_from_chars};
use crate::types::base32_text;
use vstd::string::StringSliceAdditionalSpecFns;

verus! {

/// Configuration of the webhook hook.
#[derive(Clone, Debug, PartialEq, Eq)]
pub struct WebhookHookConfig {
    /// Endpoint the hook POSTs to.
    pub url: String,
    /// HMAC-SHA256 secret; when set, requests carry an
    /// `X-Scrybe-Signature: sha256=<hex>` header over the body.
    pub secret: Option<String>,
    /// Per-request timeout in milliseconds.
    pub timeout_ms: u64,
    /// Stable hook identifier.
    pub display_name: String,
}

impl Default for WebhookHookConfig {
    fn default() -> (c: Self)
        ensures
            c.url@.len() == 0,
            c.secret is None,
            c.timeout_ms == 10_000,
            c.display_name@ == "webhook"@,
    {
        WebhookHookConfig {
            url: String::new(),
            secret: None,
            timeout_ms: 10_000,
            display_name: "webhook".to_owned(),
        }
    }
}

/// The JSON body of one webhook request.
#[derive(Clone, Debug, PartialEq, Eq)]
pub struct WebhookPayload {
    pub event: &'static str,
    pub session_id: String,
    pub notes_path: Option<String>,
    pub transcript_path: Option<String>,
    /// The rendered error of a failed session; absent otherwise.
    pub error: Option<String>,
}

/// `p` is the payload the webhook sends for event `e`; `None` for the
/// events it ignores.
pub open spec fn payload_matches(e: LifecycleEvent, p: Option<WebhookPayload>) -> bool {
    match e {
        LifecycleEvent::SessionEnd { id, transcript_path } => p matches Some(q) && q.event@
            == event_kind(e) && q.session_id@ == base32_text(id.0 as nat, 26) && q.notes_path is None
            && q.transcript_path == Some(transcript_path) && q.error is None,
        LifecycleEvent::NotesGenerated { id, notes_path } => p matches Some(q) && q.event@
            == event_kind(e) && q.session_id@ == base32_text(id.0 as nat, 26) && q.notes_path == Some(
            notes_path,
        ) && q.transcript_path is None && q.error is None,
        LifecycleEvent::SessionFailed { id, error } => p matches Some(q) && q.event@ == event_kind(
            e,
        ) && q.session_id@ == base32_text(id.0 as nat, 26) && q.notes_path is None
            && q.transcript_path is None && q.error == Some(error),
        _ => p is None,
    }
}

/// The payload for a terminal event (session end, notes generated,
/// session failed); `None` for every other event.
pub fn payload_for(event: &LifecycleEvent) -> (p: Option<WebhookPayload>)
    ensures
        payload_matches(*event, p),
{
    match event {
        LifecycleEvent::SessionEnd { id, transcript_path } => Some(
            WebhookPayload {
                event: event.kind(),
                session_id: id.to_string_26(),
                notes_path: None,
                transcript_path: Some(transcript_path.clone()),
                error: None,
            },
        ),
        LifecycleEvent::NotesGenerated { id, notes_path } => Some(
            WebhookPayload {
                event: event.kind(),
                session_id: id.to_string_26(),
                notes_path: Some(notes_path.clone()),
                transcript_path: None,
                error: None,
            },
        ),
        LifecycleEvent::SessionFailed { id, error } => Some(
            WebhookPayload {
                event: event.kind(),
                session_id: id.to_string_26(),
                notes_path: None,
                transcript_path: None,
                error: Some(error.clone()),
            },
        ),
        _ => None,
    }
}

/// The HMAC-SHA256 tag of `msg` under `key`.
pub uninterp spec fn hmac_sha256(key: Seq<u8>, msg: Seq<u8>) -> Seq<u8>;

/// HMAC-SHA256 (`hmac::Hmac<sha2::Sha256>`): keyed with `key`, fed
/// `msg`, finalized. Claims that the tag is a function of the key and the
/// message alone. HMAC accepts keys of any length, so keying never fails.
#[verifier::external_body]
fn hmac_sha256_tag(key: &[u8], msg: &[u8]) -> (tag: Vec<u8>)
    ensures
        tag@ == hmac_sha256(key@, msg@),
{
    match hmac::Hmac::<sha2::Sha256>::new_from_slice(key) {
        Ok(mut mac) => {
            mac.update(msg);
            mac.finalize().into_bytes().to_vec()
        },
        Err(_) => Vec::new(),
    }
}

/// The lowercase hexadecimal digit for `d < 16`.
pub open spec fn hex_digit(d: nat) -> char {
    "0123456789abcdef"@[d as int]
}

/// Lowercase hexadecimal text of `bytes`, two digits per byte, high
/// nibble first.
pub open spec fn hex_lower(bytes: Seq<u8>) -> Seq<char>
    decreases bytes.len(),
{
    if bytes.len() == 0 {
        Seq::empty()
    } else {
        hex_lower(bytes.drop_last()) + seq![
            hex_digit((bytes.last() / 16) as nat),
            hex_digit((bytes.last() % 16) as nat),
        ]
    }
}

/// `hex::encode`: the lowercase hexadecimal text of the bytes, two digits
/// per byte, high nibble first.
#[verifier::external_body]
fn hex_encode(bytes: &[u8]) -> (s: String)
    ensures
        s@ == hex_lower(bytes@),
{
    hex::encode(bytes)
}

/// The `X-Scrybe-Signature` value for a body under a secret.
pub open spec fn signature_text(secret: Seq<u8>, body: Seq<u8>) -> Seq<char> {
    "sha256="@ + hex_lower(hmac_sha256(secret, body))
}

/// Computes the `sha256=<hex>` signature of the request body under the
/// secret's UTF-8 bytes.
pub fn sign_body(secret: &str, body: &[u8]) -> (s: String)
    ensures
        s@ == signature_text(secret.spec_bytes(), body@),
{
    let tag = hmac_sha256_tag(secret.as_bytes(), body);
    let hex = hex_encode(tag.as_slice());
    let mut out: Vec<char> = Vec::new();
    push_str(&mut out, "sha256=");
    push_str(&mut out, hex.as_str());
    string_from_chars(out.as_slice())
}

/// The failure reported for a non-success HTTP status.
pub fn status_error(status: u16) -> (e: HookError)
    ensures
        e matches HookError::Hook(m) && m@ == "webhook returned non-success status "@ + dec(
            status as nat,
        ),
{
    let mut out: Vec<char> = Vec::new();
    push_str(&mut out, "webhook returned non-success status ");
    push_dec(&mut out, status as u64);
    HookError::Hook(string_from_chars(out.as_slice()))
}

} // verus!
