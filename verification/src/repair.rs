//! Decisions of session repair: whether a folder needs its audio
//! recovered from the journal, and the `meta.toml` written for a
//! recovered session that never wrote its own. Reading the journal,
//! merging and encoding, and writing files happen outside the library.

use vstd::prelude::*;

use crate::notes::{MAX_UTC_MILLIS, MIN_UTC_MILLIS};
use crate::pipeline::encoder::EncoderConfig;
use crate::pipeline::journal::JournalManifest;
use crate::session::{audio_meta, elapsed_secs, meta_record, MetaRecord};
use crate::text::{chars_of, string_of_range};
use crate::types::{base32_value, is_ulid_text, ConsentAttestation, ConsentMode, SessionId};

verus! {

/// The provider names recorded for a reconstructed session.
pub const REPAIR_PROVIDER: &'static str = "unknown (scrybe repair)";

/// The user recorded for a reconstructed session's consent.
pub const RECONSTRUCTED_CONSENT_USER: &'static str = "unknown (reconstructed by scrybe repair; the interrupted session's own consent attestation was never durably written)";

/// A folder needs repair when it has a journal and no `audio.opus`.
pub fn needs_repair(journal_exists: bool, audio_exists: bool) -> (b: bool)
    ensures
        b == (journal_exists && !audio_exists),
{
    journal_exists && !audio_exists
}

/// The earliest first-frame anchor among the journaled sources, when it
/// is an instant chrono can represent.
pub open spec fn earliest_epoch(m: JournalManifest) -> Option<int> {
    let e: Option<int> = match (m.mic, m.system) {
        (Some(a), Some(b)) => Some(
            if a.first_frame_epoch_ms <= b.first_frame_epoch_ms {
                a.first_frame_epoch_ms as int
            } else {
                b.first_frame_epoch_ms as int
            },
        ),
        (Some(a), None) => Some(a.first_frame_epoch_ms as int),
        (None, Some(b)) => Some(b.first_frame_epoch_ms as int),
        (None, None) => None,
    };
    match e {
        Some(v) => if MIN_UTC_MILLIS <= v <= MAX_UTC_MILLIS {
            Some(v)
        } else {
            None
        },
        None => None,
    }
}

/// The session start recorded for a recovered session (see
/// `earliest_epoch`).
pub fn earliest_epoch_ms(m: &JournalManifest) -> (r: Option<i64>)
    ensures
        match earliest_epoch(*m) {
            Some(v) => r == Some(v as i64),
            None => r is None,
        },
{
    let e: Option<i64> = match (m.mic, m.system) {
        (Some(a), Some(b)) => Some(
            if a.first_frame_epoch_ms <= b.first_frame_epoch_ms {
                a.first_frame_epoch_ms
            } else {
                b.first_frame_epoch_ms
            },
        ),
        (Some(a), None) => Some(a.first_frame_epoch_ms),
        (None, Some(b)) => Some(b.first_frame_epoch_ms),
        (None, None) => None,
    };
    match e {
        Some(v) => if MIN_UTC_MILLIS <= v && v <= MAX_UTC_MILLIS {
            Some(v)
        } else {
            None
        },
        None => None,
    }
}

/// The recovered start is the earliest journaled anchor: it is one of
/// the anchors present, no present anchor is earlier, and it is there
/// whenever some anchor is present and every present anchor is an
/// instant that can be rendered.
pub proof fn recovered_start_is_the_earliest_anchor(m: JournalManifest)
    ensures
        earliest_epoch(m) matches Some(v) ==> {
            &&& (m.mic matches Some(a) && v == a.first_frame_epoch_ms) || (m.system matches Some(b)
                && v == b.first_frame_epoch_ms)
            &&& m.mic matches Some(a) ==> v <= a.first_frame_epoch_ms
            &&& m.system matches Some(b) ==> v <= b.first_frame_epoch_ms
        },
        (m.mic is Some || m.system is Some) && (m.mic matches Some(a) ==> MIN_UTC_MILLIS
            <= a.first_frame_epoch_ms <= MAX_UTC_MILLIS) && (m.system matches Some(b)
            ==> MIN_UTC_MILLIS <= b.first_frame_epoch_ms <= MAX_UTC_MILLIS) ==> earliest_epoch(
            m,
        ) is Some,
        m.mic is None && m.system is None ==> earliest_epoch(m) is None,
{
}

/// What follows the last `'-'` of `s` (all of `s` without one).
pub open spec fn last_segment(s: Seq<char>) -> Seq<char>
    decreases s.len(),
{
    if s.len() == 0 {
        s
    } else if s.last() == '-' {
        Seq::empty()
    } else {
        last_segment(s.drop_last()).push(s.last())
    }
}

fn last_segment_of(s: &str) -> (r: String)
    ensures
        r@ == last_segment(s@),
{
    let cs = chars_of(s);
    let mut k: usize = cs.len();
    proof {
        assert(cs@.subrange(0, cs@.len() as int) =~= cs@);
        assert(cs@.subrange(cs@.len() as int, cs@.len() as int) =~= Seq::<char>::empty());
        assert(last_segment(s@) =~= last_segment(cs@.subrange(0, k as int)) + cs@.subrange(
            k as int,
            cs@.len() as int,
        ));
    }
    while k > 0 && cs[k - 1] != '-'
        invariant
            k <= cs@.len(),
            cs@ == s@,
            last_segment(s@) == last_segment(cs@.subrange(0, k as int)) + cs@.subrange(
                k as int,
                cs@.len() as int,
            ),
        decreases k,
    {
        let ghost pre = cs@.subrange(0, k as int);
        assert(pre.drop_last() =~= cs@.subrange(0, k - 1));
        assert(last_segment(cs@.subrange(0, k - 1)).push(pre.last()) + cs@.subrange(
            k as int,
            cs@.len() as int,
        ) =~= last_segment(cs@.subrange(0, k - 1)) + cs@.subrange(k - 1, cs@.len() as int));
        k = k - 1;
    }
    proof {
        assert(cs@.subrange(0, cs@.len() as int) =~= cs@);
        if k > 0 {
            assert(cs@.subrange(0, k as int).last() == '-');
        }
        assert(last_segment(cs@.subrange(0, k as int)).len() == 0);
        assert(last_segment(s@) =~= cs@.subrange(k as int, cs@.len() as int));
    }
    string_of_range(&cs, k, cs.len())
}

/// The identifier of a recovered session: the ULID that ends its folder
/// name, or the nil identifier when there is none.
pub fn reconstructed_session_id(folder_name: Option<&str>) -> (id: SessionId)
    ensures
        id == (match folder_name {
            Some(n) => if is_ulid_text(last_segment(n@)) {
                SessionId(base32_value(last_segment(n@)) as u128)
            } else {
                SessionId(0)
            },
            None => SessionId(0),
        }),
{
    match folder_name {
        Some(n) => {
            let suffix = last_segment_of(n);
            match SessionId::parse_26(suffix.as_str()) {
                Some(id) => id,
                None => SessionId::default(),
            }
        },
        None => SessionId::default(),
    }
}

/// The `meta.toml` record of a recovered session: its folder's ULID,
/// no title, starting at the earliest journal anchor (else `now_ms`)
/// and lasting the `encoded_ms` of audio recovered, with placeholder
/// consent and provider names and the default encoder's audio block.
pub fn reconstructed_meta(
    folder_name: Option<&str>,
    manifest: &JournalManifest,
    channels: u16,
    encoded_ms: i64,
    now_ms: i64,
    version: &str,
) -> (m: MetaRecord)
    requires
        MIN_UTC_MILLIS <= now_ms <= MAX_UTC_MILLIS,
        0 <= encoded_ms <= MAX_UTC_MILLIS,
    ensures
        ({
            let started = match earliest_epoch(*manifest) {
                Some(v) => v,
                None => now_ms as int,
            };
            &&& m.title is None
            &&& m.started_at_ms == started
            &&& m.ended_at_ms == started + encoded_ms
            &&& m.duration_secs == elapsed_secs(started, started + encoded_ms)
            &&& m.stt@ == REPAIR_PROVIDER@ && m.llm@ == REPAIR_PROVIDER@ && m.diarizer@
                == REPAIR_PROVIDER@
            &&& m.consent.mode == ConsentMode::Quick
            &&& m.consent.by_user@ == RECONSTRUCTED_CONSENT_USER@
            &&& m.consent.attested_at_ms == now_ms
            &&& m.version@ == version@
            &&& m.audio matches Some(a) && a.channels == channels && a.sample_rate == 48_000
                && a.bitrate_bps == 32_000
        }),
{
    let id = reconstructed_session_id(folder_name);
    let started = match earliest_epoch_ms(manifest) {
        Some(v) => v,
        None => now_ms,
    };
    let ended = started + encoded_ms;
    let attestation = ConsentAttestation::new(ConsentMode::Quick, RECONSTRUCTED_CONSENT_USER, now_ms);
    let enc = EncoderConfig::default();
    let audio = audio_meta(channels, enc.sample_rate, enc.bitrate_bps, manifest);
    meta_record(
        id,
        None,
        started,
        ended,
        attestation,
        REPAIR_PROVIDER,
        REPAIR_PROVIDER,
        REPAIR_PROVIDER,
        version,
        Some(audio),
    )
}

} // verus!
