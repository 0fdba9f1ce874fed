//! The consent step every session passes before capture starts.
//!
//! `Notify` and `Announce` are downgraded to `Quick` until their chat and
//! announcement adapters exist: an attestation never overstates what
//! was done.

use vstd::prelude::*;

use crate::error::ConsentError;
use crate::types::{ConsentAttestation, ConsentMode};

verus! {

/// Shows the courtesy notice for a mode: `Ok(())` when the user
/// authorizes capture, `Err(UserAborted)` when they decline.
pub trait ConsentPrompter {
    /// The prompter may answer `r` when asked in `mode`. A prompter that
    /// does not define this allows every answer.
    open spec fn may_answer(&self, mode: ConsentMode, r: Result<(), ConsentError>) -> bool {
        true
    }

    fn prompt(&self, mode: ConsentMode) -> (r: Result<(), ConsentError>)
        ensures
            self.may_answer(mode, r),
    ;
}

/// A prompter that always authorizes.
pub struct AcceptingPrompter;

impl ConsentPrompter for AcceptingPrompter {
    open spec fn may_answer(&self, mode: ConsentMode, r: Result<(), ConsentError>) -> bool {
        r is Ok
    }

    fn prompt(&self, mode: ConsentMode) -> (r: Result<(), ConsentError>)
        ensures
            r is Ok,
    {
        Ok(())
    }
}

/// A prompter that always declines.
pub struct AbortingPrompter;

impl ConsentPrompter for AbortingPrompter {
    open spec fn may_answer(&self, mode: ConsentMode, r: Result<(), ConsentError>) -> bool {
        r == Err::<(), ConsentError>(ConsentError::UserAborted)
    }

    fn prompt(&self, mode: ConsentMode) -> (r: Result<(), ConsentError>)
        ensures
            r == Err::<(), ConsentError>(ConsentError::UserAborted),
    {
        Err(ConsentError::UserAborted)
    }
}

/// The mode that is actually carried out for a requested mode: always
/// `Quick` in this release.
pub open spec fn effective_mode(mode: ConsentMode) -> ConsentMode {
    ConsentMode::Quick
}

/// Downgrades the modes whose adapters do not exist yet to `Quick`.
pub fn downgrade_unsupported(mode: ConsentMode) -> (m: ConsentMode)
    ensures
        m == effective_mode(mode),
{
    match mode {
        ConsentMode::Quick => ConsentMode::Quick,
        ConsentMode::Notify => ConsentMode::Quick,
        ConsentMode::Announce => ConsentMode::Quick,
    }
}

/// `a` is the attestation recorded for an authorized session.
pub open spec fn is_attestation(a: ConsentAttestation, mode: ConsentMode, by_user: Seq<char>, at_ms: i64) -> bool {
    &&& a.mode == effective_mode(mode)
    &&& a.by_user@ == by_user
    &&& a.attested_at_ms == at_ms
    &&& !a.chat_message_sent
    &&& a.chat_message_target is None
    &&& !a.tts_announce_played
}

/// Turns the prompter's answer into the session's attestation: the
/// answer's error is passed on verbatim; an authorization is recorded
/// in the effective mode, by `by_user`, at `attested_at_ms`.
pub fn attest(
    mode: ConsentMode,
    by_user: &str,
    prompt_result: Result<(), ConsentError>,
    attested_at_ms: i64,
) -> (r: Result<ConsentAttestation, ConsentError>)
    ensures
        match prompt_result {
            Ok(()) => r matches Ok(a) && is_attestation(a, mode, by_user@, attested_at_ms),
            Err(e) => r == Err::<ConsentAttestation, ConsentError>(e),
        },
{
    match prompt_result {
        Ok(()) => Ok(ConsentAttestation::new(downgrade_unsupported(mode), by_user, attested_at_ms)),
        Err(e) => Err(e),
    }
}

/// Runs the consent step: prompts in the effective mode, then records
/// the attestation at `attested_at_ms`. Any prompter error is passed on
/// and must end the session.
pub fn run<P: ConsentPrompter>(mode: ConsentMode, by_user: &str, prompter: &P, attested_at_ms: i64) -> (r: Result<
    ConsentAttestation,
    ConsentError,
>)
    ensures
        r matches Ok(a) ==> is_attestation(a, mode, by_user@, attested_at_ms),
        exists|answer: Result<(), ConsentError>|
            #[trigger] prompter.may_answer(effective_mode(mode), answer) && match answer {
                Ok(()) => (r matches Ok(a) && is_attestation(a, mode, by_user@, attested_at_ms)),
                Err(e) => r == Err::<ConsentAttestation, ConsentError>(e),
            },
{
    let effective = downgrade_unsupported(mode);
    let answer = prompter.prompt(effective);
    let ghost g = answer;
    let r = attest(mode, by_user, answer, attested_at_ms);
    assert(prompter.may_answer(effective_mode(mode), g));
    r
}

} // verus!
