//! Lifecycle events that hooks subscribe to, and the bookkeeping of a
//! dispatch: one hook's failure never blocks its siblings, and every
//! failure becomes a `HookFailed` event for `meta.toml`.

pub mod git;
pub mod indexer;
pub mod webhook;

use vstd::prelude::*;

use crate::context::MeetingContext;
use crate::error::HookError;
use crate::types::{AttributedChunk, ConsentAttestation, SessionId};

verus! {

/// Pipeline-emitted events. Errors are carried as their rendered
/// message.
#[derive(Clone, Debug, PartialEq, Eq)]
pub enum LifecycleEvent {
    SessionStart { id: SessionId, ctx: MeetingContext },
    ConsentRecorded { id: SessionId, attestation: ConsentAttestation },
    ChunkTranscribed { id: SessionId, chunk: AttributedChunk },
    SessionEnd { id: SessionId, transcript_path: String },
    NotesGenerated { id: SessionId, notes_path: String },
    SessionFailed { id: SessionId, error: String },
    HookFailed { id: SessionId, hook_name: String, error: String },
}

/// The session an event belongs to.
pub open spec fn event_session(e: LifecycleEvent) -> SessionId {
    match e {
        LifecycleEvent::SessionStart { id, .. } => id,
        LifecycleEvent::ConsentRecorded { id, .. } => id,
        LifecycleEvent::ChunkTranscribed { id, .. } => id,
        LifecycleEvent::SessionEnd { id, .. } => id,
        LifecycleEvent::NotesGenerated { id, .. } => id,
        LifecycleEvent::SessionFailed { id, .. } => id,
        LifecycleEvent::HookFailed { id, .. } => id,
    }
}

/// The stable kind tag of an event.
pub open spec fn event_kind(e: LifecycleEvent) -> Seq<char> {
    match e {
        LifecycleEvent::SessionStart { .. } => "session_start"@,
        LifecycleEvent::ConsentRecorded { .. } => "consent_recorded"@,
        LifecycleEvent::ChunkTranscribed { .. } => "chunk_transcribed"@,
        LifecycleEvent::SessionEnd { .. } => "session_end"@,
        LifecycleEvent::NotesGenerated { .. } => "notes_generated"@,
        LifecycleEvent::SessionFailed { .. } => "session_failed"@,
        LifecycleEvent::HookFailed { .. } => "hook_failed"@,
    }
}

impl LifecycleEvent {
    /// The session this event belongs to.
    pub fn session_id(&self) -> (id: SessionId)
        ensures
            id == event_session(*self),
    {
        match self {
            LifecycleEvent::SessionStart { id, .. } => *id,
            LifecycleEvent::ConsentRecorded { id, .. } => *id,
            LifecycleEvent::ChunkTranscribed { id, .. } => *id,
            LifecycleEvent::SessionEnd { id, .. } => *id,
            LifecycleEvent::NotesGenerated { id, .. } => *id,
            LifecycleEvent::SessionFailed { id, .. } => *id,
            LifecycleEvent::HookFailed { id, .. } => *id,
        }
    }

    /// Stable kind tag for filtering and logging.
    pub fn kind(&self) -> (k: &'static str)
        ensures
            k@ == event_kind(*self),
    {
        match self {
            LifecycleEvent::SessionStart { .. } => "session_start",
            LifecycleEvent::ConsentRecorded { .. } => "consent_recorded",
            LifecycleEvent::ChunkTranscribed { .. } => "chunk_transcribed",
            LifecycleEvent::SessionEnd { .. } => "session_end",
            LifecycleEvent::NotesGenerated { .. } => "notes_generated",
            LifecycleEvent::SessionFailed { .. } => "session_failed",
            LifecycleEvent::HookFailed { .. } => "hook_failed",
        }
    }
}

/// Outcome of dispatching one event across the registered hooks.
#[derive(Debug)]
pub struct DispatchOutcome {
    pub failures: Vec<LifecycleEvent>,
}

impl DispatchOutcome {
    /// True when every hook acknowledged the event without error.
    pub fn all_ok(&self) -> (b: bool)
        ensures
            b == (self.failures@.len() == 0),
    {
        self.failures.len() == 0
    }
}

/// The `(hook name, error)` pairs of the hooks that failed, in order.
pub open spec fn failed_hooks(results: Seq<(String, Result<(), HookError>)>) -> Seq<
    (String, HookError),
>
    decreases results.len(),
{
    if results.len() == 0 {
        Seq::empty()
    } else {
        let last = results.last();
        let rest = failed_hooks(results.drop_last());
        match last.1 {
            Ok(_) => rest,
            Err(e) => rest.push((last.0, e)),
        }
    }
}

/// `ev` is the `HookFailed` event recorded for hook `name` failing with
/// `err` on session `id`.
pub open spec fn is_failure_event(ev: LifecycleEvent, id: SessionId, name: String, err: HookError) -> bool {
    ev matches LifecycleEvent::HookFailed { id: i, hook_name, error } && i == id && hook_name
        == name && error@ == err.message()
}

/// Collects the per-hook results of one dispatch, in hook order: every
/// failure becomes a `HookFailed` event for the event's session, naming
/// the hook and carrying the rendered error; successes leave no trace.
pub fn collect_failures(id: SessionId, results: Vec<(String, Result<(), HookError>)>) -> (out:
    DispatchOutcome)
    ensures
        out.failures@.len() == failed_hooks(results@).len(),
        forall|k: int|
            0 <= k < out.failures@.len() ==> is_failure_event(
                #[trigger] out.failures@[k],
                id,
                failed_hooks(results@)[k].0,
                failed_hooks(results@)[k].1,
            ),
{
    let ghost all = results@;
    let mut failures: Vec<LifecycleEvent> = Vec::new();
    let mut rest = results;
    let mut i: usize = 0;
    assert(all.len() == rest.len());
    while rest.len() > 0
        invariant
            all.len() <= usize::MAX,
            i + rest@.len() == all.len(),
            rest@ == all.skip(i as int),
            failures@.len() == failed_hooks(all.take(i as int)).len(),
            forall|k: int|
                0 <= k < failures@.len() ==> is_failure_event(
                    #[trigger] failures@[k],
                    id,
                    failed_hooks(all.take(i as int))[k].0,
                    failed_hooks(all.take(i as int))[k].1,
                ),
        decreases rest@.len(),
    {
        let (name, result) = rest.remove(0);
        proof {
            assert(all.take(i + 1).drop_last() == all.take(i as int));
            assert(all.take(i + 1).last() == (name, result));
            assert(rest@ =~= all.skip(i + 1));
        }
        match result {
            Ok(()) => {},
            Err(err) => {
                let error = err.to_string();
                failures.push(LifecycleEvent::HookFailed { id, hook_name: name, error });
            },
        }
        i = i + 1;
    }
    assert(all.take(all.len() as int) == all);
    DispatchOutcome { failures }
}

} // verus!
