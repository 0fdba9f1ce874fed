//! Request logic of the OpenAI-compatible `/chat/completions` provider:
//! the endpoint, which failures are worth a retry, and what a response
//! or an exhausted retry budget becomes. The HTTP exchange and the JSON
//! bodies are handled outside the library.

use vstd::prelude::*;

use crate::error::LlmError;
use crate::providers::openai_compat_stt::{endpoint_for, is_transient_status, transient_status, trim_slashes};
use crate::providers::retry::{RetryFailure, RetryOutcome};
use crate::text::{push_str, string_from_chars};

verus! {

/// The completion endpoint for a base URL: trailing slashes removed,
/// then `/chat/completions`.
pub fn chat_endpoint(base_url: &str) -> (url: String)
    ensures
        url@ == trim_slashes(base_url@) + "/chat/completions"@,
{
    endpoint_for(base_url, "/chat/completions")
}

/// What a request that could not be sent becomes: a timeout or a failed
/// connection is worth a retry, anything else is not.
pub fn send_failure<T>(is_timeout: bool, is_connect: bool, message: String) -> (r: RetryOutcome<
    T,
    LlmError,
>)
    ensures
        (is_timeout || is_connect) ==> (r matches RetryOutcome::Transient(LlmError::Transport(m))
            && m == message),
        !(is_timeout || is_connect) ==> (r matches RetryOutcome::Permanent(LlmError::Transport(m))
            && m == message),
{
    if is_timeout || is_connect {
        RetryOutcome::Transient(LlmError::Transport(message))
    } else {
        RetryOutcome::Permanent(LlmError::Transport(message))
    }
}

/// What a non-success status becomes: 408, 425, 429 and 5xx are worth a
/// retry.
pub fn status_failure<T>(status: u16) -> (r: RetryOutcome<T, LlmError>)
    ensures
        transient_status(status) ==> (r matches RetryOutcome::Transient(
            LlmError::ProviderStatus { status: s },
        ) && s == status),
        !transient_status(status) ==> (r matches RetryOutcome::Permanent(
            LlmError::ProviderStatus { status: s },
        ) && s == status),
{
    if is_transient_status(status) {
        RetryOutcome::Transient(LlmError::ProviderStatus { status })
    } else {
        RetryOutcome::Permanent(LlmError::ProviderStatus { status })
    }
}

/// A successful response with the content of its first choice: that
/// content, or, with no choice at all, a permanent error.
pub fn completion_outcome(first_choice: Option<String>) -> (r: RetryOutcome<String, LlmError>)
    ensures
        match first_choice {
            Some(c) => r matches RetryOutcome::Success(t) && t == c,
            None => r matches RetryOutcome::Permanent(LlmError::Transport(m)) && m@
                == "upstream returned 200 with empty choices array"@,
        },
{
    match first_choice {
        Some(c) => RetryOutcome::Success(c),
        None => {
            let mut cs: Vec<char> = Vec::new();
            push_str(&mut cs, "upstream returned 200 with empty choices array");
            RetryOutcome::Permanent(LlmError::Transport(string_from_chars(cs.as_slice())))
        },
    }
}

/// The error a completion ends with once the retry loop gave up: the
/// permanent error itself, or `RetriesExhausted` after transient ones.
pub fn completion_error(failure: RetryFailure<LlmError>) -> (e: LlmError)
    ensures
        failure.permanent ==> e == failure.last_error,
        !failure.permanent ==> e == (LlmError::RetriesExhausted { attempts: failure.attempts }),
{
    if failure.permanent {
        failure.last_error
    } else {
        LlmError::RetriesExhausted { attempts: failure.attempts }
    }
}

} // verus!
