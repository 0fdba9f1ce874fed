//! Ergonomic-default resolution for `scrybe record <title>`.
//!
//! Explicit config values win. Otherwise the source falls back to the
//! platform default (`mic+system` on macOS, `mic` elsewhere), the LLM to
//! `openai-compat` when a local Ollama answers the caller's probe and to
//! the stub otherwise, and the Whisper model to the platform default path
//! when the caller finds it on disk.

use vstd::prelude::*;

use crate::config::{
    is_record_llm, is_record_source, RecordConfig, RECORD_LLM_OPENAI_COMPAT, RECORD_LLM_STUB,
    RECORD_SOURCE_MIC, RECORD_SOURCE_MIC_SYSTEM, RECORD_SOURCE_SYNTHETIC,
};
use crate::text::str_eq;

verus! {

/// The platform-default capture source.
pub open spec fn platform_source(target_is_macos: bool) -> Seq<char> {
    if target_is_macos {
        RECORD_SOURCE_MIC_SYSTEM@
    } else {
        RECORD_SOURCE_MIC@
    }
}

/// Platform-default capture source: `mic+system` on macOS, `mic`
/// elsewhere.
pub fn platform_default_source(target_is_macos: bool) -> (s: &'static str)
    ensures
        s@ == platform_source(target_is_macos),
{
    if target_is_macos {
        RECORD_SOURCE_MIC_SYSTEM
    } else {
        RECORD_SOURCE_MIC
    }
}

/// The source the ergonomic record command uses.
pub open spec fn ergonomic_source_spec(source: Seq<char>, target_is_macos: bool) -> Seq<char> {
    if is_record_source(source) && source != RECORD_SOURCE_SYNTHETIC@ {
        source
    } else {
        platform_source(target_is_macos)
    }
}

/// Resolves the capture source: an explicit non-synthetic config value
/// is honored; anything else picks the platform default.
pub fn ergonomic_source(cfg: &RecordConfig, target_is_macos: bool) -> (s: &'static str)
    ensures
        s@ == ergonomic_source_spec(cfg.source@, target_is_macos),
{
    if let Some(s) = cfg.validated_source() {
        if !str_eq(s, RECORD_SOURCE_SYNTHETIC) {
            return s;
        }
    }
    platform_default_source(target_is_macos)
}

/// Whether the config names an LLM explicitly (a recognised value other
/// than the stub).
pub open spec fn explicit_llm(llm: Seq<char>) -> bool {
    is_record_llm(llm) && llm != RECORD_LLM_STUB@
}

/// Resolves the LLM kind: an explicit non-stub config value is honored;
/// otherwise `probe_ollama` decides (`openai-compat` when the local
/// endpoint answered, the stub otherwise) and is called only then.
pub fn ergonomic_llm<F: FnOnce() -> bool>(cfg: &RecordConfig, probe_ollama: F) -> (s: &'static str)
    requires
        !explicit_llm(cfg.llm@) ==> probe_ollama.requires(()),
    ensures
        explicit_llm(cfg.llm@) ==> s@ == cfg.llm@,
        !explicit_llm(cfg.llm@) ==> exists|reachable: bool|
            probe_ollama.ensures((), reachable) && s@ == (if reachable {
                RECORD_LLM_OPENAI_COMPAT@
            } else {
                RECORD_LLM_STUB@
            }),
{
    if let Some(l) = cfg.validated_llm() {
        if !str_eq(l, RECORD_LLM_STUB) {
            return l;
        }
    }
    let reachable = probe_ollama();
    if reachable {
        RECORD_LLM_OPENAI_COMPAT
    } else {
        RECORD_LLM_STUB
    }
}

/// Resolves the Whisper model path: the configured path when set;
/// otherwise what `default_if_present` reports (the platform default
/// path when it exists on disk), which is asked only then.
pub fn ergonomic_whisper_model<F: FnOnce() -> Option<String>>(
    cfg: &RecordConfig,
    default_if_present: F,
) -> (r: Option<String>)
    requires
        cfg.whisper_model is None ==> default_if_present.requires(()),
    ensures
        cfg.whisper_model is Some ==> r == cfg.whisper_model,
        cfg.whisper_model is None ==> default_if_present.ensures((), r),
{
    match &cfg.whisper_model {
        Some(path) => Some(path.clone()),
        None => default_if_present(),
    }
}

} // verus!
