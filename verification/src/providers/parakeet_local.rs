//! Local Parakeet provider. This build carries no Parakeet runtime: the
//! provider validates its model path and names itself, and transcription
//! reports that the `parakeet-local` feature is missing.

use vstd::prelude::*;

use crate::error::SttError;
use crate::paths::{is_partial, is_partial_path};
use crate::text::{push_str, string_from_chars};

verus! {

/// Configuration of the local Parakeet provider.
#[derive(Clone, Debug, PartialEq, Eq)]
pub struct ParakeetLocalConfig {
    /// Directory holding the Parakeet model artifacts.
    pub model_path: String,
    /// Label embedded in the provider name (`parakeet-local:<label>`).
    pub model_label: String,
}

impl ParakeetLocalConfig {
    /// Construct with the default `tdt-v2` label.
    pub fn new(model_path: String) -> (c: ParakeetLocalConfig)
        ensures
            c.model_path == model_path,
            c.model_label@ == "tdt-v2"@,
    {
        ParakeetLocalConfig { model_path, model_label: "tdt-v2".to_owned() }
    }
}

/// The local Parakeet provider.
#[derive(Debug)]
pub struct ParakeetLocalProvider {
    config: ParakeetLocalConfig,
    name: String,
}

/// The provider name for a label.
pub open spec fn parakeet_name(label: Seq<char>) -> Seq<char> {
    "parakeet-local:"@ + label
}

/// Why transcription is unavailable in this build.
pub open spec fn parakeet_unavailable_text(path: Seq<char>) -> Seq<char> {
    "scrybe-core was built without the `parakeet-local` cargo feature; enable it to load "@ + path
}

impl ParakeetLocalProvider {
    pub closed spec fn config_view(&self) -> ParakeetLocalConfig {
        self.config
    }

    pub closed spec fn name_view(&self) -> Seq<char> {
        self.name@
    }

    /// Validates the model path: a `*.partial` download is rejected as a
    /// corrupt model; otherwise the provider is named
    /// `parakeet-local:<label>`.
    pub fn new(config: ParakeetLocalConfig) -> (r: Result<ParakeetLocalProvider, SttError>)
        ensures
            is_partial_path(config.model_path@) ==> r == Err::<ParakeetLocalProvider, SttError>(
                SttError::ModelCorrupt { path: config.model_path },
            ),
            !is_partial_path(config.model_path@) ==> (r matches Ok(p) && p.config_view() == config
                && p.name_view() == parakeet_name(config.model_label@)),
    {
        if is_partial(config.model_path.as_str()) {
            return Err(SttError::ModelCorrupt { path: config.model_path });
        }
        let mut out: Vec<char> = Vec::new();
        push_str(&mut out, "parakeet-local:");
        push_str(&mut out, config.model_label.as_str());
        let name = string_from_chars(out.as_slice());
        Ok(ParakeetLocalProvider { config, name })
    }

    pub fn config(&self) -> (c: &ParakeetLocalConfig)
        ensures
            *c == self.config_view(),
    {
        &self.config
    }

    pub fn name(&self) -> (s: &str)
        ensures
            s@ == self.name_view(),
    {
        self.name.as_str()
    }

    /// The error every transcription request gets in this build.
    pub fn transcribe_error(&self) -> (e: SttError)
        ensures
            e matches SttError::ModelNotLoaded(m) && m@ == parakeet_unavailable_text(
                self.config_view().model_path@,
            ),
    {
        let mut out: Vec<char> = Vec::new();
        push_str(
            &mut out,
            "scrybe-core was built without the `parakeet-local` cargo feature; enable it to load ",
        );
        push_str(&mut out, self.config.model_path.as_str());
        SttError::ModelNotLoaded(string_from_chars(out.as_slice()))
    }
}

} // verus!
