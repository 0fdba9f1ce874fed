//! Streaming Zipformer provider configuration. This build carries no
//! sherpa-onnx runtime: constructing the provider reports that the
//! `stt-sherpa` feature is missing.

use vstd::prelude::*;

use crate::error::SttError;
use crate::text::{push_str, string_from_chars};

verus! {

/// Label of the pinned English streaming Zipformer model.
pub const MODEL_LABEL: &'static str = "zipformer-en-2023-06-26";

/// Configuration of the streaming provider.
#[derive(Clone, Debug, PartialEq, Eq)]
pub struct SherpaStreamingConfig {
    /// Directory holding the pinned model artifacts.
    pub model_dir: String,
    /// CPU threads given to the recognizer.
    pub num_threads: i32,
    /// Label embedded in the provider name.
    pub model_label: String,
}

impl SherpaStreamingConfig {
    /// Configuration for the pinned model: two threads.
    pub fn new(model_dir: String) -> (c: SherpaStreamingConfig)
        ensures
            c.model_dir == model_dir,
            c.num_threads == 2,
            c.model_label@ == MODEL_LABEL@,
    {
        SherpaStreamingConfig { model_dir, num_threads: 2, model_label: MODEL_LABEL.to_owned() }
    }
}

/// The streaming provider (never constructed in this build).
pub struct SherpaStreamingProvider {
    config: SherpaStreamingConfig,
    name: String,
}

/// Why the provider is unavailable in this build.
pub open spec fn sherpa_unavailable_text(dir: Seq<char>) -> Seq<char> {
    "scrybe-core was built without the `stt-sherpa` cargo feature; enable it to load "@ + dir
}

impl SherpaStreamingProvider {
    pub closed spec fn config_view(&self) -> SherpaStreamingConfig {
        self.config
    }

    pub closed spec fn name_view(&self) -> Seq<char> {
        self.name@
    }

    /// Constructing the provider reports the missing `stt-sherpa`
    /// feature, naming the model directory.
    pub fn new(config: SherpaStreamingConfig) -> (r: Result<SherpaStreamingProvider, SttError>)
        ensures
            r matches Err(SttError::ModelNotLoaded(m)) && m@ == sherpa_unavailable_text(
                config.model_dir@,
            ),
    {
        let mut out: Vec<char> = Vec::new();
        push_str(
            &mut out,
            "scrybe-core was built without the `stt-sherpa` cargo feature; enable it to load ",
        );
        push_str(&mut out, config.model_dir.as_str());
        Err(SttError::ModelNotLoaded(string_from_chars(out.as_slice())))
    }

    pub fn config(&self) -> (c: &SherpaStreamingConfig)
        ensures
            *c == self.config_view(),
    {
        &self.config
    }

    pub fn name(&self) -> (s: &str)
        ensures
            s@ == self.name_view(),
    {
        self.name.as_str()
    }
}

} // verus!
