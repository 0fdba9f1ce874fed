//! Local Whisper provider (`whisper.cpp`). This build carries no Whisper
//! runtime: the provider validates its model path and names itself, and
//! transcription reports that the `whisper-local` feature is missing.

use vstd::prelude::*;

use crate::error::SttError;
use crate::paths::{file_stem_of, is_partial, is_partial_path, path_file_stem};
use crate::text::{push_str, string_from_chars};

verus! {


/// Configuration of the local Whisper provider.
#[derive(Clone, Debug, PartialEq, Eq)]
pub struct WhisperLocalConfig {
    pub model_path: String,
    pub language: String,
    pub model_label: String,
}

/// The reporting label of a model file: its stem, or `unknown`.
pub open spec fn model_label_of(path: Seq<char>) -> Seq<char> {
    match path_file_stem(path) {
        Some(s) => s,
        None => "unknown"@,
    }
}

/// The reporting label of a model file: the file name without its final
/// extension (`ggml-base.en.bin` gives `ggml-base.en`), or `unknown`.
pub fn derive_model_label(model_path: &str) -> (l: String)
    ensures
        l@ == model_label_of(model_path@),
{
    match file_stem_of(model_path) {
        Some(s) => s,
        None => "unknown".to_owned(),
    }
}

impl WhisperLocalConfig {
    /// Language auto-detection and a label derived from the model file.
    pub fn new(model_path: String) -> (c: WhisperLocalConfig)
        ensures
            c.model_path == model_path,
            c.language@ == "auto"@,
            c.model_label@ == model_label_of(model_path@),
    {
        let model_label = derive_model_label(model_path.as_str());
        WhisperLocalConfig { model_path, language: "auto".to_owned(), model_label }
    }
}

/// The local Whisper provider.
#[derive(Debug)]
pub struct WhisperLocalProvider {
    config: WhisperLocalConfig,
    name: String,
}

/// The provider name for a label.
pub open spec fn whisper_name(label: Seq<char>) -> Seq<char> {
    "whisper-local:"@ + label
}

/// Why transcription is unavailable in this build.
pub open spec fn whisper_unavailable_text(path: Seq<char>) -> Seq<char> {
    "scrybe-core was built without the `whisper-local` cargo feature; enable it to load "@ + path
}

impl WhisperLocalProvider {
    pub closed spec fn config_view(&self) -> WhisperLocalConfig {
        self.config
    }

    pub closed spec fn name_view(&self) -> Seq<char> {
        self.name@
    }

    /// Validates the model path: a `*.partial` download is rejected as a
    /// corrupt model; otherwise the provider is named
    /// `whisper-local:<label>`.
    pub fn new(config: WhisperLocalConfig) -> (r: Result<WhisperLocalProvider, SttError>)
        ensures
            is_partial_path(config.model_path@) ==> r == Err::<WhisperLocalProvider, SttError>(
                SttError::ModelCorrupt { path: config.model_path },
            ),
            !is_partial_path(config.model_path@) ==> (r matches Ok(p) && p.config_view() == config
                && p.name_view() == whisper_name(config.model_label@)),
    {
        if is_partial(config.model_path.as_str()) {
            return Err(SttError::ModelCorrupt { path: config.model_path });
        }
        let mut out: Vec<char> = Vec::new();
        push_str(&mut out, "whisper-local:");
        push_str(&mut out, config.model_label.as_str());
        let name = string_from_chars(out.as_slice());
        Ok(WhisperLocalProvider { config, name })
    }

    pub fn config(&self) -> (c: &WhisperLocalConfig)
        ensures
            *c == self.config_view(),
    {
        &self.config
    }

    pub fn name(&self) -> (s: &str)
        ensures
            s@ == self.name_view(),
    {
        self.name.as_str()
    }

    /// The error every transcription request gets in this build.
    pub fn transcribe_error(&self) -> (e: SttError)
        ensures
            e matches SttError::ModelNotLoaded(m) && m@ == whisper_unavailable_text(
                self.config_view().model_path@,
            ),
    {
        let mut out: Vec<char> = Vec::new();
        push_str(
            &mut out,
            "scrybe-core was built without the `whisper-local` cargo feature; enable it to load ",
        );
        push_str(&mut out, self.config.model_path.as_str());
        SttError::ModelNotLoaded(string_from_chars(out.as_slice()))
    }
}

} // verus!
