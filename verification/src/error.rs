//! Error type hierarchy.
//!
//! Each adapter owns a narrow variant set and composes into [`CoreError`].
//! Payloads that carry an underlying cause hold its rendered message.
//! `to_string` renders each error the way it is displayed to users.

use vstd::prelude::*;

use crate::text::{dec, push_dec, push_str, string_from_chars};

verus! {

/// Renders `parts` joined by nothing: `a + b`.
fn render2(a: &str, b: &str) -> (s: String)
    ensures
        s@ == a@ + b@,
{
    let mut out: Vec<char> = Vec::new();
    push_str(&mut out, a);
    push_str(&mut out, b);
    string_from_chars(out.as_slice())
}

/// Renders `a + dec(n) + b`.
fn render_num(a: &str, n: u64, b: &str) -> (s: String)
    ensures
        s@ == a@ + dec(n as nat) + b@,
{
    let mut out: Vec<char> = Vec::new();
    push_str(&mut out, a);
    push_dec(&mut out, n);
    push_str(&mut out, b);
    string_from_chars(out.as_slice())
}

/// Renders `a + dec(n)`.
fn render_prefix_num(a: &str, n: u64) -> (s: String)
    ensures
        s@ == a@ + dec(n as nat),
{
    let mut out: Vec<char> = Vec::new();
    push_str(&mut out, a);
    push_dec(&mut out, n);
    string_from_chars(out.as_slice())
}

/// Failures of the capture adapters.
#[derive(Debug, PartialEq, Eq)]
pub enum CaptureError {
    PermissionDenied(String),
    DeviceUnavailable(String),
    DeviceChanged { was: String, now: String },
    SystemSlept { at_secs: u64 },
    UnsupportedSampleRate(u32),
    Platform(String),
    StreamClosed,
}

impl CaptureError {
    pub open spec fn message(&self) -> Seq<char> {
        match self {
            CaptureError::PermissionDenied(d) => "permission denied: "@ + d@,
            CaptureError::DeviceUnavailable(d) => "device not available: "@ + d@,
            CaptureError::DeviceChanged { was, now } => "default input device changed mid-session: was "@
                + was@ + ", now "@ + now@,
            CaptureError::SystemSlept { at_secs } => "system entered sleep state mid-session at "@
                + dec(*at_secs as nat) + "s"@,
            CaptureError::UnsupportedSampleRate(r) => "unsupported sample rate: "@ + dec(
                *r as nat,
            ) + " Hz"@,
            CaptureError::Platform(m) => "platform API error: "@ + m@,
            CaptureError::StreamClosed => "capture stream closed unexpectedly"@,
        }
    }

    /// The user-facing rendering of this error.
    pub fn to_string(&self) -> (s: String)
        ensures
            s@ == self.message(),
    {
        match self {
            CaptureError::PermissionDenied(d) => render2("permission denied: ", d.as_str()),
            CaptureError::DeviceUnavailable(d) => render2("device not available: ", d.as_str()),
            CaptureError::DeviceChanged { was, now } => {
                let mut out: Vec<char> = Vec::new();
                push_str(&mut out, "default input device changed mid-session: was ");
                push_str(&mut out, was.as_str());
                push_str(&mut out, ", now ");
                push_str(&mut out, now.as_str());
                string_from_chars(out.as_slice())
            },
            CaptureError::SystemSlept { at_secs } => render_num(
                "system entered sleep state mid-session at ",
                *at_secs,
                "s",
            ),
            CaptureError::UnsupportedSampleRate(r) => render_num(
                "unsupported sample rate: ",
                *r as u64,
                " Hz",
            ),
            CaptureError::Platform(m) => render2("platform API error: ", m.as_str()),
            CaptureError::StreamClosed => String::from_str("capture stream closed unexpectedly"),
        }
    }
}

/// Failures of speech-to-text providers.
#[derive(Debug, PartialEq, Eq)]
pub enum SttError {
    ModelNotLoaded(String),
    ModelCorrupt { path: String },
    ProviderStatus { status: u16 },
    RetriesExhausted { attempts: u32 },
    Transport(String),
    Decoding(String),
}

impl SttError {
    pub open spec fn message(&self) -> Seq<char> {
        match self {
            SttError::ModelNotLoaded(m) => "model not loaded: "@ + m@,
            SttError::ModelCorrupt { path } => "model file corrupt or wrong checksum: "@ + path@,
            SttError::ProviderStatus { status } => "provider returned non-success status: "@
                + dec(*status as nat),
            SttError::RetriesExhausted { attempts } => "retry budget exhausted after "@ + dec(
                *attempts as nat,
            ) + " attempts"@,
            SttError::Transport(m) => "transport: "@ + m@,
            SttError::Decoding(m) => "decoding: "@ + m@,
        }
    }

    /// The user-facing rendering of this error.
    pub fn to_string(&self) -> (s: String)
        ensures
            s@ == self.message(),
    {
        match self {
            SttError::ModelNotLoaded(m) => render2("model not loaded: ", m.as_str()),
            SttError::ModelCorrupt { path } => render2(
                "model file corrupt or wrong checksum: ",
                path.as_str(),
            ),
            SttError::ProviderStatus { status } => render_prefix_num(
                "provider returned non-success status: ",
                *status as u64,
            ),
            SttError::RetriesExhausted { attempts } => render_num(
                "retry budget exhausted after ",
                *attempts as u64,
                " attempts",
            ),
            SttError::Transport(m) => render2("transport: ", m.as_str()),
            SttError::Decoding(m) => render2("decoding: ", m.as_str()),
        }
    }
}

/// Failures of language-model providers.
#[derive(Debug, PartialEq, Eq)]
pub enum LlmError {
    ProviderStatus { status: u16 },
    RetriesExhausted { attempts: u32 },
    PromptRendering(String),
    Transport(String),
}

impl LlmError {
    pub open spec fn message(&self) -> Seq<char> {
        match self {
            LlmError::ProviderStatus { status } => "provider returned non-success status: "@
                + dec(*status as nat),
            LlmError::RetriesExhausted { attempts } => "retry budget exhausted after "@ + dec(
                *attempts as nat,
            ) + " attempts"@,
            LlmError::PromptRendering(m) => "prompt rendering: "@ + m@,
            LlmError::Transport(m) => "transport: "@ + m@,
        }
    }

    /// The user-facing rendering of this error.
    pub fn to_string(&self) -> (s: String)
        ensures
            s@ == self.message(),
    {
        match self {
            LlmError::ProviderStatus { status } => render_prefix_num(
                "provider returned non-success status: ",
                *status as u64,
            ),
            LlmError::RetriesExhausted { attempts } => render_num(
                "retry budget exhausted after ",
                *attempts as u64,
                " attempts",
            ),
            LlmError::PromptRendering(m) => render2("prompt rendering: ", m.as_str()),
            LlmError::Transport(m) => render2("transport: ", m.as_str()),
        }
    }
}

/// Failures of lifecycle hooks.
#[derive(Debug, PartialEq, Eq)]
pub enum HookError {
    Timeout { timeout_ms: u32 },
    Hook(String),
}

impl HookError {
    pub open spec fn message(&self) -> Seq<char> {
        match self {
            HookError::Timeout { timeout_ms } => "hook timed out after "@ + dec(
                *timeout_ms as nat,
            ) + " ms"@,
            HookError::Hook(m) => "hook returned error: "@ + m@,
        }
    }

    /// The user-facing rendering of this error.
    pub fn to_string(&self) -> (s: String)
        ensures
            s@ == self.message(),
    {
        match self {
            HookError::Timeout { timeout_ms } => render_num(
                "hook timed out after ",
                *timeout_ms as u64,
                " ms",
            ),
            HookError::Hook(m) => render2("hook returned error: ", m.as_str()),
        }
    }
}

/// Failures of the storage layer. `source` payloads hold the rendered
/// underlying I/O error.
#[derive(Debug, PartialEq, Eq)]
pub enum StorageError {
    DiskFull { path: String },
    SessionLocked { pid: u32, path: String },
    AtomicRename { path: String, source: String },
    InvalidTargetPath { path: String },
    Persist { path: String, source: String },
    Io(String),
}

impl StorageError {
    pub open spec fn message(&self) -> Seq<char> {
        match self {
            StorageError::DiskFull { path } => "disk full or quota exceeded at "@ + path@,
            StorageError::SessionLocked { pid, path } => "session lock held by pid "@ + dec(
                *pid as nat,
            ) + " at "@ + path@,
            StorageError::AtomicRename { path, .. } => "atomic rename failed: "@ + path@,
            StorageError::InvalidTargetPath { path } => "invalid target path (no parent): "@
                + path@,
            StorageError::Persist { path, .. } => "named-temp-file persist failed: "@ + path@,
            StorageError::Io(m) => "io: "@ + m@,
        }
    }

    /// The user-facing rendering of this error.
    pub fn to_string(&self) -> (s: String)
        ensures
            s@ == self.message(),
    {
        match self {
            StorageError::DiskFull { path } => render2(
                "disk full or quota exceeded at ",
                path.as_str(),
            ),
            StorageError::SessionLocked { pid, path } => {
                let mut out: Vec<char> = Vec::new();
                push_str(&mut out, "session lock held by pid ");
                push_dec(&mut out, *pid as u64);
                push_str(&mut out, " at ");
                push_str(&mut out, path.as_str());
                string_from_chars(out.as_slice())
            },
            StorageError::AtomicRename { path, .. } => render2(
                "atomic rename failed: ",
                path.as_str(),
            ),
            StorageError::InvalidTargetPath { path } => render2(
                "invalid target path (no parent): ",
                path.as_str(),
            ),
            StorageError::Persist { path, .. } => render2(
                "named-temp-file persist failed: ",
                path.as_str(),
            ),
            StorageError::Io(m) => render2("io: ", m.as_str()),
        }
    }
}

/// Configuration failures.
#[derive(Debug, PartialEq, Eq)]
pub enum ConfigError {
    NotFound { path: String },
    Parse { path: String, message: String },
    UnknownKey { key: String, line: usize },
    Missing { key: String },
    UnsupportedSchemaVersion { found: u32, target: u32 },
    Invalid { key: String, reason: String },
}

impl ConfigError {
    /// `Invalid` with the given key and reason.
    pub open spec fn is_invalid(&self, key: Seq<char>, reason: Seq<char>) -> bool {
        self matches ConfigError::Invalid { key: k, reason: r } && k@ == key && r@ == reason
    }

    /// `Missing` for the given key.
    pub open spec fn is_missing(&self, key: Seq<char>) -> bool {
        self matches ConfigError::Missing { key: k } && k@ == key
    }

    /// Builds `Invalid { key, reason }`.
    pub fn invalid(key: &str, reason: &str) -> (e: ConfigError)
        ensures
            e.is_invalid(key@, reason@),
    {
        ConfigError::Invalid { key: key.to_owned(), reason: reason.to_owned() }
    }

    /// Builds `Missing { key }`.
    pub fn missing(key: &str) -> (e: ConfigError)
        ensures
            e.is_missing(key@),
    {
        ConfigError::Missing { key: key.to_owned() }
    }

    pub open spec fn message(&self) -> Seq<char> {
        match self {
            ConfigError::NotFound { path } => "config file not found at "@ + path@,
            ConfigError::Parse { path, message } => "config parse error in "@ + path@ + ": "@
                + message@,
            ConfigError::UnknownKey { key, line } => "unknown config key "@ + key@ + " (line "@
                + dec(*line as nat) + ")"@,
            ConfigError::Missing { key } => "missing required value for "@ + key@,
            ConfigError::UnsupportedSchemaVersion { found, target } => "schema version "@ + dec(
                *found as nat,
            ) + " cannot be auto-migrated to "@ + dec(*target as nat),
            ConfigError::Invalid { key, reason } => "invalid config value for "@ + key@ + ": "@
                + reason@,
        }
    }

    /// The user-facing rendering of this error.
    pub fn to_string(&self) -> (s: String)
        ensures
            s@ == self.message(),
    {
        let mut out: Vec<char> = Vec::new();
        match self {
            ConfigError::NotFound { path } => {
                push_str(&mut out, "config file not found at ");
                push_str(&mut out, path.as_str());
            },
            ConfigError::Parse { path, message } => {
                push_str(&mut out, "config parse error in ");
                push_str(&mut out, path.as_str());
                push_str(&mut out, ": ");
                push_str(&mut out, message.as_str());
            },
            ConfigError::UnknownKey { key, line } => {
                push_str(&mut out, "unknown config key ");
                push_str(&mut out, key.as_str());
                push_str(&mut out, " (line ");
                push_dec(&mut out, *line as u64);
                push_str(&mut out, ")");
            },
            ConfigError::Missing { key } => {
                push_str(&mut out, "missing required value for ");
                push_str(&mut out, key.as_str());
            },
            ConfigError::UnsupportedSchemaVersion { found, target } => {
                push_str(&mut out, "schema version ");
                push_dec(&mut out, *found as u64);
                push_str(&mut out, " cannot be auto-migrated to ");
                push_dec(&mut out, *target as u64);
            },
            ConfigError::Invalid { key, reason } => {
                push_str(&mut out, "invalid config value for ");
                push_str(&mut out, key.as_str());
                push_str(&mut out, ": ");
                push_str(&mut out, reason.as_str());
            },
        }
        string_from_chars(out.as_slice())
    }
}

/// Failures of the consent step.
#[derive(Debug, PartialEq, Eq)]
pub enum ConsentError {
    UserAborted,
    AttestationWriteFailed(StorageError),
    ChatTargetMissing,
    TtsUnavailable(String),
}

impl ConsentError {
    pub open spec fn message(&self) -> Seq<char> {
        match self {
            ConsentError::UserAborted => "user aborted at consent prompt"@,
            ConsentError::AttestationWriteFailed(e) => "attestation could not be written to meta.toml: "@
                + e.message(),
            ConsentError::ChatTargetMissing => "notify mode requested but no chat target detected"@,
            ConsentError::TtsUnavailable(m) => "announce mode requested but TTS engine unavailable: "@
                + m@,
        }
    }

    /// The user-facing rendering of this error.
    pub fn to_string(&self) -> (s: String)
        ensures
            s@ == self.message(),
    {
        match self {
            ConsentError::UserAborted => String::from_str("user aborted at consent prompt"),
            ConsentError::AttestationWriteFailed(e) => {
                let inner = e.to_string();
                render2("attestation could not be written to meta.toml: ", inner.as_str())
            },
            ConsentError::ChatTargetMissing => String::from_str(
                "notify mode requested but no chat target detected",
            ),
            ConsentError::TtsUnavailable(m) => render2(
                "announce mode requested but TTS engine unavailable: ",
                m.as_str(),
            ),
        }
    }
}

/// Failures inside the audio/notes pipeline.
#[derive(Debug, PartialEq, Eq)]
pub enum PipelineError {
    VadInit(String),
    Resample { source_rate: u32 },
    OpusEncode(String),
    MetaSerialize(String),
    EmptyChunk,
    DiarizerUnavailable { reason: String },
    InvalidFrame(String),
    EmptyJournal { source_tag: String },
    /// The merged audio's duration disagrees with the wall clock;
    /// `detail` holds the rendered durations and ratio.
    DurationMismatch { detail: String },
    InvalidGeneratedTitle,
}

impl PipelineError {
    pub open spec fn message(&self) -> Seq<char> {
        match self {
            PipelineError::VadInit(m) => "vad initialization failed: "@ + m@,
            PipelineError::Resample { source_rate } => "resample failed: source rate "@ + dec(
                *source_rate as nat,
            ) + " Hz"@,
            PipelineError::OpusEncode(m) => "opus encoder failed: "@ + m@,
            PipelineError::MetaSerialize(m) => "metadata serialization failed: "@ + m@,
            PipelineError::EmptyChunk => "empty chunk emitted; dropped without sending to stt"@,
            PipelineError::DiarizerUnavailable { reason } => "diarizer unavailable: "@ + reason@,
            PipelineError::InvalidFrame(m) => "invalid frame: "@ + m@,
            PipelineError::EmptyJournal { source_tag } => "journal has no audio for source "@
                + source_tag@,
            PipelineError::DurationMismatch { detail } => "merged audio duration mismatch: "@
                + detail@,
            PipelineError::InvalidGeneratedTitle => "generated title is empty or invalid"@,
        }
    }

    /// The user-facing rendering of this error.
    pub fn to_string(&self) -> (s: String)
        ensures
            s@ == self.message(),
    {
        match self {
            PipelineError::VadInit(m) => render2("vad initialization failed: ", m.as_str()),
            PipelineError::Resample { source_rate } => render_num(
                "resample failed: source rate ",
                *source_rate as u64,
                " Hz",
            ),
            PipelineError::OpusEncode(m) => render2("opus encoder failed: ", m.as_str()),
            PipelineError::MetaSerialize(m) => render2(
                "metadata serialization failed: ",
                m.as_str(),
            ),
            PipelineError::EmptyChunk => String::from_str(
                "empty chunk emitted; dropped without sending to stt",
            ),
            PipelineError::DiarizerUnavailable { reason } => render2(
                "diarizer unavailable: ",
                reason.as_str(),
            ),
            PipelineError::InvalidFrame(m) => render2("invalid frame: ", m.as_str()),
            PipelineError::EmptyJournal { source_tag } => render2(
                "journal has no audio for source ",
                source_tag.as_str(),
            ),
            PipelineError::DurationMismatch { detail } => render2(
                "merged audio duration mismatch: ",
                detail.as_str(),
            ),
            PipelineError::InvalidGeneratedTitle => String::from_str(
                "generated title is empty or invalid",
            ),
        }
    }
}

/// Top-level error returned by the library's public surface.
#[derive(Debug, PartialEq, Eq)]
pub enum CoreError {
    Capture(CaptureError),
    Stt(SttError),
    Llm(LlmError),
    Storage(StorageError),
    Config(ConfigError),
    Consent(ConsentError),
    Pipeline(PipelineError),
}

impl CoreError {
    pub open spec fn message(&self) -> Seq<char> {
        match self {
            CoreError::Capture(e) => "capture: "@ + e.message(),
            CoreError::Stt(e) => "speech-to-text: "@ + e.message(),
            CoreError::Llm(e) => "language model: "@ + e.message(),
            CoreError::Storage(e) => "storage: "@ + e.message(),
            CoreError::Config(e) => "config: "@ + e.message(),
            CoreError::Consent(e) => "consent: "@ + e.message(),
            CoreError::Pipeline(e) => "pipeline: "@ + e.message(),
        }
    }

    /// The user-facing rendering of this error.
    pub fn to_string(&self) -> (s: String)
        ensures
            s@ == self.message(),
    {
        match self {
            CoreError::Capture(e) => render2("capture: ", e.to_string().as_str()),
            CoreError::Stt(e) => render2("speech-to-text: ", e.to_string().as_str()),
            CoreError::Llm(e) => render2("language model: ", e.to_string().as_str()),
            CoreError::Storage(e) => render2("storage: ", e.to_string().as_str()),
            CoreError::Config(e) => render2("config: ", e.to_string().as_str()),
            CoreError::Consent(e) => render2("consent: ", e.to_string().as_str()),
            CoreError::Pipeline(e) => render2("pipeline: ", e.to_string().as_str()),
        }
    }
}

impl From<CaptureError> for CoreError {
    fn from(e: CaptureError) -> (r: Self) {
        CoreError::Capture(e)
    }
}

impl vstd::std_specs::convert::FromSpecImpl<CaptureError> for CoreError {
    open spec fn obeys_from_spec() -> bool {
        true
    }

    open spec fn from_spec(e: CaptureError) -> CoreError {
        CoreError::Capture(e)
    }
}

impl From<SttError> for CoreError {
    fn from(e: SttError) -> (r: Self) {
        CoreError::Stt(e)
    }
}

impl vstd::std_specs::convert::FromSpecImpl<SttError> for CoreError {
    open spec fn obeys_from_spec() -> bool {
        true
    }

    open spec fn from_spec(e: SttError) -> CoreError {
        CoreError::Stt(e)
    }
}

impl From<LlmError> for CoreError {
    fn from(e: LlmError) -> (r: Self) {
        CoreError::Llm(e)
    }
}

impl vstd::std_specs::convert::FromSpecImpl<LlmError> for CoreError {
    open spec fn obeys_from_spec() -> bool {
        true
    }

    open spec fn from_spec(e: LlmError) -> CoreError {
        CoreError::Llm(e)
    }
}

impl From<StorageError> for CoreError {
    fn from(e: StorageError) -> (r: Self) {
        CoreError::Storage(e)
    }
}

impl vstd::std_specs::convert::FromSpecImpl<StorageError> for CoreError {
    open spec fn obeys_from_spec() -> bool {
        true
    }

    open spec fn from_spec(e: StorageError) -> CoreError {
        CoreError::Storage(e)
    }
}

impl From<ConfigError> for CoreError {
    fn from(e: ConfigError) -> (r: Self) {
        CoreError::Config(e)
    }
}

impl vstd::std_specs::convert::FromSpecImpl<ConfigError> for CoreError {
    open spec fn obeys_from_spec() -> bool {
        true
    }

    open spec fn from_spec(e: ConfigError) -> CoreError {
        CoreError::Config(e)
    }
}

impl From<ConsentError> for CoreError {
    fn from(e: ConsentError) -> (r: Self) {
        CoreError::Consent(e)
    }
}

impl vstd::std_specs::convert::FromSpecImpl<ConsentError> for CoreError {
    open spec fn obeys_from_spec() -> bool {
        true
    }

    open spec fn from_spec(e: ConsentError) -> CoreError {
        CoreError::Consent(e)
    }
}

impl From<PipelineError> for CoreError {
    fn from(e: PipelineError) -> (r: Self) {
        CoreError::Pipeline(e)
    }
}

impl vstd::std_specs::convert::FromSpecImpl<PipelineError> for CoreError {
    open spec fn obeys_from_spec() -> bool {
        true
    }

    open spec fn from_spec(e: PipelineError) -> CoreError {
        CoreError::Pipeline(e)
    }
}

} // verus!
