//! Configuration schema: defaults, validated views of the string-typed
//! selectors, the schema-version gate, and the classification of TOML
//! parse failures.
//!
//! Paths are held as strings. Parsing the TOML text into these types and
//! locating the platform config directory happen outside this crate.

use vstd::prelude::*;

use crate::error::ConfigError;
use crate::providers::retry::RetryPolicy;
use crate::text::{chars_of, find, find_exec, starts_with, str_eq, string_of_range};
use crate::types::ConsentMode;
use vstd::string::StringSliceAdditionalSpecFns;

verus! {

/// Current schema version. Persisted into the on-disk file so older
/// installs can detect a forward-incompatible config without crashing.
pub const CURRENT_SCHEMA_VERSION: u32 = 1;

/// Filename used inside the platform's project config directory.
pub const CONFIG_FILE_NAME: &'static str = "config.toml";

/// Environment variable that overrides the discovered config path.
pub const CONFIG_PATH_ENV: &'static str = "SCRYBE_CONFIG";

/// `[storage]` block.
#[derive(Clone, Debug, PartialEq, Eq)]
pub struct StorageConfig {
    pub root: String,
    pub audio_format: String,
    pub audio_bitrate_kbps: u32,
}

impl StorageConfig {
    pub open spec fn is_default(&self) -> bool {
        &&& self.root@ == "~/scrybe"@
        &&& self.audio_format@ == "opus"@
        &&& self.audio_bitrate_kbps == 32
    }
}

impl Default for StorageConfig {
    fn default() -> (c: Self)
        ensures
            c.is_default(),
    {
        StorageConfig {
            root: "~/scrybe".to_owned(),
            audio_format: "opus".to_owned(),
            audio_bitrate_kbps: 32,
        }
    }
}

/// `[capture]` block.
#[derive(Clone, Debug, PartialEq, Eq)]
pub struct CaptureConfig {
    pub mic_device: String,
    pub system_audio: bool,
    pub hotkey: Option<String>,
}

impl CaptureConfig {
    pub open spec fn is_default(&self) -> bool {
        &&& self.mic_device@ == "default"@
        &&& self.system_audio
        &&& self.hotkey is None
    }
}

impl Default for CaptureConfig {
    fn default() -> (c: Self)
        ensures
            c.is_default(),
    {
        CaptureConfig { mic_device: "default".to_owned(), system_audio: true, hotkey: None }
    }
}

pub const RECORD_SOURCE_SYNTHETIC: &'static str = "synthetic";

pub const RECORD_SOURCE_MIC: &'static str = "mic";

pub const RECORD_SOURCE_MIC_SYSTEM: &'static str = "mic+system";

pub const RECORD_LLM_STUB: &'static str = "stub";

pub const RECORD_LLM_OPENAI_COMPAT: &'static str = "openai-compat";

/// `[record]` block: the defaults consumed by a bare `scrybe record`.
#[derive(Clone, Debug, PartialEq, Eq)]
pub struct RecordConfig {
    pub source: String,
    pub whisper_model: Option<String>,
    pub llm: String,
}

/// The record sources `validated_source` accepts.
pub open spec fn is_record_source(s: Seq<char>) -> bool {
    s == RECORD_SOURCE_SYNTHETIC@ || s == RECORD_SOURCE_MIC@ || s == RECORD_SOURCE_MIC_SYSTEM@
}

/// The record LLM choices `validated_llm` accepts.
pub open spec fn is_record_llm(s: Seq<char>) -> bool {
    s == RECORD_LLM_STUB@ || s == RECORD_LLM_OPENAI_COMPAT@
}

impl RecordConfig {
    pub open spec fn is_default(&self) -> bool {
        &&& self.source@ == RECORD_SOURCE_SYNTHETIC@
        &&& self.whisper_model is None
        &&& self.llm@ == RECORD_LLM_STUB@
    }

    /// The canonical source name when `source` is one of the accepted
    /// values, `None` otherwise.
    pub fn validated_source(&self) -> (r: Option<&'static str>)
        ensures
            r is Some <==> is_record_source(self.source@),
            r matches Some(c) ==> c@ == self.source@,
    {
        let s = self.source.as_str();
        if str_eq(s, RECORD_SOURCE_SYNTHETIC) {
            Some(RECORD_SOURCE_SYNTHETIC)
        } else if str_eq(s, RECORD_SOURCE_MIC) {
            Some(RECORD_SOURCE_MIC)
        } else if str_eq(s, RECORD_SOURCE_MIC_SYSTEM) {
            Some(RECORD_SOURCE_MIC_SYSTEM)
        } else {
            None
        }
    }

    /// The canonical LLM name when `llm` is one of the accepted values,
    /// `None` otherwise.
    pub fn validated_llm(&self) -> (r: Option<&'static str>)
        ensures
            r is Some <==> is_record_llm(self.llm@),
            r matches Some(c) ==> c@ == self.llm@,
    {
        let s = self.llm.as_str();
        if str_eq(s, RECORD_LLM_STUB) {
            Some(RECORD_LLM_STUB)
        } else if str_eq(s, RECORD_LLM_OPENAI_COMPAT) {
            Some(RECORD_LLM_OPENAI_COMPAT)
        } else {
            None
        }
    }
}

impl Default for RecordConfig {
    fn default() -> (c: Self)
        ensures
            c.is_default(),
    {
        RecordConfig {
            source: RECORD_SOURCE_SYNTHETIC.to_owned(),
            whisper_model: None,
            llm: RECORD_LLM_STUB.to_owned(),
        }
    }
}

/// `[stt]` block.
#[derive(Clone, Debug, PartialEq, Eq)]
pub struct SttConfig {
    pub provider: String,
    pub model: String,
    pub language: String,
    pub base_url: Option<String>,
    pub api_key_env: Option<String>,
    /// Retry policy applied by cloud STT providers.
    pub retry: RetryPolicy,
}

impl SttConfig {
    pub open spec fn is_default(&self) -> bool {
        &&& self.provider@ == "whisper-local"@
        &&& self.model@ == "large-v3-turbo"@
        &&& self.language@ == "auto"@
        &&& self.base_url is None
        &&& self.api_key_env is None
        &&& self.retry.is_default()
    }
}

impl Default for SttConfig {
    fn default() -> (c: Self)
        ensures
            c.is_default(),
    {
        SttConfig {
            provider: "whisper-local".to_owned(),
            model: "large-v3-turbo".to_owned(),
            language: "auto".to_owned(),
            base_url: None,
            api_key_env: None,
            retry: RetryPolicy::default(),
        }
    }
}

/// `[llm]` block.
#[derive(Clone, Debug, PartialEq, Eq)]
pub struct LlmConfig {
    pub provider: String,
    pub base_url: String,
    pub model: String,
    pub notes_template: String,
    pub api_key_env: Option<String>,
    /// Retry policy applied by cloud LLM providers.
    pub retry: RetryPolicy,
}

impl LlmConfig {
    pub open spec fn is_default(&self) -> bool {
        &&& self.provider@ == "ollama"@
        &&& self.base_url@ == "http://localhost:11434/v1"@
        &&& self.model@ == "llama3.1:8b"@
        &&& self.notes_template@ == "default"@
        &&& self.api_key_env is None
        &&& self.retry.is_default()
    }
}

impl Default for LlmConfig {
    fn default() -> (c: Self)
        ensures
            c.is_default(),
    {
        LlmConfig {
            provider: "ollama".to_owned(),
            base_url: "http://localhost:11434/v1".to_owned(),
            model: "llama3.1:8b".to_owned(),
            notes_template: "default".to_owned(),
            api_key_env: None,
            retry: RetryPolicy::default(),
        }
    }
}

/// `[context]` block: the context-provider names to consult, in
/// priority order, and the local calendar consulted by the ICS provider.
#[derive(Clone, Debug, PartialEq, Eq)]
pub struct ContextConfig {
    pub sources: Vec<String>,
    pub ics_path: Option<String>,
}

impl ContextConfig {
    pub open spec fn is_default(&self) -> bool {
        self.sources@.len() == 0 && self.ics_path is None
    }
}

impl Default for ContextConfig {
    fn default() -> (c: Self)
        ensures
            c.is_default(),
    {
        ContextConfig { sources: Vec::new(), ics_path: None }
    }
}

/// `[hooks.webhook]` block. The HMAC secret is read from the environment
/// variable named in `secret_env`; it never appears in the config file.
#[derive(Clone, Debug, PartialEq, Eq)]
pub struct WebhookConfig {
    pub url: String,
    pub secret_env: Option<String>,
    pub timeout_ms: u32,
}

impl WebhookConfig {
    pub open spec fn is_default(&self) -> bool {
        self.url@.len() == 0 && self.secret_env is None && self.timeout_ms == 10_000
    }
}

impl Default for WebhookConfig {
    fn default() -> (c: Self)
        ensures
            c.is_default(),
    {
        WebhookConfig { url: String::new(), secret_env: None, timeout_ms: 10_000 }
    }
}

/// `[hooks]` block.
#[derive(Clone, Debug, PartialEq, Eq)]
pub struct HooksConfig {
    pub enabled: Vec<String>,
    pub webhook: Option<WebhookConfig>,
}

impl HooksConfig {
    pub open spec fn is_default(&self) -> bool {
        self.enabled@.len() == 0 && self.webhook is None
    }
}

impl Default for HooksConfig {
    fn default() -> (c: Self)
        ensures
            c.is_default(),
    {
        HooksConfig { enabled: Vec::new(), webhook: None }
    }
}

/// `[consent]` block: the mode used when no CLI flag is passed.
#[derive(Clone, Copy, Debug, PartialEq, Eq)]
pub struct ConsentConfig {
    pub default_mode: ConsentMode,
}

impl Default for ConsentConfig {
    fn default() -> (c: Self)
        ensures
            c.default_mode == ConsentMode::Quick,
    {
        ConsentConfig { default_mode: ConsentMode::Quick }
    }
}

pub const LINUX_AUDIO_BACKEND_AUTO: &'static str = "auto";

pub const LINUX_AUDIO_BACKEND_PIPEWIRE: &'static str = "pipewire";

pub const LINUX_AUDIO_BACKEND_PULSE: &'static str = "pulse";

/// `[linux]` block: Linux capture-adapter overrides.
#[derive(Clone, Debug, PartialEq, Eq)]
pub struct LinuxConfig {
    pub audio_backend: String,
}

/// The Linux backends `validated_backend` accepts.
pub open spec fn is_linux_backend(s: Seq<char>) -> bool {
    s == LINUX_AUDIO_BACKEND_AUTO@ || s == LINUX_AUDIO_BACKEND_PIPEWIRE@ || s
        == LINUX_AUDIO_BACKEND_PULSE@
}

impl LinuxConfig {
    /// The canonical backend name when `audio_backend` is recognised,
    /// `None` for any other value (typos are not accepted silently).
    pub fn validated_backend(&self) -> (r: Option<&'static str>)
        ensures
            r is Some <==> is_linux_backend(self.audio_backend@),
            r matches Some(c) ==> c@ == self.audio_backend@,
    {
        let s = self.audio_backend.as_str();
        if str_eq(s, LINUX_AUDIO_BACKEND_AUTO) {
            Some(LINUX_AUDIO_BACKEND_AUTO)
        } else if str_eq(s, LINUX_AUDIO_BACKEND_PIPEWIRE) {
            Some(LINUX_AUDIO_BACKEND_PIPEWIRE)
        } else if str_eq(s, LINUX_AUDIO_BACKEND_PULSE) {
            Some(LINUX_AUDIO_BACKEND_PULSE)
        } else {
            None
        }
    }
}

impl Default for LinuxConfig {
    fn default() -> (c: Self)
        ensures
            c.audio_backend@ == LINUX_AUDIO_BACKEND_AUTO@,
    {
        LinuxConfig { audio_backend: LINUX_AUDIO_BACKEND_AUTO.to_owned() }
    }
}

pub const WINDOWS_AUDIO_BACKEND_AUTO: &'static str = "auto";

pub const WINDOWS_AUDIO_BACKEND_WASAPI_LOOPBACK: &'static str = "wasapi-loopback";

pub const WINDOWS_AUDIO_BACKEND_WASAPI_PROCESS_LOOPBACK: &'static str = "wasapi-process-loopback";

/// `[windows]` block: Windows capture-adapter overrides.
#[derive(Clone, Debug, PartialEq, Eq)]
pub struct WindowsConfig {
    pub audio_backend: String,
}

/// The Windows backends `validated_backend` accepts.
pub open spec fn is_windows_backend(s: Seq<char>) -> bool {
    s == WINDOWS_AUDIO_BACKEND_AUTO@ || s == WINDOWS_AUDIO_BACKEND_WASAPI_LOOPBACK@ || s
        == WINDOWS_AUDIO_BACKEND_WASAPI_PROCESS_LOOPBACK@
}

impl WindowsConfig {
    /// The canonical backend name when `audio_backend` is recognised,
    /// `None` for any other value.
    pub fn validated_backend(&self) -> (r: Option<&'static str>)
        ensures
            r is Some <==> is_windows_backend(self.audio_backend@),
            r matches Some(c) ==> c@ == self.audio_backend@,
    {
        let s = self.audio_backend.as_str();
        if str_eq(s, WINDOWS_AUDIO_BACKEND_AUTO) {
            Some(WINDOWS_AUDIO_BACKEND_AUTO)
        } else if str_eq(s, WINDOWS_AUDIO_BACKEND_WASAPI_LOOPBACK) {
            Some(WINDOWS_AUDIO_BACKEND_WASAPI_LOOPBACK)
        } else if str_eq(s, WINDOWS_AUDIO_BACKEND_WASAPI_PROCESS_LOOPBACK) {
            Some(WINDOWS_AUDIO_BACKEND_WASAPI_PROCESS_LOOPBACK)
        } else {
            None
        }
    }
}

impl Default for WindowsConfig {
    fn default() -> (c: Self)
        ensures
            c.audio_backend@ == WINDOWS_AUDIO_BACKEND_AUTO@,
    {
        WindowsConfig { audio_backend: WINDOWS_AUDIO_BACKEND_AUTO.to_owned() }
    }
}

pub const ANDROID_AUDIO_BACKEND_AUTO: &'static str = "auto";

pub const ANDROID_AUDIO_BACKEND_MEDIA_PROJECTION: &'static str = "media-projection";

pub const ANDROID_AUDIO_BACKEND_MIC_ONLY: &'static str = "mic-only";

/// `[android]` block: Android capture-adapter overrides.
#[derive(Clone, Debug, PartialEq, Eq)]
pub struct AndroidConfig {
    pub audio_backend: String,
}

/// The Android backends `validated_backend` accepts.
pub open spec fn is_android_backend(s: Seq<char>) -> bool {
    s == ANDROID_AUDIO_BACKEND_AUTO@ || s == ANDROID_AUDIO_BACKEND_MEDIA_PROJECTION@ || s
        == ANDROID_AUDIO_BACKEND_MIC_ONLY@
}

impl AndroidConfig {
    /// The canonical backend name when `audio_backend` is recognised,
    /// `None` for any other value.
    pub fn validated_backend(&self) -> (r: Option<&'static str>)
        ensures
            r is Some <==> is_android_backend(self.audio_backend@),
            r matches Some(c) ==> c@ == self.audio_backend@,
    {
        let s = self.audio_backend.as_str();
        if str_eq(s, ANDROID_AUDIO_BACKEND_AUTO) {
            Some(ANDROID_AUDIO_BACKEND_AUTO)
        } else if str_eq(s, ANDROID_AUDIO_BACKEND_MEDIA_PROJECTION) {
            Some(ANDROID_AUDIO_BACKEND_MEDIA_PROJECTION)
        } else if str_eq(s, ANDROID_AUDIO_BACKEND_MIC_ONLY) {
            Some(ANDROID_AUDIO_BACKEND_MIC_ONLY)
        } else {
            None
        }
    }
}

impl Default for AndroidConfig {
    fn default() -> (c: Self)
        ensures
            c.audio_backend@ == ANDROID_AUDIO_BACKEND_AUTO@,
    {
        AndroidConfig { audio_backend: ANDROID_AUDIO_BACKEND_AUTO.to_owned() }
    }
}

/// Sentinel meaning "let the pipeline decide".
pub const DIARIZER_KIND_AUTO: &'static str = "auto";

/// The binary-channel diarizer's config name.
pub const DIARIZER_KIND_BINARY_CHANNEL: &'static str = "binary-channel";

/// The pyannote diarizer's config name.
pub const DIARIZER_KIND_PYANNOTE_ONNX: &'static str = "pyannote-onnx";

/// `[diarizer]` block.
#[derive(Clone, Debug, PartialEq, Eq)]
pub struct DiarizerConfig {
    pub kind: String,
}

/// The diarizer kinds `validated_kind` accepts.
pub open spec fn is_diarizer_kind(s: Seq<char>) -> bool {
    s == DIARIZER_KIND_AUTO@ || s == DIARIZER_KIND_BINARY_CHANNEL@ || s
        == DIARIZER_KIND_PYANNOTE_ONNX@
}

impl DiarizerConfig {
    /// The canonical kind when `kind` is recognised, `None` for any other
    /// value.
    pub fn validated_kind(&self) -> (r: Option<&'static str>)
        ensures
            r is Some <==> is_diarizer_kind(self.kind@),
            r matches Some(c) ==> c@ == self.kind@,
    {
        let s = self.kind.as_str();
        if str_eq(s, DIARIZER_KIND_AUTO) {
            Some(DIARIZER_KIND_AUTO)
        } else if str_eq(s, DIARIZER_KIND_BINARY_CHANNEL) {
            Some(DIARIZER_KIND_BINARY_CHANNEL)
        } else if str_eq(s, DIARIZER_KIND_PYANNOTE_ONNX) {
            Some(DIARIZER_KIND_PYANNOTE_ONNX)
        } else {
            None
        }
    }

    /// True when the configured kind is the auto-routing sentinel.
    pub fn is_auto(&self) -> (b: bool)
        ensures
            b == (self.kind@ == DIARIZER_KIND_AUTO@),
    {
        str_eq(self.kind.as_str(), DIARIZER_KIND_AUTO)
    }
}

impl Default for DiarizerConfig {
    fn default() -> (c: Self)
        ensures
            c.kind@ == DIARIZER_KIND_AUTO@,
    {
        DiarizerConfig { kind: DIARIZER_KIND_AUTO.to_owned() }
    }
}

/// Notes map-reduce settings: the tokenizer file, the input cap, the
/// packing target and the overlap.
#[derive(Clone, Debug, PartialEq, Eq)]
pub struct NotesConfig {
    pub tokenizer_path: Option<String>,
    pub input_cap_tokens: Option<u32>,
    pub target_tokens: u32,
    pub overlap_segments: u32,
}

/// Top-level configuration schema.
#[derive(Clone, Debug, PartialEq, Eq)]
pub struct Config {
    pub schema_version: u32,
    pub storage: StorageConfig,
    pub capture: CaptureConfig,
    pub record: RecordConfig,
    pub stt: SttConfig,
    pub llm: LlmConfig,
    pub context: ContextConfig,
    pub hooks: HooksConfig,
    pub consent: ConsentConfig,
    /// Linux capture overrides; present on every platform.
    pub linux: LinuxConfig,
    /// Windows capture overrides; present on every platform.
    pub windows: WindowsConfig,
    /// Android capture overrides; present on every platform.
    pub android: AndroidConfig,
    /// Diarizer selection; `auto` by default.
    pub diarizer: DiarizerConfig,
}

impl Config {
    /// Every block holds its documented default.
    pub open spec fn is_default(&self) -> bool {
        &&& self.schema_version == CURRENT_SCHEMA_VERSION
        &&& self.storage.is_default()
        &&& self.capture.is_default()
        &&& self.record.is_default()
        &&& self.stt.is_default()
        &&& self.llm.is_default()
        &&& self.context.is_default()
        &&& self.hooks.is_default()
        &&& self.consent.default_mode == ConsentMode::Quick
        &&& self.linux.audio_backend@ == LINUX_AUDIO_BACKEND_AUTO@
        &&& self.windows.audio_backend@ == WINDOWS_AUDIO_BACKEND_AUTO@
        &&& self.android.audio_backend@ == ANDROID_AUDIO_BACKEND_AUTO@
        &&& self.diarizer.kind@ == DIARIZER_KIND_AUTO@
    }

    /// Checks a parsed config against the schema version this build
    /// understands.
    pub fn check_schema(self) -> (r: Result<Config, ConfigError>)
        ensures
            self.schema_version <= CURRENT_SCHEMA_VERSION ==> r == Ok::<Config, ConfigError>(self),
            self.schema_version > CURRENT_SCHEMA_VERSION ==> r == Err::<Config, ConfigError>(
                ConfigError::UnsupportedSchemaVersion {
                    found: self.schema_version,
                    target: CURRENT_SCHEMA_VERSION,
                },
            ),
    {
        match validate_schema_version(self.schema_version) {
            Ok(()) => Ok(self),
            Err(e) => Err(e),
        }
    }
}

impl Default for Config {
    fn default() -> (c: Self)
        ensures
            c.is_default(),
    {
        Config {
            schema_version: CURRENT_SCHEMA_VERSION,
            storage: StorageConfig::default(),
            capture: CaptureConfig::default(),
            record: RecordConfig::default(),
            stt: SttConfig::default(),
            llm: LlmConfig::default(),
            context: ContextConfig::default(),
            hooks: HooksConfig::default(),
            consent: ConsentConfig::default(),
            linux: LinuxConfig::default(),
            windows: WindowsConfig::default(),
            android: AndroidConfig::default(),
            diarizer: DiarizerConfig::default(),
        }
    }
}

/// Rejects a schema version newer than this build understands.
pub fn validate_schema_version(found: u32) -> (r: Result<(), ConfigError>)
    ensures
        found <= CURRENT_SCHEMA_VERSION ==> r is Ok,
        found > CURRENT_SCHEMA_VERSION ==> r == Err::<(), ConfigError>(
            ConfigError::UnsupportedSchemaVersion { found, target: CURRENT_SCHEMA_VERSION },
        ),
{
    if found > CURRENT_SCHEMA_VERSION {
        Err(ConfigError::UnsupportedSchemaVersion { found, target: CURRENT_SCHEMA_VERSION })
    } else {
        Ok(())
    }
}

// ---------------------------------------------------------------------
// Parse-error classification
// ---------------------------------------------------------------------

/// Number of line feeds in `b[0..n]`.
pub open spec fn count_newlines(b: Seq<u8>, n: int) -> nat
    decreases n,
{
    if n <= 0 {
        0
    } else {
        count_newlines(b, n - 1) + (if b[n - 1] == 10u8 {
            1nat
        } else {
            0nat
        })
    }
}

proof fn lemma_count_newlines_le(b: Seq<u8>, n: int)
    requires
        0 <= n,
    ensures
        count_newlines(b, n) <= n,
    decreases n,
{
    if n > 0 {
        lemma_count_newlines_le(b, n - 1);
    }
}

/// The 1-indexed line holding byte offset `byte` of a text whose UTF-8
/// bytes are `b`; an offset past the end counts as the end.
pub open spec fn line_of_byte_spec(b: Seq<u8>, byte: int) -> nat {
    let clamped = if byte < b.len() {
        byte
    } else {
        b.len() as int
    };
    count_newlines(b, clamped) + 1
}

/// 1-indexed line number for a byte offset in `text`: one more than the
/// number of line feeds before the (clamped) offset.
pub fn line_of_byte(text: &str, byte: usize) -> (line: usize)
    requires
        text.spec_bytes().len() < usize::MAX,
    ensures
        line == line_of_byte_spec(text.spec_bytes(), byte as int),
{
    let bytes = text.as_bytes();
    let clamped = if byte < bytes.len() {
        byte
    } else {
        bytes.len()
    };
    let mut count: usize = 0;
    let mut i: usize = 0;
    while i < clamped
        invariant
            clamped <= bytes@.len(),
            bytes@ == text.spec_bytes(),
            i <= clamped,
            count == count_newlines(bytes@, i as int),
            count <= i,
        decreases clamped - i,
    {
        if bytes[i] == 10u8 {
            count = count + 1;
        }
        i = i + 1;
    }
    count + 1
}

/// The prefix serde's strict mode puts before an unknown key.
pub open spec fn unknown_field_prefix() -> Seq<char> {
    "unknown field `"@
}

/// The key an `unknown field` message names: the text after the prefix
/// up to the next backtick.
pub open spec fn unknown_key_of(message: Seq<char>) -> Option<Seq<char>> {
    if starts_with(message, unknown_field_prefix()) {
        let rest = message.skip(unknown_field_prefix().len() as int);
        match find(rest, seq!['`']) {
            Some(k) => Some(rest.take(k)),
            None => None,
        }
    } else {
        None
    }
}

/// Turns a TOML parse failure, given by the parser's message and the byte
/// offset where its span starts (if it reported one), into a config
/// error: an unknown key with its 1-indexed line, or a parse error that
/// keeps the path and the message.
pub fn classify_toml_error(
    message: &str,
    span_start: Option<usize>,
    source_path: &str,
    text: &str,
) -> (e: ConfigError)
    requires
        text.spec_bytes().len() < usize::MAX,
    ensures
        match unknown_key_of(message@) {
            Some(key) => e matches ConfigError::UnknownKey { key: k, line } && k@ == key && line
                == (match span_start {
                Some(s) => line_of_byte_spec(text.spec_bytes(), s as int),
                None => 1,
            }),
            None => e matches ConfigError::Parse { path, message: m } && path@ == source_path@
                && m@ == message@,
        },
{
    let m = chars_of(message);
    let prefix = chars_of("unknown field `");
    let tick = chars_of("`");
    let plen = prefix.len();
    proof {
        reveal_strlit("unknown field `");
        reveal_strlit("`");
        assert(m@.subrange(0, m@.len() as int) == m@);
        assert(tick@ == seq!['`']);
    }
    if m.len() >= plen && crate::text::matches_at_exec(&m, 0, m.len(), &prefix, 0) {
        assert(starts_with(m@, unknown_field_prefix()));
        let ghost rest = m@.skip(plen as int);
        assert(m@.subrange(plen as int, m@.len() as int) == rest);
        match find_exec(&m, plen, m.len(), &tick, plen) {
            Some(k) => {
                assert(find(rest, seq!['`']) == Some((k - plen) as int));
                let key = string_of_range(&m, plen, k);
                assert(m@.subrange(plen as int, k as int) == rest.take(k - plen));
                let line = match span_start {
                    Some(s) => line_of_byte(text, s),
                    None => 1,
                };
                return ConfigError::UnknownKey { key, line };
            },
            None => {
                assert(find(rest, seq!['`']) is None);
            },
        }
    } else {
        assert(!starts_with(m@, unknown_field_prefix()));
    }
    ConfigError::Parse { path: source_path.to_owned(), message: message.to_owned() }
}

} // verus!
