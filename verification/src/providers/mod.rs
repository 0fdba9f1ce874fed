//! Provider surfaces: the shared retry policy used by every cloud-bound
//! implementation, the configuration and request logic of the cloud
//! transcription provider, and the model checks of the local engines.

pub mod openai_compat_llm;
pub mod openai_compat_stt;
pub mod parakeet_local;
pub mod retry;
pub mod sherpa_streaming;
pub mod streaming;
pub mod whisper_local;
