//! Capture-pipeline logic: the VAD-aware chunker, the crash-safe journal
//! layout and its rotation bookkeeping, frame-format validation, and the
//! encoder settings. Sample processing on floating-point audio happens
//! outside this crate.

pub mod chunker;
pub mod encoder;
pub mod interleave;
pub mod merge;
pub mod journal;
pub mod normalize;
pub mod resample;
pub mod vad;
