//! Core logic of scrybe: transcript rendering and parsing, notes prompts,
//! chunking decisions, configuration validation and routing rules.

pub mod text;
pub mod notes_segments;
pub mod notes_map_reduce;
pub mod notes;
pub mod types;
pub mod context;
pub mod error;
pub mod config;
pub mod providers;
pub mod paths;
pub mod diarize;
pub mod record_defaults;
pub mod hooks;
pub mod pipeline;
pub mod consent;
pub mod transcript_roundtrip;
pub mod session;
pub mod session_log;
pub mod agent_access;
pub mod repair;
