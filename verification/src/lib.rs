//! Verified core logic of the zeroclaw agent runtime.
pub mod json;
pub mod paths;
pub mod pattern;
pub mod text;
pub mod multimodal;
pub mod docs_sync;
pub mod hooks;
pub mod tools;
pub mod skills;
pub mod lark;
pub mod mcp;
pub mod providers;
pub mod transcription;
