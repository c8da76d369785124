//! Core of a live audio capture tool: clip identity and storage, the session that owns
//! clips, the capture pipeline state machine and the viewport engine that maps
//! a zoomable, scrollable view onto a growing sample array.

pub mod clip;
pub mod config;
pub mod pipeline;
pub mod session;
pub mod text;
pub mod viewport;
