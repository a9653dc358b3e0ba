//! Verified core of a Steam Deck dual-boot tool: the boot picker's decisions,
//! drawing and persisted configuration, and the installer engine's command
//! planning, validation and report logic.

pub mod strings;
pub mod theme;
pub mod input;
pub mod config;
pub mod engine;
pub mod canvas;
pub mod text;
pub mod picker;
pub mod frame;
