//! The installer engine: what the wizard decides, validates and runs, kept
//! apart from the processes, files and windows it drives.

pub mod unattend;
pub mod types;
pub mod exec;
pub mod ops;
pub mod preflight;
pub mod state;
pub mod disk;
pub mod commands;
