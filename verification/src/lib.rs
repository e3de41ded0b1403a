//! Rewind: the verified core of a rolling-buffer clip recorder.

pub mod autostart;
pub mod buffer;
pub mod capture;
pub mod cli;
pub mod clipboard;
pub mod clock;
pub mod config;
pub mod crashlog;
pub mod encode;
pub mod gui;
pub mod hotkey;
pub mod media;
pub mod path;
pub mod pipeline;
pub mod text;
