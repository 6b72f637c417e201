//! The verified core of a screen and audio recorder: BGRA to I420 conversion, the
//! audio format rules for Opus, the audio tap's chunking, the consumer's reorder buffer
//! and the decisions the pipeline and the desktop shell take on plain values.

pub mod audio;
pub mod config;
pub mod convert;
pub mod events;
pub mod pipeline;
pub mod reorder;
pub mod tap;
pub mod tray;
pub mod windows;
