//! Core logic of a window screen recorder: frame geometry normalization,
//! encoder command construction, the encoder fallback state machine, the
//! frame emission schedule, and the session registries.

pub mod audio;
pub mod ffmpeg;
pub mod geometry;
pub mod pump;
pub mod recorder;
pub mod supervisor;
pub mod text;
pub mod window;
