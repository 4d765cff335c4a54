//! A resumable audio-transcription pipeline.
//!
//! Long audio tracks are divided into fixed-duration parts, each part into
//! bounded segments that are dispatched to external speech-recognition
//! backends.  Progress is checkpointed per part in a processing record, so an
//! interrupted run resumes with the parts that are not yet complete.  A
//! debounced watcher coalesces bursts of filesystem events into a single
//! dispatch per path.

pub mod backends;
pub mod config;
pub mod errors;
pub mod file_utils;
pub mod media;
pub mod parts;
pub mod processor;
pub mod records;
pub mod retry;
pub mod segments;
pub mod stats;
pub mod text;
pub mod watcher;
