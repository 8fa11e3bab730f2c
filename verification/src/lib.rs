//! A content pipeline in ordered stages: select a source, derive a topic,
//! write a message, speak it, caption it, illustrate it, and compose the
//! video.
//!
//! The library decides and computes; it does no input or output. The
//! caller performs the outside work of each stage and hands the outcome
//! back.
//!
//! - [`cycle`]: the run as a chain of typed stages.
//! - [`polling`]: the protocol that drives a remote generation job to its
//!   end.
//! - [`captions`]: caption tracks and their normalization.
//! - [`images`]: the image plan of a track and its manifest.
//! - [`sources`], [`prompts`], [`video`], [`queue`], [`logger`]: what the
//!   stages select, say, run and report.
//! - [`text`]: the character-level helpers under all of them.

pub mod captions;
pub mod cycle;
pub mod error;
pub mod images;
pub mod logger;
pub mod polling;
pub mod prompts;
pub mod queue;
pub mod sources;
pub mod text;
pub mod video;
