//! Mono audio streaming and multi-level tile composition.
//!
//! The library holds every decision of a small audio tool, with contracts
//! that Verus proves. The codec that reads and writes sound files stays
//! outside: whoever drives it hands its answers to the library as plain
//! values and does what the library says.
//!
//! - [`mode`], [`format`], [`info`]: how a file is opened, what format it
//!   has, and the metadata that goes with it.
//! - [`file`]: one open file; when a stream has ended and what it held,
//!   whether a write went through.
//! - [`pyramid`], [`matching`], [`blend`]: coarse forms of a waveform, the
//!   best fitting stretch of a template, and mixing under a window.
//! - [`compose`]: working a template into a reference at several
//!   resolutions.
//! - [`error`]: what can go wrong.

pub mod blend;
pub mod compose;
pub mod error;
pub mod file;
pub mod format;
pub mod info;
pub mod matching;
pub mod mode;
pub mod pyramid;
