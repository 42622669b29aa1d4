//! Native-side core of a desktop bridge: a relational value bridge that
//! coerces dynamically-typed request values into the five-variant value
//! model of an embedded relational store (and back), and a transcription
//! service that manages a singleton speech-engine handle, validates audio
//! input, and assembles timed text segments into a transcript.

pub mod audio;
pub mod bridge;
pub mod coerce;
pub mod error;
pub mod speech;
pub mod text;
pub mod value;
