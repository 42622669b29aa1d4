//! Error taxonomy of the bridge: every failure carries a kind and a
//! human-readable message; the host boundary surfaces only the message.

use vstd::prelude::*;

verus! {

/// The closed set of failure kinds this core can report.
#[derive(Clone, Copy, Debug, PartialEq, Eq, Structural)]
pub enum ErrorKind {
    /// The application-private data directory cannot be resolved.
    ResourceUnavailable,
    /// Filesystem or connection-open failure.
    IoError,
    /// Statement preparation, binding, or execution failure.
    QueryError,
    /// A request value cannot be losslessly coerced to the relational model.
    ValueError,
    /// A numeric request value exceeds the supported signed 64-bit range.
    RangeError,
    /// An empty or malformed argument (for example a blank model path).
    InvalidArgument,
    /// The speech model failed to load.
    EngineLoadError,
    /// Transcription was requested before any successful model load.
    NotInitialized,
    /// Audio channel count, sample rate, or bit depth is not the fixed contract.
    InvalidAudioFormat,
    /// The audio container could not be parsed or its samples read.
    AudioReadError,
    /// The speech engine failed during decoding or segment extraction.
    InferenceError,
}

/// A failure: a kind from the closed taxonomy plus a descriptive message.
#[derive(Debug)]
pub struct Error {
    pub kind: ErrorKind,
    pub message: String,
}

impl Error {
    /// Builds an error of the given kind with the given message.
    pub fn new(kind: ErrorKind, message: String) -> (r: Error)
        ensures
            r.kind == kind,
            r.message == message,
    {
        Error { kind, message }
    }
}

} // verus!
