//! The error taxonomy of the client core: transport, remote, decode and
//! not-found failures for the listing operations, and the local failure
//! states of the transcript resolver.

use vstd::prelude::*;
use vstd::string::*;

verus! {

/// A failed listing or detail operation.
#[derive(Debug, PartialEq)]
pub enum ApiError {
    /// The network call itself failed (connection, DNS, timeout).
    Transport(String),
    /// The remote answered with a structured error payload.
    Remote(String),
    /// The body could not be parsed as the expected structured form.
    Decode(String),
    /// A required identifier could not be resolved.
    NotFound(String),
}

/// A terminal state of one transcript-resolution attempt.
#[derive(Debug, PartialEq)]
pub enum TranscriptFailure {
    /// The player response carried no caption track list.
    NoCaptions,
    /// The caption document could not be retrieved.
    FetchError(String),
    /// Parsing yielded no usable line or segment.
    EmptyTranscript,
}

impl ApiError {
    /// One terminal message per failed operation.
    pub fn message(&self) -> (r: String)
        ensures
            (match *self {
                ApiError::Transport(d) => r@ == "transport error: "@ + d@,
                ApiError::Remote(d) => r@ == "remote error: "@ + d@,
                ApiError::Decode(d) => r@ == "decode error: "@ + d@,
                ApiError::NotFound(d) => r@ == "not found: "@ + d@,
            }),
    {
        let mut s: String;
        match self {
            ApiError::Transport(d) => {
                s = String::from_str("transport error: ");
                s.append(d.as_str());
            },
            ApiError::Remote(d) => {
                s = String::from_str("remote error: ");
                s.append(d.as_str());
            },
            ApiError::Decode(d) => {
                s = String::from_str("decode error: ");
                s.append(d.as_str());
            },
            ApiError::NotFound(d) => {
                s = String::from_str("not found: ");
                s.append(d.as_str());
            },
        }
        s
    }
}

impl TranscriptFailure {
    pub fn message(&self) -> (r: String)
        ensures
            (match *self {
                TranscriptFailure::NoCaptions => r@ == "no caption tracks"@,
                TranscriptFailure::FetchError(d) => r@ == "caption fetch failed: "@ + d@,
                TranscriptFailure::EmptyTranscript => r@ == "empty transcript"@,
            }),
    {
        match self {
            TranscriptFailure::NoCaptions => String::from_str("no caption tracks"),
            TranscriptFailure::FetchError(d) => {
                let mut s = String::from_str("caption fetch failed: ");
                s.append(d.as_str());
                s
            },
            TranscriptFailure::EmptyTranscript => String::from_str("empty transcript"),
        }
    }
}

} // verus!
