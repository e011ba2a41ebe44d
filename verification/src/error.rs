//! The library's error vocabulary. Failures while handling a single
//! file are reported and that file is skipped; failures while loading
//! the configuration abort the run. The verified functions of this
//! crate never fail themselves, so these values are made at the edges,
//! where files are read and configuration is parsed, and carried
//! through as plain data.

use vstd::prelude::*;

verus! {

/// The kinds of failure an analysis run can meet, each carrying a
/// human-readable message.
pub enum CodeStatsError {
    Io(String),
    ParseError(String),
    InvalidPath(String),
    LanguageDetectionError(String),
    Config(String),
    EncodingError(String),
    PermissionDenied(String),
    InvalidArgument(String),
}

impl CodeStatsError {
    /// The message carried by the error, whatever its kind.
    pub fn message(&self) -> (r: &String)
        ensures
            r@ == (match self {
                CodeStatsError::Io(m) => m@,
                CodeStatsError::ParseError(m) => m@,
                CodeStatsError::InvalidPath(m) => m@,
                CodeStatsError::LanguageDetectionError(m) => m@,
                CodeStatsError::Config(m) => m@,
                CodeStatsError::EncodingError(m) => m@,
                CodeStatsError::PermissionDenied(m) => m@,
                CodeStatsError::InvalidArgument(m) => m@,
            }),
{
        match self {
            CodeStatsError::Io(m) => m,
            CodeStatsError::ParseError(m) => m,
            CodeStatsError::InvalidPath(m) => m,
            CodeStatsError::LanguageDetectionError(m) => m,
            CodeStatsError::Config(m) => m,
            CodeStatsError::EncodingError(m) => m,
            CodeStatsError::PermissionDenied(m) => m,
            CodeStatsError::InvalidArgument(m) => m,
        }
    }
}

} // verus!
