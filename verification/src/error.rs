//! The error type of the library.

use vstd::prelude::*;

verus! {

/// When things go awry
#[derive(Debug, Clone)]
pub enum GoatNsError {
    Csrf(String),
    BytePackingError(String),
    InvalidName,
    InvalidHeader(String),
    /// An I/O failure, described
    IoError(String),
    /// Something failed in the start up of the platform
    StartupError(String),
    Oidc(String),
    FileError(String),
    EmptyFile,
    /// Failed to send something across a channel
    SendError(String),
    Utf8Error(String),
    DateParseError(String),
    /// No ANY records for you!
    RFC8482,
    Generic(String),
    Regex(String),
    InvalidValue(String),
}

} // verus!
