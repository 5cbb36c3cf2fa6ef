use vstd::prelude::*;

verus! {

/// The ways in which sealing, opening, packing or unpacking can fail.
#[derive(Debug, Clone, Copy, PartialEq, Eq, Structural)]
#[non_exhaustive]
pub enum JencError {
    /// The key derivation function reported a failure.
    KeyDerivation,
    /// The container did not open under the password: a wrong password, or
    /// altered bytes. The two are deliberately not told apart.
    Authentication,
    /// The container is shorter than its header and tag, or its header
    /// holds a cost out of range.
    MalformedContainer,
    /// A file system operation failed.
    Filesystem,
    /// An archive entry names a path that would leave the target root.
    UnsafeEntryPath,
    /// An archive entry of a kind that cannot be stored or restored.
    UnsupportedEntry,
    /// The archive stream could not be read or written.
    Archive,
    /// A parameter is out of its range (a cost outside 5..=31, a payload
    /// too large for the cipher).
    InvalidParameter,
    /// A required parameter was not supplied.
    NoParam,
}

/// The one-line description of each kind of failure.
pub open spec fn message_text(e: JencError) -> Seq<char> {
    match e {
        JencError::KeyDerivation => "key derivation failed"@,
        JencError::Authentication => "decryption failed (bad password?)"@,
        JencError::MalformedContainer => "malformed container"@,
        JencError::Filesystem => "file system error"@,
        JencError::UnsafeEntryPath => "archive entry path escapes the target"@,
        JencError::UnsupportedEntry => "unsupported archive entry"@,
        JencError::Archive => "archive stream could not be processed"@,
        JencError::InvalidParameter => "parameter out of range"@,
        JencError::NoParam => "missing parameter"@,
    }
}

impl JencError {
    /// A one-line description of the failure.
    pub fn message(&self) -> (r: String)
        ensures
            r@ == message_text(*self),
    {
        match self {
            JencError::KeyDerivation => String::from_str("key derivation failed"),
            JencError::Authentication => String::from_str("decryption failed (bad password?)"),
            JencError::MalformedContainer => String::from_str("malformed container"),
            JencError::Filesystem => String::from_str("file system error"),
            JencError::UnsafeEntryPath => String::from_str("archive entry path escapes the target"),
            JencError::UnsupportedEntry => String::from_str("unsupported archive entry"),
            JencError::Archive => String::from_str("archive stream could not be processed"),
            JencError::InvalidParameter => String::from_str("parameter out of range"),
            JencError::NoParam => String::from_str("missing parameter"),
        }
    }
}

} // verus!
