use vstd::prelude::*;

use crate::paths::CanonPath;

verus! {

/// The ways replication and batch synchronization fail. Every component
/// returns the first error it hits; nothing is retried or rolled back.
#[derive(Debug, PartialEq, Eq)]
pub enum Error {
    /// The source or destination path does not exist. Carries the path as
    /// the caller gave it.
    PathNotFound { path: Vec<u8> },
    /// The destination exists but is not a directory. Carries its canonical
    /// path.
    NotADirectory { path: CanonPath },
    /// The source and destination kinds cannot be combined: the source has
    /// no final name of its own to link under.
    IncompatiblePaths { source: CanonPath },
    /// An enumerated item is not rooted under the source it was enumerated
    /// from. Defensive: enumeration is rooted at the source, so this is not
    /// expected to occur.
    PathPrefixMismatch { item: CanonPath },
    /// Symbolic links are not supported on this platform; nothing was
    /// attempted.
    UnsupportedPlatform,
    /// An underlying rename, delete, link or directory read failed. Carries
    /// the path the operation was applied to.
    IoError { path: Vec<u8> },
    /// The batch configuration file does not exist.
    ConfigNotFound,
    /// The batch configuration file could not be parsed.
    ConfigParseError,
}

} // verus!
