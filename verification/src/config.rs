use vstd::prelude::*;

verus! {

/// One declared replication: a source to mirror and a destination directory
/// to mirror it into. The paths are raw bytes as they appeared in the
/// configuration, not necessarily canonical; canonicalization happens inside
/// the engine's shell.
#[derive(Debug, PartialEq, Eq)]
pub struct Link {
    pub source: Vec<u8>,
    pub destination: Vec<u8>,
}

/// A batch configuration: the ordered list of replications to perform, each
/// one with backups enabled.
#[derive(Debug, PartialEq, Eq)]
pub struct Config {
    pub links_to_do: Vec<Link>,
}

} // verus!
