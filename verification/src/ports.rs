//! The ports of the engine: the interfaces through which a surrounding
//! program drives it and through which it consumes its collaborators.
//! The engine itself never performs I/O; implementations of these ports
//! that do live with the caller.
use vstd::prelude::*;
use crate::model::{DigestDto, MediaError};
use crate::phash::DistanceError;

verus! {

/// A file could not be read for content digesting; the entry is skipped.
#[derive(Clone, Copy, Debug, PartialEq, Eq, Structural)]
pub enum DigestFailure {
    Io,
}

/// An image could not be decoded or hashed; the record simply carries no
/// fingerprints.
#[derive(Clone, Copy, Debug, PartialEq, Eq, Structural)]
pub enum FingerprintFailure {
    Decode,
}

/// Incoming port: a service that analyzes a media folder.
pub trait MediaService {
    fn analyze_folder(&self, recursive: bool) -> Result<(), MediaError>;
}

/// Incoming port: a content digester from a file path to a digest record.
pub trait Digester {
    fn digest(&self, path: &str) -> Result<DigestDto, DigestFailure>;
}

/// Incoming port: a perceptual hasher with its distance oracle.
pub trait ImageHashing {
    fn digest(&self, path: &str) -> Result<Vec<DigestDto>, FingerprintFailure>;

    fn distance(&self, hash1: &str, hash2: &str) -> Result<u32, DistanceError>;
}

/// Outgoing port: a keyed store.
pub trait Store<K, V> {
    fn get(&self, key: &K) -> Option<&V>;

    fn put(&mut self, key: K, value: V) -> Result<(), MediaError>;
}

} // verus!
