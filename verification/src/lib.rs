//! Duplicate and near-duplicate detection for a media directory tree.
//!
//! The engine groups scanned files by content digest (exact duplicates) and,
//! within each parent directory, compares the perceptual fingerprints of
//! same-category files (near duplicates). Filesystem walking, digest and
//! fingerprint computation are external collaborators: the engine consumes
//! their results as plain values.

pub mod classify;
pub mod compare;
pub mod digest;
pub mod index;
pub mod laws;
pub mod model;
pub mod phash;
pub mod ports;
pub mod service;
