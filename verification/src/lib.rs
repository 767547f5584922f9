//! Verified core of a file split/restore engine.
//!
//! A large file is carved into bounded-size chunks, each optionally
//! Gzip-compressed, and a manifest records how to put the pieces back
//! together.  This crate holds the split/restore logic itself: chunk
//! sizing, checksum computation, manifest construction, and byte-exact
//! reconstruction, all with machine-checked contracts.  Reading and
//! writing actual files is left to the surrounding program.

pub mod checksum;
pub mod chunking;
pub mod gzip;
pub mod laws;
pub mod manifest;
pub mod restore;
pub mod split;
