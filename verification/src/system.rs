//! The entry point of the library.

use vstd::prelude::*;

verus! {

/// The indexing and search core.
///
/// It owns no file, model or store handle: the caller does that work between
/// two calls and hands in what came of it, so a value of this type carries
/// no state of its own.
#[derive(Debug, Clone, Copy, PartialEq, Eq, Structural)]
pub struct FileEmbeddingSystem {}

impl FileEmbeddingSystem {
    /// The core, ready for use.
    pub fn new() -> (system: FileEmbeddingSystem) {
        FileEmbeddingSystem {}
    }
}

} // verus!
