//! Core of a semantic file index: the rules by which a file becomes a searchable
//! record and by which scored records are ranked.
//!
//! The crate performs no input or output. Reading files, computing embeddings and
//! talking to the record store are the caller's work; the library decides what is
//! to be done with a path, builds the record, and orders search results.
//!
//! Indexing one file goes in steps, and the caller acts between them:
//!
//! 1. inspect the path and hand the outcome to
//!    [`FileEmbeddingSystem::index_file`], which accepts the file or refuses it;
//! 2. obtain the text in the way that [`ingest::Candidate::format`] names and hand
//!    it to [`ingest::Candidate::extracted`];
//! 3. embed [`ingest::Extracted::text`] and hand the embedding to
//!    [`ingest::Extracted::embedded`], which yields the record;
//! 4. create the record in the store and hand the reply to [`ingest::stored`].
//!
//! A directory tree is indexed entry by entry with
//! [`FileEmbeddingSystem::index_directory`], which keeps each failure to its own
//! path. A search scores every stored record against the query and hands the
//! scored records to [`FileEmbeddingSystem::hybrid_search`].
//!
//! Numbers are held as IEEE 754 single-precision bit patterns: the components of
//! an embedding are carried through untouched, and scores are only ordered, as
//! [`score`] describes.

pub mod batch;
pub mod error;
pub mod format;
pub mod ingest;
pub mod mime;
pub mod models;
pub mod path;
pub mod ranking;
pub mod score;
pub mod system;
pub mod text;

pub use error::FileEmbeddingError;
pub use models::{FileRecord, SearchResult};
pub use system::FileEmbeddingSystem;
