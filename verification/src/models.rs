//! The stored record and the search result.

use crate::text::text_of;
use vstd::prelude::*;

verus! {

/// One indexed file, as it is kept in the record store.
///
/// Numbers of the embedding are held by their IEEE 754 single-precision bit
/// patterns, one `u32` per component.
#[derive(Debug, Clone, PartialEq, Eq)]
pub struct FileRecord {
    /// Path of the file as it was handed to the indexer; the unique key of the store.
    pub path: String,
    /// Base name of the file, derived from `path`.
    pub name: String,
    /// Lower-cased extension without the leading dot.
    pub extension: Option<String>,
    /// Best-effort content type, absent when the extension is unknown.
    pub mime_type: Option<String>,
    /// Byte length of the file at the moment it was read.
    pub size_bytes: u64,
    /// Embedding of the extracted text.
    pub content_embedding: Vec<u32>,
    /// Leading characters of the extracted text, for display only.
    pub content_preview: String,
}

/// Mathematical content of a [`FileRecord`].
pub struct FileRecordView {
    pub path: Seq<char>,
    pub name: Seq<char>,
    pub extension: Option<Seq<char>>,
    pub mime_type: Option<Seq<char>>,
    pub size_bytes: u64,
    pub content_embedding: Seq<u32>,
    pub content_preview: Seq<char>,
}

impl View for FileRecord {
    type V = FileRecordView;

    open spec fn view(&self) -> FileRecordView {
        FileRecordView {
            path: self.path@,
            name: self.name@,
            extension: text_of(self.extension),
            mime_type: text_of(self.mime_type),
            size_bytes: self.size_bytes,
            content_embedding: self.content_embedding@,
            content_preview: self.content_preview@,
        }
    }
}

/// A record matched by a query, with its similarity to the query.
///
/// `score` is the IEEE 754 single-precision bit pattern of the similarity.
#[derive(Debug, Clone, PartialEq, Eq)]
pub struct SearchResult {
    pub file: FileRecord,
    pub score: u32,
}

} // verus!
