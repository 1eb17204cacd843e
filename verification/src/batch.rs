//! Ingestion of a directory tree: one entry after another, each failure kept
//! to its own path.

use crate::error::FileEmbeddingError;
use crate::system::FileEmbeddingSystem;
use vstd::prelude::*;

verus! {

/// An entry that the directory walk yielded.
#[derive(Debug, Clone, PartialEq, Eq)]
pub struct WalkEntry {
    pub path: String,
    /// Whether the entry is a regular file.
    pub is_file: bool,
}

/// A failure of the directory walk at one entry.
#[derive(Debug, Clone, PartialEq, Eq)]
pub struct WalkFailure {
    /// The path at which the walk failed, where it is known.
    pub path: Option<String>,
    pub detail: String,
}

/// A path that was not indexed, and why.
#[derive(Debug, Clone, PartialEq, Eq)]
pub struct IndexFailure {
    /// The offending path, where it is known.
    pub path: Option<String>,
    pub error: FileEmbeddingError,
}

/// What became of the entries of a directory tree, in the order of the walk.
#[derive(Debug, Clone, PartialEq, Eq)]
pub struct BatchReport {
    /// The paths for which a record was created.
    pub indexed: Vec<String>,
    /// The paths that failed, each with its failure.
    pub failures: Vec<IndexFailure>,
}

impl BatchReport {
    /// The report of a batch in which nothing has happened yet.
    pub fn new() -> (report: BatchReport)
        ensures
            report.indexed@.len() == 0,
            report.failures@.len() == 0,
    {
        BatchReport { indexed: Vec::new(), failures: Vec::new() }
    }

    /// Enters how indexing `path` ended. A failure is listed and nothing
    /// else changes: what was entered before stays, and the batch goes on.
    pub fn record(&mut self, path: String, outcome: Result<(), FileEmbeddingError>)
        ensures
            match outcome {
                Ok(_) => {
                    &&& final(self).indexed@ == old(self).indexed@.push(path)
                    &&& final(self).failures@ == old(self).failures@
                },
                Err(error) => {
                    &&& final(self).indexed@ == old(self).indexed@
                    &&& final(self).failures@ == old(self).failures@.push(
                        (IndexFailure { path: Some(path), error }),
                    )
                },
            },
    {
        match outcome {
            Ok(_) => {
                self.indexed.push(path);
            },
            Err(error) => {
                self.failures.push(IndexFailure { path: Some(path), error });
            },
        }
    }
}

impl FileEmbeddingSystem {
    /// Takes the next entry of the walk and says which path is to be indexed
    /// for it, if any. A regular file is to be indexed. Any other entry is
    /// passed over. A failure of the walk is listed in the report as the
    /// failure of its path, and the batch goes on.
    pub fn index_directory(
        &self,
        report: &mut BatchReport,
        entry: Result<WalkEntry, WalkFailure>,
    ) -> (next: Option<String>)
        ensures
            final(report).indexed@ == old(report).indexed@,
            match entry {
                Ok(found) => {
                    &&& final(report).failures@ == old(report).failures@
                    &&& next == if found.is_file {
                        Some(found.path)
                    } else {
                        None::<String>
                    }
                },
                Err(failure) => {
                    &&& next is None
                    &&& final(report).failures@ == old(report).failures@.push(
                        (IndexFailure {
                            path: failure.path,
                            error: FileEmbeddingError::WalkDir(failure.detail),
                        }),
                    )
                },
            },
    {
        match entry {
            Ok(found) => {
                if found.is_file {
                    Some(found.path)
                } else {
                    None
                }
            },
            Err(failure) => {
                report.failures.push(
                    IndexFailure {
                        path: failure.path,
                        error: FileEmbeddingError::WalkDir(failure.detail),
                    },
                );
                None
            },
        }
    }
}

} // verus!
