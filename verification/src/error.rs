//! The failures of indexing.

use vstd::prelude::*;
use vstd::string::*;

verus! {

/// Why a file could not be indexed. Each variant carries the detail that the
/// failing step reported.
#[derive(Debug, Clone, PartialEq, Eq)]
pub enum FileEmbeddingError {
    /// The file could not be inspected or read.
    Io(String),
    /// The record store refused the record or failed.
    Database(String),
    /// The embedding provider failed on the extracted text.
    Embedding(String),
    /// The path is no regular file, or its extension is not among the supported ones.
    UnsupportedFileType(String),
    /// The content of a PDF file could not be turned into text.
    PdfExtraction(String),
    /// The directory walk failed at an entry.
    WalkDir(String),
}

/// Mathematical content of a [`FileEmbeddingError`].
pub enum FileEmbeddingErrorView {
    Io(Seq<char>),
    Database(Seq<char>),
    Embedding(Seq<char>),
    UnsupportedFileType(Seq<char>),
    PdfExtraction(Seq<char>),
    WalkDir(Seq<char>),
}

impl View for FileEmbeddingError {
    type V = FileEmbeddingErrorView;

    open spec fn view(&self) -> FileEmbeddingErrorView {
        match *self {
            FileEmbeddingError::Io(detail) => FileEmbeddingErrorView::Io(detail@),
            FileEmbeddingError::Database(detail) => FileEmbeddingErrorView::Database(detail@),
            FileEmbeddingError::Embedding(detail) => FileEmbeddingErrorView::Embedding(detail@),
            FileEmbeddingError::UnsupportedFileType(detail) => {
                FileEmbeddingErrorView::UnsupportedFileType(detail@)
            },
            FileEmbeddingError::PdfExtraction(detail) => {
                FileEmbeddingErrorView::PdfExtraction(detail@)
            },
            FileEmbeddingError::WalkDir(detail) => FileEmbeddingErrorView::WalkDir(detail@),
        }
    }
}

impl FileEmbeddingErrorView {
    /// The words that introduce the detail in the message of the error.
    pub open spec fn heading(self) -> Seq<char> {
        match self {
            FileEmbeddingErrorView::Io(_) => "IO error: "@,
            FileEmbeddingErrorView::Database(_) => "Database error: "@,
            FileEmbeddingErrorView::Embedding(_) => "Embedding error: "@,
            FileEmbeddingErrorView::UnsupportedFileType(_) => "Unsupported file type: "@,
            FileEmbeddingErrorView::PdfExtraction(_) => "PDF extraction error: "@,
            FileEmbeddingErrorView::WalkDir(_) => "WalkDir error: "@,
        }
    }

    /// The detail that the failing step reported.
    pub open spec fn detail(self) -> Seq<char> {
        match self {
            FileEmbeddingErrorView::Io(detail) => detail,
            FileEmbeddingErrorView::Database(detail) => detail,
            FileEmbeddingErrorView::Embedding(detail) => detail,
            FileEmbeddingErrorView::UnsupportedFileType(detail) => detail,
            FileEmbeddingErrorView::PdfExtraction(detail) => detail,
            FileEmbeddingErrorView::WalkDir(detail) => detail,
        }
    }

    /// The message of the error: heading, then detail.
    pub open spec fn message(self) -> Seq<char> {
        self.heading() + self.detail()
    }
}

impl FileEmbeddingError {
    /// The message of the error, for display.
    pub fn message(&self) -> (text: String)
        ensures
            text@ == self@.message(),
    {
        match self {
            FileEmbeddingError::Io(detail) => String::from_str("IO error: ").concat(
                detail.as_str(),
            ),
            FileEmbeddingError::Database(detail) => String::from_str("Database error: ").concat(
                detail.as_str(),
            ),
            FileEmbeddingError::Embedding(detail) => String::from_str("Embedding error: ").concat(
                detail.as_str(),
            ),
            FileEmbeddingError::UnsupportedFileType(detail) => String::from_str(
                "Unsupported file type: ",
            ).concat(detail.as_str()),
            FileEmbeddingError::PdfExtraction(detail) => String::from_str(
                "PDF extraction error: ",
            ).concat(detail.as_str()),
            FileEmbeddingError::WalkDir(detail) => String::from_str("WalkDir error: ").concat(
                detail.as_str(),
            ),
        }
    }
}

} // verus!
