//! Ingestion of one file: from a path to the record that is handed to the store.
//!
//! The steps that touch the outside world are taken by the caller, in this
//! order: inspect the path, obtain the text, compute the embedding, create the
//! record in the store. Between two of them the caller hands the outcome to the
//! library, which either names the failure or yields what the next step needs.

use crate::error::{FileEmbeddingError, FileEmbeddingErrorView};
use crate::format::{format_of, Format};
use crate::mime::{guess_media_type, media_type_of};
use crate::models::{FileRecord, FileRecordView};
use crate::path::{extension, extension_of, file_name, file_name_of};
use crate::system::FileEmbeddingSystem;
use crate::text::{lowercase_of, preview, preview_of, text_of, to_lowercase};
use vstd::prelude::*;
use vstd::string::*;

verus! {

/// What inspecting a path has told.
#[derive(Debug, Clone, Copy, PartialEq, Eq)]
pub struct FileProbe {
    /// Whether the path names a regular file.
    pub is_file: bool,
    /// Byte length of the file.
    pub size_bytes: u64,
}

/// How obtaining the text of a file ended.
#[derive(Debug, Clone, PartialEq, Eq)]
pub enum Extraction {
    /// The text of the file.
    Text(String),
    /// The file could not be read, or its content is no text.
    Unreadable(String),
    /// The file was read, but no text could be extracted from its structure.
    Malformed(String),
}

/// A file that was accepted for indexing and whose text is wanted next.
#[derive(Debug)]
pub struct Candidate {
    path: String,
    size_bytes: u64,
    extension: String,
    format: Format,
}

/// Mathematical content of a [`Candidate`].
pub struct CandidateView {
    pub path: Seq<char>,
    pub size_bytes: u64,
    /// Lower-cased extension.
    pub extension: Seq<char>,
    pub format: Format,
}

/// An accepted file together with its text; its embedding is wanted next.
#[derive(Debug)]
pub struct Extracted {
    file: Candidate,
    text: String,
}

/// Mathematical content of an [`Extracted`].
pub struct ExtractedView {
    pub file: CandidateView,
    pub text: Seq<char>,
}

/// The extension that indexing goes by: that of the path, in lower case.
pub open spec fn lower_extension_of(path: Seq<char>) -> Option<Seq<char>> {
    match extension_of(path) {
        Some(written) => Some(lowercase_of(written)),
        None => None,
    }
}

/// The word that stands for a missing extension in a failure.
pub open spec fn no_extension() -> Seq<char> {
    "unknown"@
}

/// Whether a path of the given kind and lower-cased extension is indexed, and
/// how its text is obtained; the failure names the extension otherwise.
pub open spec fn classification(is_file: bool, extension: Option<Seq<char>>) -> Result<
    Format,
    FileEmbeddingErrorView,
> {
    match extension {
        Some(ext) => match format_of(ext) {
            Some(format) if is_file => Ok(format),
            _ => Err(FileEmbeddingErrorView::UnsupportedFileType(ext)),
        },
        None => Err(FileEmbeddingErrorView::UnsupportedFileType(no_extension())),
    }
}

/// What acceptance of `path` yields, given the outcome of inspecting it.
pub open spec fn acceptance(path: Seq<char>, probe: Result<FileProbe, String>) -> Result<
    CandidateView,
    FileEmbeddingErrorView,
> {
    match probe {
        Err(detail) => Err(FileEmbeddingErrorView::Io(detail@)),
        Ok(probe) => match classification(probe.is_file, lower_extension_of(path)) {
            Ok(format) => Ok(
                CandidateView {
                    path,
                    size_bytes: probe.size_bytes,
                    extension: lower_extension_of(path).unwrap(),
                    format,
                },
            ),
            Err(failure) => Err(failure),
        },
    }
}

/// The content type recorded for `path`: the guess for its extension as written.
pub open spec fn media_type_of_path(path: Seq<char>) -> Option<Seq<char>> {
    match extension_of(path) {
        Some(written) => media_type_of(written),
        None => None,
    }
}

/// The record of the file at `path` with the given size, text, content type
/// and embedding: name and extension come from the path, the preview from the
/// text.
pub open spec fn record_of(
    path: Seq<char>,
    size_bytes: u64,
    text: Seq<char>,
    media_type: Option<Seq<char>>,
    embedding: Seq<u32>,
) -> FileRecordView {
    FileRecordView {
        path,
        name: file_name_of(path),
        extension: lower_extension_of(path),
        mime_type: media_type,
        size_bytes,
        content_embedding: embedding,
        content_preview: preview_of(text),
    }
}

/// A path without an extension, or with one that is not supported, is refused
/// as an unsupported file type, whatever inspecting it has told.
pub proof fn lemma_unsupported_extension_is_refused(path: Seq<char>, probe: FileProbe)
    requires
        match lower_extension_of(path) {
            Some(extension) => format_of(extension) is None,
            None => true,
        },
    ensures
        acceptance(path, Ok(probe)) matches Err(FileEmbeddingErrorView::UnsupportedFileType(_)),
{
}

/// What is no regular file is refused as an unsupported file type, whatever
/// its extension.
pub proof fn lemma_only_regular_files_are_accepted(path: Seq<char>, probe: FileProbe)
    requires
        !probe.is_file,
    ensures
        acceptance(path, Ok(probe)) matches Err(FileEmbeddingErrorView::UnsupportedFileType(_)),
{
}

/// An accepted path is a regular file with a supported extension, and the
/// candidate holds the path, the size that inspection told, and the format
/// that goes with the extension.
pub proof fn lemma_accepted_is_supported_regular_file(
    path: Seq<char>,
    probe: Result<FileProbe, String>,
)
    ensures
        acceptance(path, probe) matches Ok(file) ==> {
            &&& probe matches Ok(told) && told.is_file && file.size_bytes == told.size_bytes
            &&& file.path == path
            &&& lower_extension_of(path) == Some(file.extension)
            &&& format_of(file.extension) == Some(file.format)
        },
{
}

/// Decides from the kind of a path and its lower-cased extension whether it is
/// indexed. On success the extension is handed back with the format.
pub fn classify(is_file: bool, extension: Option<String>) -> (decision: Result<
    (Format, String),
    FileEmbeddingError,
>)
    ensures
        match classification(is_file, text_of(extension)) {
            Ok(format) => decision == Ok::<(Format, String), FileEmbeddingError>(
                (format, extension.unwrap()),
            ),
            Err(failure) => decision matches Err(refusal) && refusal@ == failure,
        },
{
    match extension {
        Some(ext) => {
            let format = Format::of_extension(ext.as_str());
            match format {
                Some(format) => {
                    if is_file {
                        Ok((format, ext))
                    } else {
                        Err(FileEmbeddingError::UnsupportedFileType(ext))
                    }
                },
                None => Err(FileEmbeddingError::UnsupportedFileType(ext)),
            }
        },
        None => Err(FileEmbeddingError::UnsupportedFileType(String::from_str("unknown"))),
    }
}

impl View for Candidate {
    type V = CandidateView;

    closed spec fn view(&self) -> CandidateView {
        CandidateView {
            path: self.path@,
            size_bytes: self.size_bytes,
            extension: self.extension@,
            format: self.format,
        }
    }
}

impl Candidate {
    /// Every candidate holds the lower-cased extension of its path, that
    /// extension is supported, and the format is the one that goes with it.
    #[verifier::type_invariant]
    spec fn is_supported(&self) -> bool {
        &&& lower_extension_of(self.path@) == Some(self.extension@)
        &&& format_of(self.extension@) == Some(self.format)
    }

    /// The path of the file.
    pub fn path(&self) -> (path: &String)
        ensures
            path@ == self@.path,
    {
        &self.path
    }

    /// How the text of the file is to be obtained.
    pub fn format(&self) -> (format: Format)
        ensures
            format == self@.format,
            format_of(self@.extension) == Some(format),
    {
        proof {
            use_type_invariant(self);
        }
        self.format
    }

    /// Takes the outcome of obtaining the text. A failure ends the indexing
    /// of this file: unreadable content as an I/O failure, content without
    /// extractable text as a PDF extraction failure.
    pub fn extracted(self, outcome: Extraction) -> (next: Result<Extracted, FileEmbeddingError>)
        ensures
            match outcome {
                Extraction::Text(text) => next matches Ok(file) && file@ == (ExtractedView {
                    file: self@,
                    text: text@,
                }),
                Extraction::Unreadable(detail) => next == Err::<Extracted, FileEmbeddingError>(
                    FileEmbeddingError::Io(detail),
                ),
                Extraction::Malformed(detail) => next == Err::<Extracted, FileEmbeddingError>(
                    FileEmbeddingError::PdfExtraction(detail),
                ),
            },
    {
        match outcome {
            Extraction::Text(text) => Ok(Extracted { file: self, text }),
            Extraction::Unreadable(detail) => Err(FileEmbeddingError::Io(detail)),
            Extraction::Malformed(detail) => Err(FileEmbeddingError::PdfExtraction(detail)),
        }
    }
}

impl View for Extracted {
    type V = ExtractedView;

    closed spec fn view(&self) -> ExtractedView {
        ExtractedView { file: self.file@, text: self.text@ }
    }
}

impl Extracted {
    /// The text to embed: all of the extracted text, as one unit.
    pub fn text(&self) -> (text: &String)
        ensures
            text@ == self@.text,
    {
        &self.text
    }

    /// Builds the record from the parts that are known and the two that are
    /// handed in.
    pub fn into_record(self, media_type: Option<String>, embedding: Vec<u32>) -> (record:
        FileRecord)
        ensures
            record@ == record_of(
                self@.file.path,
                self@.file.size_bytes,
                self@.text,
                text_of(media_type),
                embedding@,
            ),
            record@.extension matches Some(extension) && format_of(extension) is Some,
    {
        proof {
            use_type_invariant(&self.file);
        }
        let name = file_name(self.file.path.as_str());
        let content_preview = preview(self.text.as_str());
        FileRecord {
            path: self.file.path,
            name,
            extension: Some(self.file.extension),
            mime_type: media_type,
            size_bytes: self.file.size_bytes,
            content_embedding: embedding,
            content_preview,
        }
    }

    /// Takes the outcome of embedding the text. A failure ends the indexing
    /// of this file; an embedding yields the record to create in the store.
    pub fn embedded(self, outcome: Result<Vec<u32>, String>) -> (next: Result<
        FileRecord,
        FileEmbeddingError,
    >)
        ensures
            match outcome {
                Ok(embedding) => {
                    &&& next matches Ok(record) && record@ == record_of(
                        self@.file.path,
                        self@.file.size_bytes,
                        self@.text,
                        media_type_of_path(self@.file.path),
                        embedding@,
                    )
                    &&& lower_extension_of(self@.file.path) matches Some(extension)
                        && format_of(extension) is Some
                },
                Err(detail) => next == Err::<FileRecord, FileEmbeddingError>(
                    FileEmbeddingError::Embedding(detail),
                ),
            },
    {
        match outcome {
            Ok(embedding) => {
                let media_type = match extension(self.file.path.as_str()) {
                    Some(written) => guess_media_type(written.as_str()),
                    None => None,
                };
                Ok(self.into_record(media_type, embedding))
            },
            Err(detail) => Err(FileEmbeddingError::Embedding(detail)),
        }
    }
}

impl FileEmbeddingSystem {
    /// Accepts `path` for indexing, or names why it is not indexed: inspecting
    /// it failed, it is no regular file, or its extension is not supported.
    /// Nothing of the file has been read by then.
    pub fn index_file(&self, path: &str, probe: Result<FileProbe, String>) -> (accepted: Result<
        Candidate,
        FileEmbeddingError,
    >)
        ensures
            match acceptance(path@, probe) {
                Ok(file) => accepted matches Ok(candidate) && candidate@ == file,
                Err(failure) => accepted matches Err(refusal) && refusal@ == failure,
            },
    {
        match probe {
            Err(detail) => Err(FileEmbeddingError::Io(detail)),
            Ok(probe) => {
                let lower = match extension(path) {
                    Some(written) => Some(to_lowercase(written.as_str())),
                    None => None,
                };
                match classify(probe.is_file, lower) {
                    Ok((format, extension)) => Ok(
                        Candidate {
                            path: path.to_owned(),
                            size_bytes: probe.size_bytes,
                            extension,
                            format,
                        },
                    ),
                    Err(failure) => Err(failure),
                }
            },
        }
    }
}

/// Takes the outcome of creating the record in the store. A refusal, such as
/// one for a path that is already stored, is a database failure.
pub fn stored(outcome: Result<(), String>) -> (end: Result<(), FileEmbeddingError>)
    ensures
        match outcome {
            Ok(_) => end is Ok,
            Err(detail) => end == Err::<(), FileEmbeddingError>(
                FileEmbeddingError::Database(detail),
            ),
        },
{
    match outcome {
        Ok(_) => Ok(()),
        Err(detail) => Err(FileEmbeddingError::Database(detail)),
    }
}

} // verus!
