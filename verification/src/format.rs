//! The file formats that can be indexed, told by the lower-cased extension.

use crate::text::same_text;
use vstd::prelude::*;

verus! {

/// How the text of a supported file is obtained.
#[derive(Debug, Clone, Copy, PartialEq, Eq, Structural)]
pub enum Format {
    /// The content is decoded as text.
    Text,
    /// The content is binary and its text is extracted from the PDF structure.
    Pdf,
}

/// Whether `extension` is one of the lower-case extensions read as text.
pub open spec fn is_text_extension(extension: Seq<char>) -> bool {
    ||| extension == "txt"@
    ||| extension == "md"@
    ||| extension == "rs"@
    ||| extension == "py"@
    ||| extension == "js"@
    ||| extension == "json"@
    ||| extension == "yaml"@
    ||| extension == "yml"@
    ||| extension == "toml"@
    ||| extension == "css"@
    ||| extension == "html"@
    ||| extension == "htm"@
    ||| extension == "xml"@
    ||| extension == "csv"@
    ||| extension == "log"@
    ||| extension == "doc"@
    ||| extension == "docx"@
}

/// The format of a file with the lower-case extension `extension`; `None`
/// where the extension is not supported.
pub open spec fn format_of(extension: Seq<char>) -> Option<Format> {
    if extension == "pdf"@ {
        Some(Format::Pdf)
    } else if is_text_extension(extension) {
        Some(Format::Text)
    } else {
        None
    }
}

impl Format {
    /// Computes [`format_of`].
    pub fn of_extension(extension: &str) -> (format: Option<Format>)
        ensures
            format == format_of(extension@),
    {
        if same_text(extension, "pdf") {
            Some(Format::Pdf)
        } else if same_text(extension, "txt") || same_text(extension, "md") || same_text(
            extension,
            "rs",
        ) || same_text(extension, "py") || same_text(extension, "js") || same_text(
            extension,
            "json",
        ) || same_text(extension, "yaml") || same_text(extension, "yml") || same_text(
            extension,
            "toml",
        ) || same_text(extension, "css") || same_text(extension, "html") || same_text(
            extension,
            "htm",
        ) || same_text(extension, "xml") || same_text(extension, "csv") || same_text(
            extension,
            "log",
        ) || same_text(extension, "doc") || same_text(extension, "docx") {
            Some(Format::Text)
        } else {
            None
        }
    }
}

} // verus!
