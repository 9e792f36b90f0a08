//! The failures that document processing reports.

use vstd::prelude::*;

verus! {

/// Why a document could not be turned into insights.
#[derive(Debug, PartialEq, Eq)]
pub enum DocumentError {
    /// The path has no extension.
    InvalidExtension,
    /// The file is over the size ceiling; carries its size in bytes.
    FileTooLarge(u64),
    /// No extractor handles this extension; carries the extension as written.
    UnsupportedFileType(String),
    PdfError(String),
    ExcelError(String),
    WordError(String),
    OcrError(String),
    TextError(String),
    /// The completion call failed.
    InsightError(String),
    IoError(String),
    Other(String),
}

} // verus!
