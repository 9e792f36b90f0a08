//! The format extractors. Each turns what was read from a file into text;
//! reading the file is left to the caller.

use vstd::prelude::*;
use vstd::utf8::{decode_utf8, valid_utf8};
use crate::error::DocumentError;
use crate::formats::{is_image_ext, is_image_extension, lower, lowercase};
use crate::text::push_char;

verus! {

/// What `String::from_utf8_lossy` makes of `b`.
pub uninterp spec fn lossy_utf8(b: Seq<u8>) -> Seq<char>;

/// Relies on `String::from_utf8`: the decoded text exactly when `b` is valid UTF-8.
#[verifier::external_body]
fn utf8_string(b: Vec<u8>) -> (r: Option<String>)
    ensures
        r is Some <==> valid_utf8(b@),
        r matches Some(s) ==> s@ == decode_utf8(b@),
{
    String::from_utf8(b).ok()
}

/// Relies on `String::from_utf8_lossy`: invalid sequences become U+FFFD, and
/// valid UTF-8 is decoded as it is.
#[verifier::external_body]
fn utf8_lossy(b: &Vec<u8>) -> (r: String)
    ensures
        r@ == lossy_utf8(b@),
        valid_utf8(b@) ==> r@ == decode_utf8(b@),
{
    String::from_utf8_lossy(b.as_slice()).into_owned()
}

/// Plain text and source code: the file's bytes must be UTF-8.
pub struct TextExtractor;

impl TextExtractor {
    pub fn new() -> Self {
        TextExtractor
    }

    /// The text that `bytes` encode; `TextError` where they are not UTF-8.
    pub fn extract_text(&self, bytes: Vec<u8>) -> (r: Result<String, DocumentError>)
        ensures
            valid_utf8(bytes@) ==> (r matches Ok(s) && s@ == decode_utf8(bytes@)),
            !valid_utf8(bytes@) ==> r matches Err(DocumentError::TextError(_)),
    {
        match utf8_string(bytes) {
            Some(s) => Ok(s),
            None => Err(DocumentError::TextError(String::from_str("stream did not contain valid UTF-8"))),
        }
    }
}

/// Word-processor files, read best-effort: the text bytes they carry are
/// salvaged, the container is not parsed.
pub struct WordExtractor;

impl WordExtractor {
    pub fn new() -> Self {
        WordExtractor
    }

    /// The bytes decoded as UTF-8 where they are valid, else decoded with
    /// replacement characters; this never fails.
    pub fn extract_text(&self, bytes: Vec<u8>) -> (r: String)
        ensures
            valid_utf8(bytes@) ==> r@ == decode_utf8(bytes@),
            !valid_utf8(bytes@) ==> r@ == lossy_utf8(bytes@),
    {
        let kept = bytes.clone();
        match utf8_string(bytes) {
            Some(s) => s,
            None => utf8_lossy(&kept),
        }
    }
}

/// PDF documents. The PDF reader runs outside this library: its text, or the
/// reason it failed, is handed in.
pub struct PdfExtractor;

impl PdfExtractor {
    pub fn new() -> Self {
        PdfExtractor
    }

    /// The text the reader gave; a reader failure becomes `PdfError` with its message.
    pub fn extract_text(&self, read: Result<String, String>) -> (r: Result<String, DocumentError>)
        ensures
            match read {
                Ok(t) => r == Ok::<String, DocumentError>(t),
                Err(m) => r == Err::<String, DocumentError>(DocumentError::PdfError(m)),
            },
    {
        match read {
            Ok(t) => Ok(t),
            Err(m) => Err(DocumentError::PdfError(m)),
        }
    }
}

/// One row laid out: each cell followed by a space.
pub open spec fn row_text(row: Seq<Seq<char>>) -> Seq<char>
    decreases row.len(),
{
    if row.len() == 0 {
        Seq::empty()
    } else {
        row_text(row.drop_last()) + row.last() + seq![' ']
    }
}

/// Rows laid out: each row followed by a newline.
pub open spec fn rows_text(rows: Seq<Seq<Seq<char>>>) -> Seq<char>
    decreases rows.len(),
{
    if rows.len() == 0 {
        Seq::empty()
    } else {
        rows_text(rows.drop_last()) + row_text(rows.last()) + seq!['\n']
    }
}

/// Spreadsheets: the rows of every sheet, one after another, each cell given
/// as its text.
pub struct ExcelExtractor;

impl ExcelExtractor {
    pub fn new() -> Self {
        ExcelExtractor
    }

    /// The rows laid out as text: cells separated by spaces, rows by newlines.
    pub fn extract_text(&self, rows: &Vec<Vec<String>>) -> (r: String)
        ensures
            r@ == rows_text(rows.deep_view()),
    {
        let mut text = String::new();
        let mut i: usize = 0;
        while i < rows.len()
            invariant
                i <= rows@.len(),
                text@ == rows_text(rows.deep_view().subrange(0, i as int)),
            decreases rows@.len() - i,
        {
            let row = &rows[i];
            let ghost before = text@;
            let mut j: usize = 0;
            while j < row.len()
                invariant
                    i < rows@.len(),
                    row == &rows@[i as int],
                    j <= row@.len(),
                    text@ == before + row_text(row.deep_view().subrange(0, j as int)),
                decreases row@.len() - j,
            {
                text.append(row[j].as_str());
                push_char(&mut text, ' ');
                assert(row.deep_view().subrange(0, j + 1).drop_last() =~= row.deep_view().subrange(
                    0,
                    j as int,
                ));
                j = j + 1;
                assert(text@ =~= before + row_text(row.deep_view().subrange(0, j as int)));
            }
            push_char(&mut text, '\n');
            assert(row.deep_view().subrange(0, row@.len() as int) =~= row.deep_view());
            assert(rows.deep_view().subrange(0, i + 1).drop_last() =~= rows.deep_view().subrange(
                0,
                i as int,
            ));
            i = i + 1;
            assert(text@ =~= rows_text(rows.deep_view().subrange(0, i as int)));
        }
        assert(rows.deep_view().subrange(0, rows@.len() as int) =~= rows.deep_view());
        text
    }
}

/// Images, read by OCR; the recognition itself runs outside this library.
pub struct OcrExtractor;

impl OcrExtractor {
    pub fn new() -> Self {
        OcrExtractor
    }

    /// Whether OCR takes files with extension `ext`, case aside.
    pub fn is_supported(&self, ext: &str) -> (r: bool)
        ensures
            r == is_image_ext(lower(ext@)),
    {
        let e = lowercase(ext);
        is_image_extension(&e)
    }

    /// The sibling file that holds the enhanced image while OCR reads it.
    pub fn enhanced_path(&self, path: &str) -> (r: String)
        ensures
            r@ == path@ + ".enhanced.png"@,
    {
        let mut r = String::from_str(path);
        r.append(".enhanced.png");
        r
    }
}

} // verus!
