//! The document processor. Work on a document runs in steps, with reading the
//! file and calling the language model left to the caller between them:
//! `begin` routes the path, checks an image's size and consults the cache;
//! `text_of` hands what was read to the matching extractor; `finish` reads the
//! model's reply into insights and stores them under the path.

use vstd::prelude::*;
use vstd::utf8::{decode_utf8, valid_utf8};
use crate::cache::{after_get, after_put, lookup, DocumentCache, Entries};
use crate::error::DocumentError;
use crate::extract::{
    lossy_utf8, rows_text, ExcelExtractor, OcrExtractor, PdfExtractor, TextExtractor,
    WordExtractor,
};
use crate::formats::{check_size, path_extension, format_of, route, routed, Format, MAX_FILE_SIZE};
use crate::insights::{
    reply_insights, views, Insight, InsightExtractor, ReplyTier, INSIGHT_PROMPT_HEAD,
    INSIGHT_PROMPT_TAIL, QUICK_PROMPT_HEAD,
};

verus! {

/// What to do next with a document.
pub enum Step {
    /// The insights were cached: no extraction and no model call are needed.
    Cached(Vec<Insight>),
    /// Read the file and extract its text with this format's extractor.
    Extract(Format),
}

/// What was read from a file, in the form its extractor takes.
pub enum Content {
    /// The file's bytes (word-processor and plain-text files).
    Bytes(Vec<u8>),
    /// The spreadsheet's rows, every sheet in turn, each cell as its text.
    Rows(Vec<Vec<String>>),
    /// What an outside reader made of the file (the PDF reader, or OCR for
    /// an image): its text, or the reason it failed.
    Read(Result<String, String>),
}

/// What `text_of` gives for a format and what was read.
pub open spec fn text_result(f: Format, c: Content, r: Result<String, DocumentError>) -> bool {
    match (f, c) {
        (Format::Pdf, Content::Read(o)) => match o {
            Ok(t) => r == Ok::<String, DocumentError>(t),
            Err(m) => r == Err::<String, DocumentError>(DocumentError::PdfError(m)),
        },
        (Format::WordProcessor, Content::Bytes(b)) => r matches Ok(s) && s@ == if valid_utf8(b@) {
            decode_utf8(b@)
        } else {
            lossy_utf8(b@)
        },
        (Format::PlainText, Content::Bytes(b)) => if valid_utf8(b@) {
            r matches Ok(s) && s@ == decode_utf8(b@)
        } else {
            r matches Err(DocumentError::TextError(_))
        },
        (Format::Spreadsheet, Content::Rows(rows)) => r matches Ok(s) && s@ == rows_text(
            rows.deep_view(),
        ),
        (Format::Image, Content::Read(o)) => match o {
            Ok(t) => r == Ok::<String, DocumentError>(t),
            Err(m) => r == Err::<String, DocumentError>(DocumentError::OcrError(m)),
        },
        _ => r matches Err(DocumentError::Other(_)),
    }
}

pub struct DocumentProcessor {
    pdf_extractor: PdfExtractor,
    excel_extractor: ExcelExtractor,
    word_extractor: WordExtractor,
    ocr_extractor: OcrExtractor,
    text_extractor: TextExtractor,
    insight_extractor: InsightExtractor,
    cache: DocumentCache,
}

impl DocumentProcessor {
    pub closed spec fn wf(&self) -> bool {
        self.cache.wf()
    }

    /// The cached insights, most recently used first.
    pub closed spec fn cached(&self) -> Entries {
        self.cache.entries()
    }

    pub closed spec fn capacity(&self) -> nat {
        self.cache.capacity()
    }

    /// A processor whose cache holds at most `cache_capacity` documents.
    pub fn new(cache_capacity: usize) -> (r: Self)
        requires
            cache_capacity > 0,
        ensures
            r.wf(),
            r.capacity() > 0,
            r.cached() == Seq::<(Seq<char>, Seq<crate::insights::InsightView>)>::empty(),
            r.capacity() == cache_capacity,
    {
        DocumentProcessor {
            pdf_extractor: PdfExtractor::new(),
            excel_extractor: ExcelExtractor::new(),
            word_extractor: WordExtractor::new(),
            ocr_extractor: OcrExtractor::new(),
            text_extractor: TextExtractor::new(),
            insight_extractor: InsightExtractor::new(),
            cache: DocumentCache::new(cache_capacity),
        }
    }

    /// The first step for the file at `path`, `size` bytes long. Routing
    /// errors come first; an image over `MAX_FILE_SIZE` is refused with
    /// `FileTooLarge` before any OCR; then cached insights are returned as
    /// they are, and otherwise the file's format says how to extract it.
    pub fn begin(&mut self, path: &str, size: u64) -> (r: Result<Step, DocumentError>)
        requires
            old(self).wf(),
        ensures
            final(self).wf(),
            final(self).capacity() == old(self).capacity(),
            final(self).capacity() > 0,
            match path_extension(path@) {
                None => r matches Err(DocumentError::InvalidExtension),
                Some(e) => match format_of(e) {
                    None => r matches Err(DocumentError::UnsupportedFileType(x)) && x@ == e,
                    Some(f) => if f == Format::Image && size > MAX_FILE_SIZE {
                        r == Err::<Step, DocumentError>(DocumentError::FileTooLarge(size))
                    } else {
                        match lookup(old(self).cached(), path@) {
                            Some(v) => r matches Ok(Step::Cached(w)) && views(w@) == v,
                            None => r matches Ok(Step::Extract(g)) && g == f,
                        }
                    },
                },
            },
            r matches Ok(Step::Cached(_)) ==> final(self).cached() == after_get(
                old(self).cached(),
                path@,
            ),
            !(r matches Ok(Step::Cached(_))) ==> final(self).cached() == old(self).cached(),
    {
        let f = route(path)?;
        if f == Format::Image {
            check_size(size)?;
        }
        match self.cache.get(path) {
            Some(v) => Ok(Step::Cached(v)),
            None => Ok(Step::Extract(f)),
        }
    }

    /// The text of a document of format `format`, from what was read of it.
    /// Content of the wrong kind for the format gives `Other`.
    pub fn text_of(&self, format: Format, content: Content) -> (r: Result<String, DocumentError>)
        ensures
            text_result(format, content, r),
    {
        match (format, content) {
            (Format::Pdf, Content::Read(o)) => self.pdf_extractor.extract_text(o),
            (Format::WordProcessor, Content::Bytes(b)) => Ok(self.word_extractor.extract_text(b)),
            (Format::PlainText, Content::Bytes(b)) => self.text_extractor.extract_text(b),
            (Format::Spreadsheet, Content::Rows(rows)) => Ok(self.excel_extractor.extract_text(&rows)),
            (Format::Image, Content::Read(o)) => match o {
                Ok(t) => Ok(t),
                Err(m) => Err(DocumentError::OcrError(m)),
            },
            _ => Err(DocumentError::Other(String::from_str("content does not match the format"))),
        }
    }

    /// The prompt that asks the model for insights about `text`.
    pub fn insight_prompt(&self, text: &str) -> (r: String)
        ensures
            r@ == INSIGHT_PROMPT_HEAD@ + text@ + INSIGHT_PROMPT_TAIL@,
    {
        self.insight_extractor.insight_prompt(text)
    }

    /// The prompt that asks the model for a free-form analysis of `text`.
    pub fn quick_prompt(&self, text: &str) -> (r: String)
        ensures
            r@ == QUICK_PROMPT_HEAD@ + text@,
    {
        self.insight_extractor.quick_prompt(text)
    }

    /// Reads the model's reply about the document at `path` into insights and
    /// caches them under `path`; this never fails.
    pub fn finish(&mut self, path: &str, reply: &str) -> (r: (Vec<Insight>, ReplyTier))
        requires
            old(self).wf(),
        ensures
            final(self).wf(),
            final(self).capacity() == old(self).capacity(),
            final(self).capacity() > 0,
            final(self).cached() == after_put(
                old(self).cached(),
                old(self).capacity(),
                path@,
                views(r.0@),
            ),
            (views(r.0@), r.1) == reply_insights(reply@),
    {
        let (insights, tier) = self.insight_extractor.parse_reply(reply);
        let kept = copy_insights(&insights);
        self.cache.insert(String::from_str(path), kept);
        (insights, tier)
    }
}

/// A copy of `v`.
fn copy_insights(v: &Vec<Insight>) -> (r: Vec<Insight>)
    ensures
        views(r@) == views(v@),
{
    let mut r: Vec<Insight> = Vec::new();
    let mut i: usize = 0;
    while i < v.len()
        invariant
            i <= v@.len(),
            r@.len() == i,
            views(r@) == views(v@.subrange(0, i as int)),
        decreases v@.len() - i,
    {
        let c = v[i].clone();
        assert(c@ == v@[i as int]@);
        let ghost before = r@;
        r.push(c);
        assert forall|k: int| 0 <= k <= i implies #[trigger] views(r@)[k] == views(
            v@.subrange(0, i + 1),
        )[k] by {
            if k < i {
                assert(views(before)[k] == views(v@.subrange(0, i as int))[k]);
            }
        }
        i = i + 1;
        assert(views(r@) =~= views(v@.subrange(0, i as int)));
    }
    assert(v@.subrange(0, v@.len() as int) =~= v@);
    r
}

/// Whether some extractor takes the file at `p`.
pub open spec fn supported(p: Seq<char>) -> bool {
    match path_extension(p) {
        Some(e) => format_of(e) is Some,
        None => false,
    }
}

pub open spec fn count_failed(r: Seq<Result<Format, DocumentError>>) -> nat
    decreases r.len(),
{
    if r.len() == 0 {
        0
    } else {
        count_failed(r.drop_last()) + if r.last() is Err {
            1nat
        } else {
            0nat
        }
    }
}

pub open spec fn count_unsupported(paths: Seq<Seq<char>>) -> nat
    decreases paths.len(),
{
    if paths.len() == 0 {
        0
    } else {
        count_unsupported(paths.drop_last()) + if supported(paths.last()) {
            0nat
        } else {
            1nat
        }
    }
}

/// The route of every file of a batch, in order. A file that cannot be
/// routed gets its error and the others go on.
pub fn plan_batch(paths: &Vec<String>) -> (r: Vec<Result<Format, DocumentError>>)
    ensures
        r@.len() == paths@.len(),
        forall|i: int| 0 <= i < paths@.len() ==> routed(#[trigger] paths@[i]@, r@[i]),
{
    let mut r: Vec<Result<Format, DocumentError>> = Vec::new();
    let mut i: usize = 0;
    while i < paths.len()
        invariant
            i <= paths@.len(),
            r@.len() == i,
            forall|j: int| 0 <= j < i ==> routed(#[trigger] paths@[j]@, r@[j]),
        decreases paths@.len() - i,
    {
        r.push(route(paths[i].as_str()));
        i = i + 1;
    }
    r
}

/// Fault isolation in a batch of K files: there are exactly K outcomes, and
/// the failed ones are exactly as many as the files that no extractor takes.
pub proof fn lemma_batch_isolation(paths: Seq<Seq<char>>, r: Seq<Result<Format, DocumentError>>)
    requires
        r.len() == paths.len(),
        forall|i: int| 0 <= i < paths.len() ==> routed(#[trigger] paths[i], r[i]),
    ensures
        count_failed(r) == count_unsupported(paths),
        r.len() - count_failed(r) == paths.len() - count_unsupported(paths),
    decreases paths.len(),
{
    if paths.len() > 0 {
        let n = paths.len() - 1;
        assert forall|i: int| 0 <= i < n implies routed(#[trigger] paths.drop_last()[i], r.drop_last()[i]) by {
            assert(paths.drop_last()[i] == paths[i]);
            assert(r.drop_last()[i] == r[i]);
        }
        lemma_batch_isolation(paths.drop_last(), r.drop_last());
        assert(routed(paths[n], r[n]));
        lemma_count_bound(r);
    }
}

proof fn lemma_count_bound(r: Seq<Result<Format, DocumentError>>)
    ensures
        count_failed(r) <= r.len(),
    decreases r.len(),
{
    if r.len() > 0 {
        lemma_count_bound(r.drop_last());
    }
}

} // verus!
