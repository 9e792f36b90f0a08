use doc_pipeline::composer::{TweetComposer, MAX_TWEET_LENGTH};
use doc_pipeline::error::DocumentError;
use doc_pipeline::extract::{ExcelExtractor, OcrExtractor, PdfExtractor, TextExtractor, WordExtractor};
use doc_pipeline::formats::Format;
use doc_pipeline::processor::{Content, DocumentProcessor};

#[test]
fn text_must_be_utf8() {
    let t = TextExtractor::new();
    assert_eq!(t.extract_text("héllo".as_bytes().to_vec()), Ok("héllo".to_string()));
    assert!(matches!(t.extract_text(vec![0x66, 0xff, 0x6f]), Err(DocumentError::TextError(_))));
}

#[test]
fn word_text_is_salvaged_lossily() {
    let w = WordExtractor::new();
    assert_eq!(w.extract_text(b"plain".to_vec()), "plain");
    assert_eq!(w.extract_text(vec![0x61, 0xff, 0x62]), "a\u{fffd}b");
}

#[test]
fn pdf_reader_outcome_is_mapped() {
    let p = PdfExtractor::new();
    assert_eq!(p.extract_text(Ok("Hello".to_string())), Ok("Hello".to_string()));
    assert_eq!(
        p.extract_text(Err("bad xref".to_string())),
        Err(DocumentError::PdfError("bad xref".to_string()))
    );
}

#[test]
fn spreadsheet_rows_are_laid_out() {
    let x = ExcelExtractor::new();
    let rows = vec![
        vec!["a".to_string(), "1".to_string()],
        vec![],
        vec!["b".to_string()],
    ];
    assert_eq!(x.extract_text(&rows), "a 1 \n\nb \n");
    assert_eq!(x.extract_text(&vec![]), "");
}

#[test]
fn content_must_match_format() {
    let p = DocumentProcessor::new(1);
    assert!(matches!(
        p.text_of(Format::Spreadsheet, Content::Bytes(vec![])),
        Err(DocumentError::Other(_))
    ));
    assert_eq!(p.text_of(Format::Image, Content::Read(Ok("seen".to_string()))), Ok("seen".to_string()));
    assert_eq!(
        p.text_of(Format::Image, Content::Read(Err("no engine".to_string()))),
        Err(DocumentError::OcrError("no engine".to_string()))
    );
    assert_eq!(
        p.text_of(Format::Pdf, Content::Read(Err("truncated".to_string()))),
        Err(DocumentError::PdfError("truncated".to_string()))
    );
    assert!(matches!(p.text_of(Format::Pdf, Content::Bytes(vec![])), Err(DocumentError::Other(_))));
    assert_eq!(
        p.text_of(Format::WordProcessor, Content::Bytes(vec![0xc3, 0x28])),
        Ok("\u{fffd}(".to_string())
    );
}

#[test]
fn ocr_formats_and_temp_path() {
    let o = OcrExtractor::new();
    for ext in ["jpg", "JPEG", "png", "gif", "bmp", "tiff", "webp", "ico", "tga"] {
        assert!(o.is_supported(ext));
    }
    assert!(!o.is_supported("pdf"));
    assert!(!o.is_supported(""));
    assert_eq!(o.enhanced_path("in/scan.png"), "in/scan.png.enhanced.png");
}

#[test]
fn tokens_split_at_spaces_and_punctuation() {
    assert_eq!(TweetComposer::count_tokens("Hello, world! It's 3pm."), 5);
    assert_eq!(TweetComposer::count_tokens(""), 0);
    assert_eq!(TweetComposer::count_tokens(" ... "), 0);
    assert_eq!(TweetComposer::count_tokens("naïve café"), 2);
}

#[test]
fn content_is_cut_to_the_limit() {
    let long: String = "é".repeat(300);
    let cut = TweetComposer::truncate_content(long);
    assert_eq!(cut.chars().count(), MAX_TWEET_LENGTH);
    assert_eq!(TweetComposer::truncate_content("short".to_string()), "short");
}

#[test]
fn replies_are_unlabelled() {
    assert_eq!(TweetComposer::topic_from_reply("  Topic:\"Rust lifetimes\" \n"), "Rust lifetimes");
    assert_eq!(TweetComposer::topic_from_reply("Topic: \"Rust\""), "\"Rust");
    assert_eq!(TweetComposer::tweet_from_reply("Tweet:\"hi\""), "hi");
    let long = format!("Tweet: {}", "x".repeat(400));
    assert_eq!(TweetComposer::tweet_from_reply(&long).len(), 270);
}
