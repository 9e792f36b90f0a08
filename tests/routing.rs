use doc_pipeline::error::DocumentError;
use doc_pipeline::formats::{check_size, extension_of, format_for_extension, route, Format, MAX_FILE_SIZE};
use doc_pipeline::processor::{plan_batch, DocumentProcessor, Step};

#[test]
fn test_unsupported_file() {
    let mut processor = DocumentProcessor::new(16);
    let result = processor.begin("test.unsupported", 0);
    assert!(matches!(result, Err(DocumentError::UnsupportedFileType(_))));
}

#[test]
fn every_supported_extension_routes_to_its_extractor() {
    let table: Vec<(&str, Format)> = vec![
        ("pdf", Format::Pdf),
        ("xlsx", Format::Spreadsheet),
        ("xls", Format::Spreadsheet),
        ("docx", Format::WordProcessor),
        ("doc", Format::WordProcessor),
        ("jpg", Format::Image),
        ("jpeg", Format::Image),
        ("png", Format::Image),
        ("gif", Format::Image),
        ("bmp", Format::Image),
        ("tiff", Format::Image),
        ("webp", Format::Image),
        ("ico", Format::Image),
        ("tga", Format::Image),
        ("txt", Format::PlainText),
        ("md", Format::PlainText),
        ("rs", Format::PlainText),
        ("py", Format::PlainText),
        ("js", Format::PlainText),
        ("json", Format::PlainText),
        ("yaml", Format::PlainText),
        ("yml", Format::PlainText),
    ];
    for (ext, format) in table {
        let path = format!("docs/report.{}", ext);
        assert_eq!(route(&path), Ok(format));
        assert_eq!(format_for_extension(&ext.to_uppercase()), Some(format));
    }
}

#[test]
fn unknown_extension_is_unsupported_with_its_text() {
    assert_eq!(
        route("archive.TAR"),
        Err(DocumentError::UnsupportedFileType("TAR".to_string()))
    );
    assert_eq!(route("notes."), Err(DocumentError::UnsupportedFileType(String::new())));
}

#[test]
fn path_without_extension_is_invalid() {
    assert_eq!(route("README"), Err(DocumentError::InvalidExtension));
    assert_eq!(route(".bashrc"), Err(DocumentError::InvalidExtension));
    assert_eq!(route("dir.d/Makefile"), Err(DocumentError::InvalidExtension));
    assert_eq!(route("a/b/.."), Err(DocumentError::InvalidExtension));
    assert_eq!(route(""), Err(DocumentError::InvalidExtension));
    assert_eq!(route("/"), Err(DocumentError::InvalidExtension));
}

#[test]
fn extension_follows_path_rules() {
    assert_eq!(extension_of("a/b/c.tar.gz"), Some("gz".to_string()));
    assert_eq!(extension_of("a/b.txt/"), Some("txt".to_string()));
    assert_eq!(extension_of("a/b.md/."), Some("md".to_string()));
    assert_eq!(extension_of("x.y/z"), None);
    assert_eq!(extension_of(".hidden.yml"), Some("yml".to_string()));
}

#[test]
fn image_over_ceiling_is_refused_before_ocr() {
    let mut processor = DocumentProcessor::new(4);
    let big = MAX_FILE_SIZE + 1;
    assert_eq!(processor.begin("scan.png", big).err(), Some(DocumentError::FileTooLarge(big)));
    assert!(matches!(processor.begin("scan.png", MAX_FILE_SIZE), Ok(Step::Extract(Format::Image))));
    assert!(matches!(processor.begin("big.pdf", big), Ok(Step::Extract(Format::Pdf))));
}

#[test]
fn size_ceiling_is_ten_mebibytes() {
    assert_eq!(MAX_FILE_SIZE, 10_485_760);
    assert_eq!(check_size(10_485_760), Ok(()));
    assert_eq!(check_size(10_485_761), Err(DocumentError::FileTooLarge(10_485_761)));
}

#[test]
fn batch_keeps_going_past_failures() {
    let paths: Vec<String> = vec!["a.txt", "b.exe", "c.pdf", "noext", "d.md", "e.zip"]
        .into_iter()
        .map(String::from)
        .collect();
    let outcomes = plan_batch(&paths);
    assert_eq!(outcomes.len(), 6);
    assert_eq!(outcomes.iter().filter(|o| o.is_err()).count(), 3);
    assert_eq!(outcomes[0], Ok(Format::PlainText));
    assert_eq!(outcomes[1], Err(DocumentError::UnsupportedFileType("exe".to_string())));
    assert_eq!(outcomes[2], Ok(Format::Pdf));
    assert_eq!(outcomes[3], Err(DocumentError::InvalidExtension));
    assert_eq!(outcomes[4], Ok(Format::PlainText));
    assert_eq!(outcomes[5], Err(DocumentError::UnsupportedFileType("zip".to_string())));
}
