use blinker_core::annot::AnnotationKind;
use blinker_core::chars::{chars_of, contains_chars, decimal_string, find_from, same_text, string_of};
use blinker_core::error::BlinkerError;
use blinker_core::metadata::MetadataExtractor;
use blinker_core::types::{DocumentFormat, Metadata};

#[test]
fn extension_case_is_ignored() {
    assert_eq!(DocumentFormat::from_extension("PDF"), Some(DocumentFormat::Pdf));
    assert_eq!(DocumentFormat::from_extension("Epub"), Some(DocumentFormat::Epub));
    assert_eq!(DocumentFormat::from_extension("cBz"), Some(DocumentFormat::Cbz));
    assert_eq!(DocumentFormat::from_extension("CBR"), Some(DocumentFormat::Cbr));
    assert_eq!(DocumentFormat::from_extension("TXT"), Some(DocumentFormat::Txt));
    assert_eq!(DocumentFormat::from_extension("MD"), Some(DocumentFormat::Markdown));
    assert_eq!(DocumentFormat::from_extension("MarkDown"), Some(DocumentFormat::Markdown));
}

#[test]
fn every_supported_extension_has_its_format() {
    assert_eq!(DocumentFormat::from_extension("pdf"), Some(DocumentFormat::Pdf));
    assert_eq!(DocumentFormat::from_extension("epub"), Some(DocumentFormat::Epub));
    assert_eq!(DocumentFormat::from_extension("cbz"), Some(DocumentFormat::Cbz));
    assert_eq!(DocumentFormat::from_extension("cbr"), Some(DocumentFormat::Cbr));
    assert_eq!(DocumentFormat::from_extension("txt"), Some(DocumentFormat::Txt));
    assert_eq!(DocumentFormat::from_extension("md"), Some(DocumentFormat::Markdown));
    assert_eq!(DocumentFormat::from_extension("markdown"), Some(DocumentFormat::Markdown));
}

#[test]
fn other_extensions_have_no_format() {
    assert_eq!(DocumentFormat::from_extension("exe"), None);
    assert_eq!(DocumentFormat::from_extension(""), None);
    assert_eq!(DocumentFormat::from_extension("pdf "), None);
    assert_eq!(DocumentFormat::from_extension("docx"), None);
    assert_eq!(DocumentFormat::from_lowercase("PDF"), None);
}

#[test]
fn lowercase_is_unicode_aware() {
    // The Kelvin sign lowers to the letter k.
    assert_eq!(DocumentFormat::from_extension("mar\u{212A}down"), Some(DocumentFormat::Markdown));
}

#[test]
fn formats_name_their_extension() {
    assert_eq!(DocumentFormat::Pdf.as_str(), "pdf");
    assert_eq!(DocumentFormat::Epub.as_str(), "epub");
    assert_eq!(DocumentFormat::Cbz.as_str(), "cbz");
    assert_eq!(DocumentFormat::Cbr.as_str(), "cbr");
    assert_eq!(DocumentFormat::Txt.as_str(), "txt");
    assert_eq!(DocumentFormat::Markdown.as_str(), "markdown");
}

#[test]
fn names_round_trip() {
    for f in [
        DocumentFormat::Pdf,
        DocumentFormat::Epub,
        DocumentFormat::Cbz,
        DocumentFormat::Cbr,
        DocumentFormat::Txt,
        DocumentFormat::Markdown,
    ] {
        assert_eq!(DocumentFormat::from_extension(f.as_str()), Some(f));
    }
}

#[test]
fn default_metadata_is_untitled() {
    let m = Metadata::default();
    assert_eq!(m.title, "Untitled");
    assert!(m.author.is_none());
    assert!(m.publisher.is_none());
    assert!(m.subject.is_none());
    assert!(m.language.is_none());
    assert!(m.created_at.is_none());
    assert!(m.modified_at.is_none());
    assert!(m.page_count.is_none());
}

#[test]
fn metadata_takes_the_title_from_the_stem() {
    let m = MetadataExtractor::extract("/books/Moby Dick.pdf").unwrap();
    assert_eq!(m.title, "Moby Dick");
    assert!(m.author.is_none());
    assert!(m.page_count.is_none());
    let m = MetadataExtractor::extract("notes.txt").unwrap();
    assert_eq!(m.title, "notes");
    let m = MetadataExtractor::extract("story.epub").unwrap();
    assert_eq!(m.title, "story");
}

#[test]
fn metadata_needs_an_extension() {
    match MetadataExtractor::extract("/books/README") {
        Err(BlinkerError::Parsing(msg)) => assert_eq!(msg, "Missing file extension"),
        other => panic!("unexpected: {:?}", other),
    }
}

#[test]
fn metadata_from_named_parts() {
    let m = MetadataExtractor::extract_named(&Some("pdf".to_string()), &None).unwrap();
    assert_eq!(m.title, "Untitled");
    let m = MetadataExtractor::extract_named(&Some("xyz".to_string()), &Some("a".to_string())).unwrap();
    assert_eq!(m.title, "a");
    assert!(MetadataExtractor::extract_named(&None, &Some("a".to_string())).is_err());
}

#[test]
fn errors_read_as_one_line() {
    assert_eq!(BlinkerError::Database("down".to_string()).to_string(), "Database error: down");
    assert_eq!(BlinkerError::Parsing("bad".to_string()).to_string(), "Parsing error: bad");
    assert_eq!(BlinkerError::Rendering("dim".to_string()).to_string(), "Rendering error: dim");
    assert_eq!(BlinkerError::Security("no".to_string()).to_string(), "Security error: no");
    assert_eq!(BlinkerError::NotFound("x".to_string()).to_string(), "Not found: x");
    let io = std::io::Error::new(std::io::ErrorKind::NotFound, "gone");
    assert_eq!(BlinkerError::Io(io).to_string(), "IO error: gone");
}

#[test]
fn io_errors_convert() {
    let io = std::io::Error::new(std::io::ErrorKind::PermissionDenied, "locked");
    let e: BlinkerError = io.into();
    assert!(matches!(e, BlinkerError::Io(_)));
    assert_eq!(e.to_string(), "IO error: locked");
}

#[test]
fn annotation_kinds_have_names() {
    assert_eq!(AnnotationKind::Highlight.to_string(), "highlight");
    assert_eq!(AnnotationKind::Note.to_string(), "note");
    assert_eq!(AnnotationKind::Bookmark.to_string(), "bookmark");
    assert_eq!(AnnotationKind::from_string("note"), AnnotationKind::Note);
    assert_eq!(AnnotationKind::from_string("bookmark"), AnnotationKind::Bookmark);
    assert_eq!(AnnotationKind::from_string("highlight"), AnnotationKind::Highlight);
    assert_eq!(AnnotationKind::from_string("anything"), AnnotationKind::Highlight);
    assert_eq!(AnnotationKind::from_string("Note"), AnnotationKind::Highlight);
}

#[test]
fn numbers_in_decimal() {
    assert_eq!(decimal_string(0), "0");
    assert_eq!(decimal_string(7), "7");
    assert_eq!(decimal_string(10), "10");
    assert_eq!(decimal_string(1234567890), "1234567890");
    assert_eq!(decimal_string(usize::MAX), usize::MAX.to_string());
}

#[test]
fn character_helpers() {
    let hay = chars_of("abcabc");
    let needle = chars_of("bc");
    assert_eq!(hay.len(), 6);
    assert_eq!(find_from(&hay, &needle, 0), Some(1));
    assert_eq!(find_from(&hay, &needle, 2), Some(4));
    assert_eq!(find_from(&hay, &needle, 5), None);
    assert_eq!(find_from(&hay, &chars_of(""), 6), Some(6));
    assert_eq!(find_from(&hay, &chars_of(""), 7), None);
    assert!(contains_chars(&hay, &needle));
    assert!(!contains_chars(&hay, &chars_of("cb")));
    assert_eq!(string_of(&hay, 2, 5), "cab");
    assert!(same_text("héllo", "héllo"));
    assert!(!same_text("héllo", "hello"));
    assert_eq!(chars_of("héllo").len(), 5);
}
