use blinker_core::document::{AnyRenderer, DocumentContent};
use blinker_core::error::BlinkerError;
use blinker_core::pdf::{PdfRenderer, RawBitmap};
use blinker_core::raster::{FontFace, Glyph};
use blinker_core::types::DocumentFormat;
use std::io::Write;

fn png(colour: [u8; 4]) -> Vec<u8> {
    let img = image::RgbaImage::from_pixel(1, 1, image::Rgba(colour));
    let mut out = std::io::Cursor::new(Vec::new());
    image::DynamicImage::ImageRgba8(img).write_to(&mut out, image::ImageFormat::Png).unwrap();
    out.into_inner()
}

fn comic() -> DocumentContent {
    let mut w = zip::ZipWriter::new(std::io::Cursor::new(Vec::new()));
    let options = zip::write::SimpleFileOptions::default();
    for (name, c) in [("p10.png", 10u8), ("p2.png", 2), ("p1.png", 1)] {
        w.start_file(name, options).unwrap();
        w.write_all(&png([c, c, c, 255])).unwrap();
    }
    DocumentContent::Bytes(w.finish().unwrap().into_inner())
}

fn text(s: &str) -> DocumentContent {
    DocumentContent::Text { content: s.to_string(), face: None }
}

fn chapters() -> DocumentContent {
    DocumentContent::Chapters {
        chapters: vec!["<p>One fish</p>".to_string(), "<p>Two fish</p>".to_string()],
        face: Some(FontFace { glyphs: vec![], fallback: Glyph::new(9, 0, 1, 1, vec![255]).unwrap() }),
    }
}

#[test]
fn the_format_comes_from_the_extension() {
    let r = AnyRenderer::open_for("/books/Moby Dick.PDF").unwrap();
    assert_eq!(r.kind, DocumentFormat::Pdf);
    assert_eq!(r.path, "/books/Moby Dick.PDF");
    assert_eq!(AnyRenderer::open_for("a.markdown").unwrap().kind, DocumentFormat::Markdown);
    assert_eq!(AnyRenderer::open_for("a.b.cbz").unwrap().kind, DocumentFormat::Cbz);
    assert_eq!(AnyRenderer::open_for("a.cbr").unwrap().kind, DocumentFormat::Cbr);
}

#[test]
fn a_path_without_extension_is_refused() {
    match AnyRenderer::open_for("/books/README") {
        Err(BlinkerError::Parsing(msg)) => assert_eq!(msg, "Missing file extension"),
        other => panic!("unexpected: {:?}", other),
    }
    assert!(AnyRenderer::open_as("x", &None).is_err());
}

#[test]
fn an_unknown_extension_is_refused() {
    match AnyRenderer::open_for("/books/setup.Exe") {
        Err(BlinkerError::Parsing(msg)) => assert_eq!(msg, "Unsupported format: Exe"),
        other => panic!("unexpected: {:?}", other),
    }
}

#[test]
fn rar_archives_are_not_supported() {
    let r = AnyRenderer::open_for("a.cbr").unwrap();
    match r.page_count(DocumentContent::Bytes(vec![1, 2, 3])) {
        Err(BlinkerError::Parsing(msg)) => assert_eq!(msg, "CBR (RAR) archives are not supported yet"),
        other => panic!("unexpected: {:?}", other),
    }
    match r.render_page(1, DocumentContent::Bytes(vec![1, 2, 3])) {
        Err(BlinkerError::Parsing(msg)) => assert_eq!(msg, "CBR (RAR) archives are not supported yet"),
        other => panic!("unexpected: {:?}", other.map(|p| p.width)),
    }
    match r.search("x", 10, DocumentContent::Bytes(vec![])) {
        Err(BlinkerError::Parsing(msg)) => assert_eq!(msg, "CBR (RAR) archives are not supported yet"),
        other => panic!("unexpected: {:?}", other.map(|m| m.len())),
    }
    assert!(r.search("", 0, text("x")).is_err());
}

#[test]
fn content_must_fit_the_format() {
    let r = AnyRenderer::open_for("a.txt").unwrap();
    match r.page_count(DocumentContent::Bytes(vec![])) {
        Err(BlinkerError::Parsing(msg)) => assert_eq!(msg, "Document content does not match its format"),
        other => panic!("unexpected: {:?}", other),
    }
    assert!(AnyRenderer::open_for("a.cbz").unwrap().page_count(text("x")).is_err());
    assert!(AnyRenderer::open_for("a.epub").unwrap().search("x", 1, text("x")).is_err());
    assert!(AnyRenderer::open_for("a.pdf").unwrap().render_page(1, chapters()).is_err());
}

#[test]
fn text_documents_through_the_handle() {
    let r = AnyRenderer::open_for("notes.txt").unwrap();
    assert_eq!(r.page_count(text("# hi")).unwrap(), 1);
    let m = r.search("#", 5, text("# hi")).unwrap();
    assert_eq!(m.len(), 1);
    assert_eq!(m[0].text, "# hi");
    let md = AnyRenderer::open_for("notes.md").unwrap();
    assert!(md.search("#", 5, text("# hi")).unwrap().is_empty());
    assert_eq!(md.search("HI", 5, text("# hi")).unwrap()[0].text, "hi");
    let zero = r.render_page(0, text("x")).unwrap();
    let one = r.render_page(1, text("x")).unwrap();
    assert_eq!(zero.pixels, one.pixels);
    assert!(r.render_page(2, text("x")).is_err());
}

#[test]
fn flow_documents_through_the_handle() {
    let r = AnyRenderer::open_for("book.epub").unwrap();
    assert_eq!(r.page_count(chapters()).unwrap(), 2);
    let m = r.search("fish", 10, chapters()).unwrap();
    assert_eq!(m.iter().map(|m| m.page).collect::<Vec<_>>(), vec![1, 2]);
    assert_eq!(m[1].text, "Two fish");
    assert_eq!(r.search("fish", 1, chapters()).unwrap().len(), 1);
    let zero = r.render_page(0, chapters()).unwrap();
    let one = r.render_page(1, chapters()).unwrap();
    assert_eq!(zero.pixels, one.pixels);
    assert!(one.pixels.iter().any(|&b| b != 255));
    assert!(r.render_page(2, chapters()).is_ok());
    assert!(r.render_page(3, chapters()).is_err());
}

#[test]
fn comics_through_the_handle() {
    let r = AnyRenderer::open_for("c.cbz").unwrap();
    assert_eq!(r.page_count(comic()).unwrap(), 3);
    assert_eq!(r.render_page(0, comic()).unwrap().pixels, vec![1, 1, 1, 255]);
    assert_eq!(r.render_page(1, comic()).unwrap().pixels, vec![1, 1, 1, 255]);
    assert_eq!(r.render_page(2, comic()).unwrap().pixels, vec![2, 2, 2, 255]);
    assert_eq!(r.render_page(3, comic()).unwrap().pixels, vec![10, 10, 10, 255]);
    assert!(r.render_page(4, comic()).is_err());
    assert!(r.search("p", 10, comic()).unwrap().is_empty());
    match r.page_count(DocumentContent::Bytes(b"junk".to_vec())) {
        Err(BlinkerError::Parsing(msg)) => assert!(msg.starts_with("Failed to open CBZ archive: ")),
        other => panic!("unexpected: {:?}", other),
    }
}

#[test]
fn fixed_layout_documents_through_the_handle() {
    let r = AnyRenderer::open_for("d.pdf").unwrap();
    let pages = || vec![Some("alpha".to_string()), Some("beta alpha".to_string())];
    let doc = || DocumentContent::Pages(PdfRenderer::open(pages()).unwrap());
    assert_eq!(r.page_count(doc()).unwrap(), 2);
    let m = r.search("ALPHA", 10, doc()).unwrap();
    assert_eq!(m.iter().map(|m| m.page).collect::<Vec<_>>(), vec![1, 2]);
    let drawn = || {
        DocumentContent::Pages(
            PdfRenderer::open(pages())
                .unwrap()
                .with_bitmap(RawBitmap { index: 1, width: 1, height: 1, bgra: vec![9, 8, 7, 6] }),
        )
    };
    assert_eq!(r.render_page(2, drawn()).unwrap().pixels, vec![7, 8, 9, 6]);
    assert!(r.render_page(1, drawn()).is_err());
    assert!(r.render_page(3, drawn()).is_err());
}
