use blinker_core::error::BlinkerError;
use blinker_core::raster::{FontFace, Glyph};
use blinker_core::render::{locate_page, DocumentRenderer, PAGE_HEIGHT, PAGE_WIDTH};
use blinker_core::text::{events_to_text, markdown_to_text, MarkupEvent, TextRenderer};

fn face() -> FontFace {
    FontFace { glyphs: vec![], fallback: Glyph::new(9, 0, 2, 2, vec![255; 4]).unwrap() }
}

#[test]
fn the_canvas_is_800_by_1000() {
    assert_eq!(PAGE_WIDTH, 800);
    assert_eq!(PAGE_HEIGHT, 1000);
}

#[test]
fn markup_is_told_by_the_extension() {
    assert!(TextRenderer::open("x".to_string(), Some("md")).unwrap().is_markdown);
    assert!(TextRenderer::open("x".to_string(), Some("MD")).unwrap().is_markdown);
    assert!(TextRenderer::open("x".to_string(), Some("Markdown")).unwrap().is_markdown);
    assert!(!TextRenderer::open("x".to_string(), Some("txt")).unwrap().is_markdown);
    assert!(!TextRenderer::open("x".to_string(), None).unwrap().is_markdown);
}

#[test]
fn text_has_one_page() {
    let r = TextRenderer::open("".to_string(), Some("txt")).unwrap();
    assert_eq!(r.page_count().unwrap(), 1);
    let r = TextRenderer::open("a\nb\nc".repeat(1000), Some("md")).unwrap();
    assert_eq!(r.page_count().unwrap(), 1);
}

#[test]
fn plain_text_is_its_own_content() {
    let r = TextRenderer::open("# not a heading".to_string(), Some("txt")).unwrap();
    assert_eq!(r.get_text_content(), "# not a heading");
}

#[test]
fn markup_is_reduced_to_text() {
    assert_eq!(markdown_to_text("# Title\n\nSome *bold* text\nnext line"), "\nTitle\n\n\nSome bold text next line\n\n");
    assert_eq!(markdown_to_text("a `code` b"), "\na code b\n\n");
    assert_eq!(markdown_to_text("line one  \nline two"), "\nline one\nline two\n\n");
    assert_eq!(markdown_to_text(""), "");
    let r = TextRenderer::open("# Title".to_string(), Some("md")).unwrap();
    assert_eq!(r.get_text_content(), "\nTitle\n\n");
}

#[test]
fn events_make_text() {
    let events = vec![
        MarkupEvent::HeadingStart,
        MarkupEvent::Text("T".to_string()),
        MarkupEvent::HeadingEnd,
        MarkupEvent::ParagraphStart,
        MarkupEvent::Text("a".to_string()),
        MarkupEvent::SoftBreak,
        MarkupEvent::Code("b".to_string()),
        MarkupEvent::HardBreak,
        MarkupEvent::Other,
        MarkupEvent::Text("c".to_string()),
        MarkupEvent::ParagraphEnd,
    ];
    assert_eq!(events_to_text(&events), "\nT\n\n\na b\nc\n\n");
    assert_eq!(events_to_text(&vec![]), "");
}

#[test]
fn text_page_zero_is_page_one() {
    let r = TextRenderer::open("hello".to_string(), Some("txt")).unwrap().with_face(face());
    let zero = r.render_page(0).unwrap();
    let one = r.render_page(1).unwrap();
    assert_eq!(zero.width, one.width);
    assert_eq!(zero.height, one.height);
    assert_eq!(zero.pixels, one.pixels);
    assert_eq!(one.width, 800);
    assert_eq!(one.height, 1000);
    assert_eq!(one.pixels.len(), 800 * 1000 * 4);
    assert!(one.pixels.iter().any(|&b| b != 255));
}

#[test]
fn text_page_behind_the_last_fails() {
    let r = TextRenderer::open("hello".to_string(), Some("txt")).unwrap();
    match r.render_page(2) {
        Err(BlinkerError::Rendering(msg)) => assert_eq!(msg, "Invalid page index: 2"),
        other => panic!("unexpected: {:?}", other.map(|p| p.width)),
    }
    assert!(r.render_page(usize::MAX).is_err());
}

#[test]
fn without_a_face_the_page_is_blank() {
    let r = TextRenderer::open("hello".to_string(), Some("txt")).unwrap();
    let page = r.render_page(1).unwrap();
    assert_eq!(page.pixels.len(), 800 * 1000 * 4);
    assert!(page.pixels.iter().all(|&b| b == 255));
}

#[test]
fn text_is_searched_with_trimmed_context() {
    let r = TextRenderer::open("  The Whale  ".to_string(), Some("txt")).unwrap();
    let m = r.search("whale", 10).unwrap();
    assert_eq!(m.len(), 1);
    assert_eq!(m[0].page, 1);
    assert_eq!(m[0].text, "The Whale");
    assert!(r.search("", 10).unwrap().is_empty());
    assert!(r.search("whale", 0).unwrap().is_empty());
    assert!(r.search("shark", 10).unwrap().is_empty());
}

#[test]
fn markup_is_searched_as_text() {
    let r = TextRenderer::open("# A *fine* day".to_string(), Some("md")).unwrap();
    let m = r.search("a fine", 10).unwrap();
    assert_eq!(m.len(), 1);
    assert_eq!(m[0].text, "A fine day");
    assert!(r.search("*fine*", 10).unwrap().is_empty());
}

#[test]
fn the_search_limit_holds() {
    let r = TextRenderer::open("la ".repeat(50), Some("txt")).unwrap();
    for k in [0usize, 1, 2, 10, 49, 50, 51, 1000] {
        assert_eq!(r.search("la", k).unwrap().len(), k.min(50));
    }
}

#[test]
fn page_numbers_are_located() {
    assert_eq!(locate_page(0, 3).unwrap(), 0);
    assert_eq!(locate_page(1, 3).unwrap(), 0);
    assert_eq!(locate_page(3, 3).unwrap(), 2);
    assert!(locate_page(4, 3).is_err());
    assert!(locate_page(0, 0).is_err());
    assert!(locate_page(1, 0).is_err());
    match locate_page(12, 3) {
        Err(BlinkerError::Rendering(msg)) => assert_eq!(msg, "Invalid page index: 12"),
        other => panic!("unexpected: {:?}", other),
    }
}
