use blinker_core::epub::{strip_tags, EpubRenderer};
use blinker_core::error::BlinkerError;
use blinker_core::raster::{FontFace, Glyph};
use blinker_core::render::DocumentRenderer;

fn book() -> EpubRenderer {
    EpubRenderer::open(vec![
        "<h1>One</h1><p>The first chapter.</p><script>bad()</script>".to_string(),
        "<p>The second chapter, <b>bold</b>.</p>".to_string(),
        "<p>The third.</p>".to_string(),
    ])
    .unwrap()
}

#[test]
fn chapters_are_sanitised_on_opening() {
    let b = book();
    assert_eq!(b.chapters.len(), 3);
    assert_eq!(b.chapters[0], "<h1>One</h1><p>The first chapter.</p>");
    assert_eq!(b.chapters[1], "<p>The second chapter, <b>bold</b>.</p>");
    assert!(b.face.is_none());
}

#[test]
fn each_chapter_is_a_page() {
    assert_eq!(book().page_count().unwrap(), 3);
    assert_eq!(EpubRenderer::open(vec![]).unwrap().page_count().unwrap(), 0);
}

#[test]
fn tags_are_stripped() {
    assert_eq!(strip_tags("<p>Hi <b>there</b></p>"), " Hi  there  ");
    assert_eq!(strip_tags("no tags"), "no tags");
    assert_eq!(strip_tags("a > b"), "a   b");
    assert_eq!(strip_tags("a < b"), "a ");
    assert_eq!(strip_tags("<<x>>y"), "  y");
    assert_eq!(strip_tags(""), "");
}

#[test]
fn text_is_extracted_from_markup() {
    assert_eq!(EpubRenderer::extract_text_from_html("<p>Hi <b>there</b></p>"), " Hi  there  ");
    assert_eq!(EpubRenderer::extract_text_from_html("<p>a</p><script>x()</script>"), " a ");
}

#[test]
fn chapter_texts_in_order() {
    let t = book().chapter_texts();
    assert_eq!(t.len(), 3);
    assert_eq!(t[2].as_deref(), Some(" The third. "));
}

#[test]
fn chapters_are_searched_in_order() {
    let b = book();
    let m = b.search("chapter", 10).unwrap();
    assert_eq!(m.len(), 2);
    assert_eq!(m[0].page, 1);
    assert_eq!(m[0].text, "One  The first chapter.");
    assert_eq!(m[1].page, 2);
    assert_eq!(m[1].text, "The second chapter,  bold .");
    let m = b.search("THE", 2).unwrap();
    assert_eq!(m.len(), 2);
    assert_eq!(m[0].page, 1);
    assert_eq!(m[1].page, 2);
    assert_eq!(b.search("the", 100).unwrap().len(), 3);
    assert!(b.search("", 10).unwrap().is_empty());
    assert!(b.search("the", 0).unwrap().is_empty());
    assert!(b.search("bad", 10).unwrap().is_empty());
}

#[test]
fn page_zero_is_the_first_chapter() {
    let face = FontFace { glyphs: vec![], fallback: Glyph::new(9, 0, 2, 2, vec![255; 4]).unwrap() };
    let b = book().with_face(face);
    let zero = b.render_page(0).unwrap();
    let one = b.render_page(1).unwrap();
    let two = b.render_page(2).unwrap();
    assert_eq!(zero.pixels, one.pixels);
    assert_ne!(one.pixels, two.pixels);
    assert_eq!((one.width, one.height), (800, 1000));
    assert_eq!(one.pixels.len(), 800 * 1000 * 4);
}

#[test]
fn chapters_behind_the_last_fail() {
    let b = book();
    assert!(b.render_page(3).is_ok());
    match b.render_page(4) {
        Err(BlinkerError::Rendering(msg)) => assert_eq!(msg, "Invalid page index: 4"),
        other => panic!("unexpected: {:?}", other.map(|p| p.width)),
    }
    let empty = EpubRenderer::open(vec![]).unwrap();
    assert!(empty.render_page(0).is_err());
    assert!(empty.render_page(1).is_err());
}

#[test]
fn without_a_face_chapters_are_blank() {
    let page = book().render_page(1).unwrap();
    assert!(page.pixels.iter().all(|&b| b == 255));
}
