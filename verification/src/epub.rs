//! The backend for flow documents: one page for each chapter.

use crate::chars::chars_of;
use crate::error::BlinkerError;
use crate::raster::{render_text_bitmap, rendered_text, FontFace};
use crate::render::{locate_page, DocumentRenderer, PageView, RenderedPage, PAGE_HEIGHT, PAGE_WIDTH};
use crate::search::{document_matches, page_texts, search_pages, MatchView, RenderSearchMatch};
use crate::security::{clean_markup, sanitize_html, sanitized};
use vstd::prelude::*;

verus! {

/// Markup from position `i` on without its tags: what stands between `<`
/// and `>` is dropped, and each `>` leaves a blank. `in_tag` says whether
/// position `i` lies inside a tag.
pub open spec fn strip_from(markup: Seq<char>, i: int, in_tag: bool) -> Seq<char>
    decreases markup.len() - i,
{
    if i < 0 || i >= markup.len() {
        Seq::empty()
    } else if markup[i] == '<' {
        strip_from(markup, i + 1, true)
    } else if markup[i] == '>' {
        seq![' '] + strip_from(markup, i + 1, false)
    } else if in_tag {
        strip_from(markup, i + 1, true)
    } else {
        seq![markup[i]] + strip_from(markup, i + 1, false)
    }
}

/// Markup without its tags.
pub open spec fn stripped(markup: Seq<char>) -> Seq<char> {
    strip_from(markup, 0, false)
}

/// Takes the tags out of `markup`.
pub fn strip_tags(markup: &str) -> (out: String)
    ensures
        out@ == stripped(markup@),
{
    let chars = chars_of(markup);
    let mut out = String::new();
    let mut in_tag = false;
    let mut i: usize = 0;
    assert(out@ + stripped(markup@) =~= stripped(markup@));
    while i < chars.len()
        invariant
            chars@ == markup@,
            i <= chars@.len(),
            out@ + strip_from(markup@, i as int, in_tag) == stripped(markup@),
        decreases chars@.len() - i,
    {
        let c = chars[i];
        let ghost before = out@;
        if c == '<' {
            in_tag = true;
        } else if c == '>' {
            in_tag = false;
            out.push(' ');
            assert(before + (seq![' '] + strip_from(markup@, i + 1, false)) =~= before.push(' ')
                + strip_from(markup@, i + 1, false));
        } else if !in_tag {
            out.push(c);
            assert(before + (seq![c] + strip_from(markup@, i + 1, false)) =~= before.push(c)
                + strip_from(markup@, i + 1, false));
        }
        i += 1;
    }
    assert(out@ + Seq::<char>::empty() =~= out@);
    out
}

/// A flow document, opened: its chapters in reading order, sanitised.
#[derive(Debug)]
pub struct EpubRenderer {
    /// The sanitised markup of each chapter.
    pub chapters: Vec<String>,
    /// The typeface to draw with, where one is at hand.
    pub face: Option<FontFace>,
}

/// The text of a chapter: its markup sanitised, then stripped of its tags.
pub open spec fn chapter_text(markup: Seq<char>) -> Seq<char> {
    stripped(sanitized(markup))
}

impl EpubRenderer {
    /// Opens a document from the markup of its chapters, in reading order.
    /// No chapter is trusted: each is sanitised before it is kept.
    pub fn open(chapters: Vec<String>) -> (out: Result<Self, BlinkerError>)
        ensures
            out matches Ok(r) && r.face is None && r.chapters@.len() == chapters@.len()
                && forall|i: int|
                0 <= i < chapters@.len() ==> (#[trigger] r.chapters@[i])@ == sanitized(
                    chapters@[i]@,
                ),
    {
        let mut clean: Vec<String> = Vec::new();
        let mut i: usize = 0;
        while i < chapters.len()
            invariant
                i <= chapters@.len(),
                clean@.len() == i,
                forall|k: int|
                    0 <= k < i ==> (#[trigger] clean@[k])@ == sanitized(chapters@[k]@),
            decreases chapters@.len() - i,
        {
            let markup = sanitize_html(chapters[i].as_str())?;
            clean.push(markup);
            i += 1;
        }
        Ok(EpubRenderer { chapters: clean, face: None })
    }

    /// The same document, drawn with `face` from now on.
    pub fn with_face(self, face: FontFace) -> (out: Self)
        ensures
            out.chapters == self.chapters,
            out.face == Some(face),
    {
        EpubRenderer { chapters: self.chapters, face: Some(face) }
    }

    /// The plain text of markup: sanitised, then stripped of its tags.
    pub fn extract_text_from_html(html: &str) -> (out: String)
        ensures
            out@ == chapter_text(html@),
    {
        let clean = clean_markup(html);
        strip_tags(clean.as_str())
    }

    /// The text of every chapter, in order.
    pub open spec fn texts(&self) -> Seq<Option<Seq<char>>> {
        Seq::new(
            self.chapters@.len(),
            |i: int| Some(chapter_text(self.chapters@[i]@)),
        )
    }

    /// The text of every chapter, in order.
    pub fn chapter_texts(&self) -> (out: Vec<Option<String>>)
        ensures
            page_texts(out@) == self.texts(),
    {
        let mut out: Vec<Option<String>> = Vec::new();
        let mut i: usize = 0;
        while i < self.chapters.len()
            invariant
                i <= self.chapters@.len(),
                out@.len() == i,
                forall|k: int|
                    0 <= k < i ==> (#[trigger] out@[k]) is Some && out@[k]->0@ == chapter_text(
                        self.chapters@[k]@,
                    ),
            decreases self.chapters@.len() - i,
        {
            out.push(Some(Self::extract_text_from_html(self.chapters[i].as_str())));
            i += 1;
        }
        assert(page_texts(out@) =~= self.texts());
        out
    }
}

impl DocumentRenderer for EpubRenderer {
    open spec fn page_total(&self) -> nat {
        self.chapters@.len()
    }

    open spec fn page_bitmap(&self, index: int) -> Option<PageView> {
        if 0 <= index < self.chapters@.len() {
            Some(
                PageView {
                    width: PAGE_WIDTH,
                    height: PAGE_HEIGHT,
                    pixels: rendered_text(
                        PAGE_WIDTH as int,
                        PAGE_HEIGHT as int,
                        chapter_text(self.chapters@[index]@),
                        self.face,
                    ),
                },
            )
        } else {
            None
        }
    }

    open spec fn found(&self, query: Seq<char>, limit: nat) -> Seq<MatchView> {
        document_matches(self.texts(), query, 0, limit, true)
    }

    fn page_count(&self) -> (out: Result<usize, BlinkerError>) {
        Ok(self.chapters.len())
    }

    fn render_page(&self, page: usize) -> (out: Result<RenderedPage, BlinkerError>) {
        let index = locate_page(page, self.chapters.len())?;
        let text = Self::extract_text_from_html(self.chapters[index].as_str());
        let face: Option<&FontFace> = match &self.face {
            Some(f) => Some(f),
            None => None,
        };
        let pixels = render_text_bitmap(PAGE_WIDTH, PAGE_HEIGHT, text.as_str(), face);
        Ok(RenderedPage { width: PAGE_WIDTH, height: PAGE_HEIGHT, pixels })
    }

    fn search(&self, query: &str, limit: usize) -> (out: Result<
        Vec<RenderSearchMatch>,
        BlinkerError,
    >) {
        let texts = self.chapter_texts();
        Ok(search_pages(&texts, query, limit, true))
    }
}

} // verus!
