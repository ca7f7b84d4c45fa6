//! The backend for plain text and lightweight markup: one flowing page.

use crate::chars::{lowercase, same_text, to_lowercase};
use crate::error::BlinkerError;
use crate::library::copy_string;
use crate::raster::{render_text_bitmap, rendered_text, FontFace};
use crate::render::{locate_page, DocumentRenderer, PageView, RenderedPage, PAGE_HEIGHT, PAGE_WIDTH};
use crate::search::{
    law_search_is_bounded, match_views, search_page, text_matches, MatchView, RenderSearchMatch,
};
use pulldown_cmark::{Event, Parser, Tag, TagEnd};
use vstd::prelude::*;
use vstd::string::StringExecFns;

verus! {

/// What a markup parser reports, as far as the text of a document goes.
#[derive(Debug)]
pub enum MarkupEvent {
    /// Literal text.
    Text(String),
    /// An inline code span.
    Code(String),
    ParagraphStart,
    ParagraphEnd,
    HeadingStart,
    HeadingEnd,
    /// A forced line break.
    HardBreak,
    /// A line break of the source that is no break of the text.
    SoftBreak,
    /// Anything else: it adds nothing to the text.
    Other,
}

/// A markup event as plain values.
pub enum EventView {
    Text(Seq<char>),
    Code(Seq<char>),
    ParagraphStart,
    ParagraphEnd,
    HeadingStart,
    HeadingEnd,
    HardBreak,
    SoftBreak,
    Other,
}

impl View for MarkupEvent {
    type V = EventView;

    open spec fn view(&self) -> EventView {
        match self {
            MarkupEvent::Text(t) => EventView::Text(t@),
            MarkupEvent::Code(c) => EventView::Code(c@),
            MarkupEvent::ParagraphStart => EventView::ParagraphStart,
            MarkupEvent::ParagraphEnd => EventView::ParagraphEnd,
            MarkupEvent::HeadingStart => EventView::HeadingStart,
            MarkupEvent::HeadingEnd => EventView::HeadingEnd,
            MarkupEvent::HardBreak => EventView::HardBreak,
            MarkupEvent::SoftBreak => EventView::SoftBreak,
            MarkupEvent::Other => EventView::Other,
        }
    }
}

/// The views of a list of events.
pub open spec fn event_views(events: Seq<MarkupEvent>) -> Seq<EventView> {
    events.map_values(|e: MarkupEvent| e@)
}

/// The events that `pulldown_cmark::Parser::new` yields for a document with
/// the characters `markdown`, each reduced to a `MarkupEvent`.
pub uninterp spec fn markdown_events(markdown: Seq<char>) -> Seq<EventView>;

/// Runs `pulldown_cmark::Parser::new` over `markdown` to its end and hands
/// its events out in order, each as the `MarkupEvent` of its variant; text
/// and code keep their characters. The events depend on the document alone.
#[verifier::external_body]
fn parse_markdown(markdown: &str) -> (out: Vec<MarkupEvent>)
    ensures
        event_views(out@) == markdown_events(markdown@),
{
    Parser::new(markdown).map(|event| match event {
        Event::Text(t) => MarkupEvent::Text(t.into_string()),
        Event::Code(c) => MarkupEvent::Code(c.into_string()),
        Event::Start(Tag::Paragraph) => MarkupEvent::ParagraphStart,
        Event::End(TagEnd::Paragraph) => MarkupEvent::ParagraphEnd,
        Event::Start(Tag::Heading { .. }) => MarkupEvent::HeadingStart,
        Event::End(TagEnd::Heading(_)) => MarkupEvent::HeadingEnd,
        Event::HardBreak => MarkupEvent::HardBreak,
        Event::SoftBreak => MarkupEvent::SoftBreak,
        _ => MarkupEvent::Other,
    }).collect()
}

/// What one event adds to the plain text: text and code their characters, a
/// paragraph or a heading a line feed before and two behind, a hard break a
/// line feed, a soft break a blank.
pub open spec fn event_text(event: EventView) -> Seq<char> {
    match event {
        EventView::Text(t) => t,
        EventView::Code(c) => c,
        EventView::ParagraphStart => seq!['\n'],
        EventView::ParagraphEnd => seq!['\n', '\n'],
        EventView::HeadingStart => seq!['\n'],
        EventView::HeadingEnd => seq!['\n', '\n'],
        EventView::HardBreak => seq!['\n'],
        EventView::SoftBreak => seq![' '],
        EventView::Other => Seq::empty(),
    }
}

/// The plain text of a run of events.
pub open spec fn events_text(events: Seq<EventView>) -> Seq<char>
    decreases events.len(),
{
    if events.len() == 0 {
        Seq::empty()
    } else {
        events_text(events.drop_last()) + event_text(events.last())
    }
}

/// The plain text of a run of markup events.
pub fn events_to_text(events: &Vec<MarkupEvent>) -> (out: String)
    ensures
        out@ == events_text(event_views(events@)),
{
    let mut out = String::new();
    let mut i: usize = 0;
    let ghost all = event_views(events@);
    assert(all.subrange(0, 0) =~= Seq::<EventView>::empty());
    while i < events.len()
        invariant
            i <= events@.len(),
            all == event_views(events@),
            out@ == events_text(all.subrange(0, i as int)),
        decreases events@.len() - i,
    {
        let ghost before = out@;
        match &events[i] {
            MarkupEvent::Text(t) => {
                out.append(t.as_str());
            },
            MarkupEvent::Code(c) => {
                out.append(c.as_str());
            },
            MarkupEvent::ParagraphStart => {
                out.push('\n');
            },
            MarkupEvent::ParagraphEnd => {
                out.push('\n');
                out.push('\n');
            },
            MarkupEvent::HeadingStart => {
                out.push('\n');
            },
            MarkupEvent::HeadingEnd => {
                out.push('\n');
                out.push('\n');
            },
            MarkupEvent::HardBreak => {
                out.push('\n');
            },
            MarkupEvent::SoftBreak => {
                out.push(' ');
            },
            MarkupEvent::Other => {},
        }
        proof {
            let upto = all.subrange(0, i + 1);
            assert(upto.drop_last() =~= all.subrange(0, i as int));
            assert(upto.last() == events@[i as int]@);
            assert(out@ =~= before + event_text(events@[i as int]@));
        }
        i += 1;
    }
    assert(all.subrange(0, i as int) =~= all);
    out
}

/// The plain text of a document in lightweight markup.
pub fn markdown_to_text(markdown: &str) -> (out: String)
    ensures
        out@ == events_text(markdown_events(markdown@)),
{
    let events = parse_markdown(markdown);
    events_to_text(&events)
}

/// Whether a file with the extension `ext` holds lightweight markup.
pub open spec fn is_markup_extension(ext: Option<Seq<char>>) -> bool {
    ext matches Some(e) && (lowercase(e) == "md"@ || lowercase(e) == "markdown"@)
}

/// A text document, opened.
#[derive(Debug)]
pub struct TextRenderer {
    /// The file's content.
    pub content: String,
    /// Whether the content is lightweight markup.
    pub is_markdown: bool,
    /// The typeface to draw with, where one is at hand.
    pub face: Option<FontFace>,
}

impl TextRenderer {
    /// Opens a document from its content and the extension of its file name.
    pub fn open(content: String, extension: Option<&str>) -> (out: Result<Self, BlinkerError>)
        ensures
            out matches Ok(r) && r.content@ == content@ && r.face is None && r.is_markdown
                == is_markup_extension(
                match extension {
                    Some(e) => Some(e@),
                    None => None,
                },
            ),
    {
        let is_markdown = match extension {
            Some(e) => {
                let lower = to_lowercase(e);
                same_text(lower.as_str(), "md") || same_text(lower.as_str(), "markdown")
            },
            None => false,
        };
        Ok(TextRenderer { content, is_markdown, face: None })
    }

    /// The same document, drawn with `face` from now on.
    pub fn with_face(self, face: FontFace) -> (out: Self)
        ensures
            out.content == self.content,
            out.is_markdown == self.is_markdown,
            out.face == Some(face),
    {
        TextRenderer { content: self.content, is_markdown: self.is_markdown, face: Some(face) }
    }

    /// The text of the document: the content itself, or its plain text
    /// where it is markup.
    pub open spec fn text(&self) -> Seq<char> {
        if self.is_markdown {
            events_text(markdown_events(self.content@))
        } else {
            self.content@
        }
    }

    /// The text that is drawn and searched.
    pub fn get_text_content(&self) -> (out: String)
        ensures
            out@ == self.text(),
    {
        if self.is_markdown {
            markdown_to_text(self.content.as_str())
        } else {
            copy_string(&self.content)
        }
    }
}

impl DocumentRenderer for TextRenderer {
    open spec fn page_total(&self) -> nat {
        1
    }

    open spec fn page_bitmap(&self, index: int) -> Option<PageView> {
        if index == 0 {
            Some(
                PageView {
                    width: PAGE_WIDTH,
                    height: PAGE_HEIGHT,
                    pixels: rendered_text(
                        PAGE_WIDTH as int,
                        PAGE_HEIGHT as int,
                        self.text(),
                        self.face,
                    ),
                },
            )
        } else {
            None
        }
    }

    open spec fn found(&self, query: Seq<char>, limit: nat) -> Seq<MatchView> {
        text_matches(self.text(), query, 1, limit, true)
    }

    fn page_count(&self) -> (out: Result<usize, BlinkerError>) {
        Ok(1)
    }

    fn render_page(&self, page: usize) -> (out: Result<RenderedPage, BlinkerError>) {
        let index = locate_page(page, 1)?;
        let text = self.get_text_content();
        let face: Option<&FontFace> = match &self.face {
            Some(f) => Some(f),
            None => None,
        };
        let pixels = render_text_bitmap(PAGE_WIDTH, PAGE_HEIGHT, text.as_str(), face);
        Ok(RenderedPage { width: PAGE_WIDTH, height: PAGE_HEIGHT, pixels })
    }

    fn search(&self, query: &str, limit: usize) -> (out: Result<
        Vec<RenderSearchMatch>,
        BlinkerError,
    >) {
        let mut out: Vec<RenderSearchMatch> = Vec::new();
        let text = self.get_text_content();
        search_page(text.as_str(), query, 1, limit, true, &mut out);
        proof {
            law_search_is_bounded(text@, query@, 1, limit as nat, true);
            assert(match_views(Seq::<RenderSearchMatch>::empty()) + self.found(
                query@,
                limit as nat,
            ) =~= self.found(query@, limit as nat));
        }
        Ok(out)
    }
}

} // verus!
