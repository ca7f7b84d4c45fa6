//! What every document backend offers: a page count, pages as bitmaps, and
//! bounded search.

use crate::chars::{decimal, decimal_string};
use crate::error::BlinkerError;
use crate::search::{match_views, MatchView, RenderSearchMatch};
use vstd::prelude::*;
use vstd::string::StringExecFns;

verus! {

/// Width of the canvas that text is drawn on, in pixels.
pub const PAGE_WIDTH: u32 = 800;

/// Height of the canvas that text is drawn on, in pixels.
pub const PAGE_HEIGHT: u32 = 1000;

/// A page as a raw bitmap: `width * height` pixels of four bytes each, red,
/// green, blue and alpha, row by row.
#[derive(Debug)]
pub struct RenderedPage {
    pub width: u32,
    pub height: u32,
    pub pixels: Vec<u8>,
}

/// A rendered page as plain values.
pub struct PageView {
    pub width: u32,
    pub height: u32,
    pub pixels: Seq<u8>,
}

impl View for RenderedPage {
    type V = PageView;

    open spec fn view(&self) -> PageView {
        PageView { width: self.width, height: self.height, pixels: self.pixels@ }
    }
}

impl PageView {
    /// The buffer holds exactly the pixels of the page.
    pub open spec fn well_formed(self) -> bool {
        self.pixels.len() == self.width * self.height * 4
    }
}

/// The index, from 0, of the page that the page number `page` asks for.
/// Pages are numbered from 1, and the number 0 is taken for 1.
pub open spec fn page_index(page: usize) -> int {
    if page == 0 {
        0
    } else {
        page - 1
    }
}

/// The message of the error that refuses a page number.
pub open spec fn invalid_page_message(page: usize) -> Seq<char> {
    "Invalid page index: "@ + decimal(page as nat)
}

/// The error that refuses the page number `page`.
pub fn invalid_page(page: usize) -> (out: BlinkerError)
    ensures
        out is Rendering,
        out->Rendering_0@ == invalid_page_message(page),
{
    let number = decimal_string(page);
    BlinkerError::Rendering(String::from_str("Invalid page index: ").concat(number.as_str()))
}

/// Finds the index of the page that `page` asks for among `total` pages;
/// a number beyond the last page is refused.
pub fn locate_page(page: usize, total: usize) -> (out: Result<usize, BlinkerError>)
    ensures
        match out {
            Ok(index) => index == page_index(page) && index < total,
            Err(e) => page_index(page) >= total && e is Rendering && e->Rendering_0@
                == invalid_page_message(page),
        },
{
    let index = if page == 0 {
        0
    } else {
        page - 1
    };
    if index >= total {
        Err(invalid_page(page))
    } else {
        Ok(index)
    }
}

/// A document opened for reading.
pub trait DocumentRenderer {
    /// The number of pages.
    spec fn page_total(&self) -> nat;

    /// What the page with the index `index` shows, where it can be drawn.
    spec fn page_bitmap(&self, index: int) -> Option<PageView>;

    /// The first `limit` places where `query` stands in the document.
    spec fn found(&self, query: Seq<char>, limit: nat) -> Seq<MatchView>;

    /// The number of pages: the true count for paged formats, 1 for
    /// flowing text.
    fn page_count(&self) -> (out: Result<usize, BlinkerError>)
        ensures
            out matches Ok(n) && n == self.page_total(),
    ;

    /// Draws the page with the number `page`, counted from 1; the number 0
    /// is taken for 1. A number beyond the last page is an error, and so is
    /// a page that cannot be drawn.
    fn render_page(&self, page: usize) -> (out: Result<RenderedPage, BlinkerError>)
        ensures
            is_rendering_of(self.page_total(), self.page_bitmap(page_index(page)), page, out),
    ;

    /// The places where `query` stands in the document, letter case
    /// ignored, in document order, `limit` of them at most. An empty query
    /// is found nowhere.
    fn search(&self, query: &str, limit: usize) -> (out: Result<
        Vec<RenderSearchMatch>,
        BlinkerError,
    >)
        ensures
            out matches Ok(list) && match_views(list@) == self.found(query@, limit as nat),
            out->Ok_0@.len() <= limit,
            query@.len() == 0 ==> out->Ok_0@.len() == 0,
    ;
}

/// Whether `out` is what rendering the page number `page` gives in a
/// document of `total` pages whose page at the index of `page` shows
/// `bitmap`: the bitmap where the page exists and can be drawn, else an
/// error, which for a page that does not exist names the page number.
pub open spec fn is_rendering_of(
    total: nat,
    bitmap: Option<PageView>,
    page: usize,
    out: Result<RenderedPage, BlinkerError>,
) -> bool {
    match out {
        Ok(p) => page_index(page) < total && bitmap == Some(p@) && p@.well_formed(),
        Err(e) => e is Rendering && if page_index(page) < total {
            bitmap is None
        } else {
            e->Rendering_0@ == invalid_page_message(page)
        },
    }
}

/// Rendering page 0 is rendering page 1: on every document both succeed
/// with the same bitmap or both fail.
pub proof fn law_page_zero_is_page_one<R: DocumentRenderer>(
    doc: &R,
    zero: Result<RenderedPage, BlinkerError>,
    one: Result<RenderedPage, BlinkerError>,
)
    requires
        is_rendering_of(doc.page_total(), doc.page_bitmap(page_index(0)), 0, zero),
        is_rendering_of(doc.page_total(), doc.page_bitmap(page_index(1)), 1, one),
    ensures
        zero is Ok <==> one is Ok,
        zero is Ok ==> zero->Ok_0@ == one->Ok_0@,
        zero is Err ==> zero->Err_0 is Rendering && one->Err_0 is Rendering,
{
}

/// Rendering the page behind the last page always fails.
pub proof fn law_page_behind_the_last_fails<R: DocumentRenderer>(
    doc: &R,
    page: usize,
    out: Result<RenderedPage, BlinkerError>,
)
    requires
        page == doc.page_total() + 1,
        is_rendering_of(doc.page_total(), doc.page_bitmap(page_index(page)), page, out),
    ensures
        out matches Err(e) && e is Rendering && e->Rendering_0@ == invalid_page_message(page),
{
}

} // verus!
