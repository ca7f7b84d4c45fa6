//! The backend for fixed-layout documents. The pages are rasterised by a
//! native library outside this crate; what is decided here is which native
//! page to ask for, what becomes of the bitmap that comes back, and where
//! the query stands in the text layer.

use crate::error::BlinkerError;
use crate::render::{
    invalid_page, invalid_page_message, locate_page, page_index, DocumentRenderer, PageView,
    RenderedPage,
};
use crate::search::{document_matches, page_texts, search_pages, MatchView, RenderSearchMatch};
use vstd::prelude::*;
use vstd::string::StringExecFns;

verus! {

/// A page as the native rasteriser hands it over: four bytes for each
/// pixel, in the order blue, green, red, alpha.
#[derive(Debug)]
pub struct RawBitmap {
    /// The index of the page, from 0.
    pub index: usize,
    pub width: u32,
    pub height: u32,
    pub bgra: Vec<u8>,
}

/// The bytes of `bgra` with red and blue exchanged in every pixel. Bytes
/// behind the last whole pixel are dropped.
pub open spec fn rgba_of(bgra: Seq<u8>) -> Seq<u8> {
    Seq::new(
        (bgra.len() - bgra.len() % 4) as nat,
        |i: int|
            if i % 4 == 0 {
                bgra[i + 2]
            } else if i % 4 == 2 {
                bgra[i - 2]
            } else {
                bgra[i]
            },
    )
}

/// Exchanges red and blue in every pixel of `bgra`.
pub fn bgra_to_rgba(bgra: &[u8]) -> (out: Vec<u8>)
    ensures
        out@ == rgba_of(bgra@),
{
    let whole: usize = bgra.len() - bgra.len() % 4;
    let mut out: Vec<u8> = Vec::new();
    let mut i: usize = 0;
    while i < whole
        invariant
            whole == bgra@.len() - bgra@.len() % 4,
            i <= whole,
            i % 4 == 0,
            out@.len() == i,
            forall|k: int| 0 <= k < i ==> out@[k] == rgba_of(bgra@)[k],
        decreases whole - i,
    {
        out.push(bgra[i + 2]);
        out.push(bgra[i + 1]);
        out.push(bgra[i]);
        out.push(bgra[i + 3]);
        i += 4;
    }
    assert(out@ =~= rgba_of(bgra@));
    out
}

/// What a raw bitmap shows as a page: its pixels in the order red, green,
/// blue, alpha; `None` where the buffer holds fewer pixels than the page
/// has.
pub open spec fn page_of_raw(width: u32, height: u32, bgra: Seq<u8>) -> Option<PageView> {
    if rgba_of(bgra).len() >= width * height * 4 {
        Some(PageView { width, height, pixels: rgba_of(bgra).subrange(0, width * height * 4) })
    } else {
        None
    }
}

/// A fixed-layout document, opened: the text layer of each page, and the
/// bitmap of the page that was last rasterised, if any.
#[derive(Debug)]
pub struct PdfRenderer {
    /// The text of each page; `None` for a page whose text cannot be had.
    pub pages: Vec<Option<String>>,
    /// What the native rasteriser made of one of the pages.
    pub drawn: Option<RawBitmap>,
}

impl PdfRenderer {
    /// Opens a document from the text layer of its pages.
    pub fn open(pages: Vec<Option<String>>) -> (out: Result<Self, BlinkerError>)
        ensures
            out matches Ok(r) && r.pages == pages && r.drawn is None,
    {
        Ok(PdfRenderer { pages, drawn: None })
    }

    /// The same document with `bitmap` as the page that was rasterised.
    pub fn with_bitmap(self, bitmap: RawBitmap) -> (out: Self)
        ensures
            out.pages == self.pages,
            out.drawn == Some(bitmap),
    {
        PdfRenderer { pages: self.pages, drawn: Some(bitmap) }
    }

    /// The index of the native page to rasterise for the page number
    /// `page`. The native library counts its pages from 0 in sixteen bits.
    pub fn native_index(&self, page: usize) -> (out: Result<u16, BlinkerError>)
        ensures
            match out {
                Ok(index) => index == page_index(page) && index < self.pages@.len(),
                Err(e) => (page_index(page) >= self.pages@.len() || page_index(page) > u16::MAX)
                    && e is Rendering && e->Rendering_0@ == invalid_page_message(page),
            },
    {
        let index = locate_page(page, self.pages.len())?;
        if index > u16::MAX as usize {
            return Err(invalid_page(page));
        }
        Ok(index as u16)
    }
}

impl DocumentRenderer for PdfRenderer {
    open spec fn page_total(&self) -> nat {
        self.pages@.len()
    }

    open spec fn page_bitmap(&self, index: int) -> Option<PageView> {
        match self.drawn {
            Some(raw) => if raw.index == index && 0 <= index < self.pages@.len() {
                page_of_raw(raw.width, raw.height, raw.bgra@)
            } else {
                None
            },
            None => None,
        }
    }

    open spec fn found(&self, query: Seq<char>, limit: nat) -> Seq<MatchView> {
        document_matches(page_texts(self.pages@), query, 0, limit, false)
    }

    fn page_count(&self) -> (out: Result<usize, BlinkerError>) {
        Ok(self.pages.len())
    }

    fn render_page(&self, page: usize) -> (out: Result<RenderedPage, BlinkerError>) {
        let index = locate_page(page, self.pages.len())?;
        let raw = match &self.drawn {
            Some(raw) => raw,
            None => {
                return Err(
                    BlinkerError::Rendering(String::from_str("Failed to render page: no bitmap")),
                );
            },
        };
        if raw.index != index {
            return Err(
                BlinkerError::Rendering(String::from_str("Failed to render page: no bitmap")),
            );
        }
        let mut pixels = bgra_to_rgba(raw.bgra.as_slice());
        proof {
            assert(0 <= raw.width * raw.height <= 0xffff_ffff * 0xffff_ffff) by (nonlinear_arith)
                requires
                    0 <= raw.width <= 0xffff_ffff,
                    0 <= raw.height <= 0xffff_ffff,
            ;
        }
        let needed: u128 = (raw.width as u128) * (raw.height as u128) * 4;
        if (pixels.len() as u128) < needed {
            return Err(
                BlinkerError::Rendering(String::from_str("Failed to render page: short bitmap")),
            );
        }
        pixels.truncate(needed as usize);
        Ok(RenderedPage { width: raw.width, height: raw.height, pixels })
    }

    fn search(&self, query: &str, limit: usize) -> (out: Result<
        Vec<RenderSearchMatch>,
        BlinkerError,
    >) {
        Ok(search_pages(&self.pages, query, limit, false))
    }
}

} // verus!
