//! The document handle: a path and the format detected from it. It holds
//! no open backend; every operation opens the backend afresh from what was
//! read of the file.

use crate::chars::{lowercase, starts_with_seq};
use crate::comic::{comic_pages, decoded_image, page_of, rejects, ComicRenderer, Rejection};
use crate::epub::{chapter_text, EpubRenderer};
use crate::error::BlinkerError;
use crate::paths::path_extension;
use crate::pdf::PdfRenderer;
use crate::raster::{rendered_text, FontFace};
use crate::render::{
    invalid_page_message, page_index, DocumentRenderer, PageView, RenderedPage, PAGE_HEIGHT,
    PAGE_WIDTH,
};
use crate::search::{
    document_matches, match_views, page_texts, text_matches, MatchView, RenderSearchMatch,
};
use crate::security::sanitized;
use crate::text::{events_text, markdown_events, TextRenderer};
use crate::types::{format_of, DocumentFormat};
use vstd::prelude::*;
use vstd::string::StringExecFns;

verus! {

/// What was read of a document's file, in the form its backend takes.
#[derive(Debug)]
pub enum DocumentContent {
    /// The bytes of the file: for image archives.
    Bytes(Vec<u8>),
    /// The file as text, and the typeface to draw it with: for plain text
    /// and lightweight markup.
    Text { content: String, face: Option<FontFace> },
    /// The markup of each chapter in reading order, and the typeface to
    /// draw it with: for flow documents.
    Chapters { chapters: Vec<String>, face: Option<FontFace> },
    /// The text layer of the pages and the bitmap of the page asked for:
    /// for fixed-layout documents.
    Pages(PdfRenderer),
}

/// An opened backend, whatever the format.
#[derive(Debug)]
pub enum Backend {
    Pdf(PdfRenderer),
    Epub(EpubRenderer),
    Comic(ComicRenderer),
    Text(TextRenderer),
}

impl DocumentRenderer for Backend {
    open spec fn page_total(&self) -> nat {
        match self {
            Backend::Pdf(r) => r.page_total(),
            Backend::Epub(r) => r.page_total(),
            Backend::Comic(r) => r.page_total(),
            Backend::Text(r) => r.page_total(),
        }
    }

    open spec fn page_bitmap(&self, index: int) -> Option<PageView> {
        match self {
            Backend::Pdf(r) => r.page_bitmap(index),
            Backend::Epub(r) => r.page_bitmap(index),
            Backend::Comic(r) => r.page_bitmap(index),
            Backend::Text(r) => r.page_bitmap(index),
        }
    }

    open spec fn found(&self, query: Seq<char>, limit: nat) -> Seq<MatchView> {
        match self {
            Backend::Pdf(r) => r.found(query, limit),
            Backend::Epub(r) => r.found(query, limit),
            Backend::Comic(r) => r.found(query, limit),
            Backend::Text(r) => r.found(query, limit),
        }
    }

    fn page_count(&self) -> (out: Result<usize, BlinkerError>) {
        match self {
            Backend::Pdf(r) => r.page_count(),
            Backend::Epub(r) => r.page_count(),
            Backend::Comic(r) => r.page_count(),
            Backend::Text(r) => r.page_count(),
        }
    }

    fn render_page(&self, page: usize) -> (out: Result<RenderedPage, BlinkerError>) {
        match self {
            Backend::Pdf(r) => r.render_page(page),
            Backend::Epub(r) => r.render_page(page),
            Backend::Comic(r) => r.render_page(page),
            Backend::Text(r) => r.render_page(page),
        }
    }

    fn search(&self, query: &str, limit: usize) -> (out: Result<
        Vec<RenderSearchMatch>,
        BlinkerError,
    >) {
        match self {
            Backend::Pdf(r) => r.search(query, limit),
            Backend::Epub(r) => r.search(query, limit),
            Backend::Comic(r) => r.search(query, limit),
            Backend::Text(r) => r.search(query, limit),
        }
    }
}

/// How opening a backend ends.
pub enum Opening {
    /// The format is recognised and not implemented.
    Unsupported,
    /// The content is not of the form that the format takes.
    Mismatch,
    /// The file is no archive.
    NoArchive,
    /// The archive is refused.
    Rejected(Rejection),
    /// The backend opens.
    Opened,
}

/// How opening the backend for the format `kind` on `content` ends.
pub open spec fn opening(kind: DocumentFormat, content: DocumentContent) -> Opening {
    match (kind, content) {
        (DocumentFormat::Cbr, _) => Opening::Unsupported,
        (DocumentFormat::Pdf, DocumentContent::Pages(_)) => Opening::Opened,
        (DocumentFormat::Epub, DocumentContent::Chapters { .. }) => Opening::Opened,
        (DocumentFormat::Txt, DocumentContent::Text { .. }) => Opening::Opened,
        (DocumentFormat::Markdown, DocumentContent::Text { .. }) => Opening::Opened,
        (DocumentFormat::Cbz, DocumentContent::Bytes(bytes)) => match comic_pages(bytes@) {
            None => Opening::NoArchive,
            Some(Err(why)) => Opening::Rejected(why),
            Some(Ok(_)) => Opening::Opened,
        },
        _ => Opening::Mismatch,
    }
}

/// The message of the error for the archive format that is not implemented.
pub open spec fn unsupported_message() -> Seq<char> {
    "CBR (RAR) archives are not supported yet"@
}

/// The message of the error for content of the wrong form.
pub open spec fn mismatch_message() -> Seq<char> {
    "Document content does not match its format"@
}

/// Whether `err` is the error for an opening that ended as `how`.
pub open spec fn refuses(err: BlinkerError, how: Opening) -> bool {
    match how {
        Opening::Unsupported => err is Parsing && err->Parsing_0@ == unsupported_message(),
        Opening::Mismatch => err is Parsing && err->Parsing_0@ == mismatch_message(),
        Opening::NoArchive => err is Parsing && starts_with_seq(
            err->Parsing_0@,
            "Failed to open CBZ archive: "@,
        ),
        Opening::Rejected(why) => rejects(err, why),
        Opening::Opened => false,
    }
}

/// The text of the document that a text backend opens on `content`.
pub open spec fn flow_text(kind: DocumentFormat, content: Seq<char>) -> Seq<char> {
    if kind is Markdown {
        events_text(markdown_events(content))
    } else {
        content
    }
}

/// The text of each chapter of a flow document with the raw chapters
/// `chapters`: each is sanitised when the document is opened, and once more
/// when its text is taken.
pub open spec fn chapter_pages(chapters: Seq<String>) -> Seq<Option<Seq<char>>> {
    Seq::new(chapters.len(), |i: int| Some(chapter_text(sanitized(chapters[i]@))))
}

/// The number of pages of the document that opens on `content`.
pub open spec fn document_total(kind: DocumentFormat, content: DocumentContent) -> nat {
    match content {
        DocumentContent::Bytes(bytes) => comic_pages(bytes@)->0->Ok_0.len(),
        DocumentContent::Text { .. } => 1,
        DocumentContent::Chapters { chapters, .. } => chapters@.len(),
        DocumentContent::Pages(pdf) => pdf.pages@.len(),
    }
}

/// What the page with the index `index` shows in the document that opens
/// on `content`, where it can be drawn.
pub open spec fn document_bitmap(kind: DocumentFormat, content: DocumentContent, index: int) -> Option<
    PageView,
> {
    match content {
        DocumentContent::Bytes(bytes) => {
            let pages = comic_pages(bytes@)->0->Ok_0;
            if 0 <= index < pages.len() {
                page_of(decoded_image(pages[index].1))
            } else {
                None
            }
        },
        DocumentContent::Text { content, face } => if index == 0 {
            Some(
                PageView {
                    width: PAGE_WIDTH,
                    height: PAGE_HEIGHT,
                    pixels: rendered_text(
                        PAGE_WIDTH as int,
                        PAGE_HEIGHT as int,
                        flow_text(kind, content@),
                        face,
                    ),
                },
            )
        } else {
            None
        },
        DocumentContent::Chapters { chapters, face } => if 0 <= index < chapters@.len() {
            Some(
                PageView {
                    width: PAGE_WIDTH,
                    height: PAGE_HEIGHT,
                    pixels: rendered_text(
                        PAGE_WIDTH as int,
                        PAGE_HEIGHT as int,
                        chapter_pages(chapters@)[index]->0,
                        face,
                    ),
                },
            )
        } else {
            None
        },
        DocumentContent::Pages(pdf) => pdf.page_bitmap(index),
    }
}

/// The first `limit` places where `query` stands in the document that
/// opens on `content`.
pub open spec fn document_found(
    kind: DocumentFormat,
    content: DocumentContent,
    query: Seq<char>,
    limit: nat,
) -> Seq<MatchView> {
    match content {
        DocumentContent::Bytes(_) => Seq::empty(),
        DocumentContent::Text { content, .. } => text_matches(
            flow_text(kind, content@),
            query,
            1,
            limit,
            true,
        ),
        DocumentContent::Chapters { chapters, .. } => document_matches(
            chapter_pages(chapters@),
            query,
            0,
            limit,
            true,
        ),
        DocumentContent::Pages(pdf) => document_matches(
            page_texts(pdf.pages@),
            query,
            0,
            limit,
            false,
        ),
    }
}

/// Whether `backend` is the backend that opens on `content`.
pub open spec fn is_backend_of(backend: Backend, kind: DocumentFormat, content: DocumentContent) -> bool {
    &&& backend.page_total() == document_total(kind, content)
    &&& forall|index: int|
        #[trigger] backend.page_bitmap(index) == document_bitmap(kind, content, index)
    &&& forall|query: Seq<char>, limit: nat|
        #[trigger] backend.found(query, limit) == document_found(kind, content, query, limit)
}

/// The message of the error for a path without an extension.
pub open spec fn missing_extension_message() -> Seq<char> {
    "Missing file extension"@
}

/// The message of the error for an extension of no supported format.
pub open spec fn unsupported_format_message(ext: Seq<char>) -> Seq<char> {
    "Unsupported format: "@ + ext
}

/// A handle on a document: where it lies and of which format it is.
#[derive(Debug)]
pub struct AnyRenderer {
    pub path: String,
    pub kind: DocumentFormat,
}

impl AnyRenderer {
    /// A handle on the document at `path`, its format taken from the
    /// extension of the file name. A path without an extension, or with the
    /// extension of no supported format, is refused.
    pub fn open_for(path: &str) -> (out: Result<Self, BlinkerError>)
        ensures
            match out {
                Ok(r) => r.path@ == path@,
                Err(e) => e is Parsing,
            },
    {
        let extension = path_extension(path);
        Self::open_as(path, &extension)
    }

    /// A handle on the document at `path`, whose file name has the
    /// extension `extension`.
    pub fn open_as(path: &str, extension: &Option<String>) -> (out: Result<Self, BlinkerError>)
        ensures
            match extension {
                None => out matches Err(e) && e is Parsing && e->Parsing_0@
                    == missing_extension_message(),
                Some(ext) => match format_of(lowercase(ext@)) {
                    Some(kind) => out matches Ok(r) && r.path@ == path@ && r.kind == kind,
                    None => out matches Err(e) && e is Parsing && e->Parsing_0@
                        == unsupported_format_message(ext@),
                },
            },
    {
        let ext = match extension {
            Some(ext) => ext,
            None => {
                return Err(BlinkerError::Parsing(String::from_str("Missing file extension")));
            },
        };
        match DocumentFormat::from_extension(ext.as_str()) {
            Some(kind) => Ok(AnyRenderer { path: String::from_str(path), kind }),
            None => Err(
                BlinkerError::Parsing(
                    String::from_str("Unsupported format: ").concat(ext.as_str()),
                ),
            ),
        }
    }

    /// Opens the backend of this document's format on what was read of
    /// its file.
    pub fn backend(&self, content: DocumentContent) -> (out: Result<Backend, BlinkerError>)
        ensures
            match out {
                Ok(b) => opening(self.kind, content) is Opened && is_backend_of(
                    b,
                    self.kind,
                    content,
                ),
                Err(e) => refuses(e, opening(self.kind, content)),
            },
    {
        match self.kind {
            DocumentFormat::Cbr => Err(
                BlinkerError::Parsing(
                    String::from_str("CBR (RAR) archives are not supported yet"),
                ),
            ),
            DocumentFormat::Pdf => match content {
                DocumentContent::Pages(pdf) => Ok(Backend::Pdf(pdf)),
                _ => Err(Self::mismatch()),
            },
            DocumentFormat::Epub => match content {
                DocumentContent::Chapters { chapters, face } => {
                    let opened = EpubRenderer::open(chapters)?;
                    let r = EpubRenderer { chapters: opened.chapters, face };
                    proof {
                        assert(r.texts() =~= chapter_pages(chapters@));
                    }
                    Ok(Backend::Epub(r))
                },
                _ => Err(Self::mismatch()),
            },
            DocumentFormat::Cbz => match content {
                DocumentContent::Bytes(bytes) => {
                    let r = ComicRenderer::open(bytes)?;
                    Ok(Backend::Comic(r))
                },
                _ => Err(Self::mismatch()),
            },
            DocumentFormat::Txt => match content {
                DocumentContent::Text { content, face } => Ok(
                    Backend::Text(TextRenderer { content, is_markdown: false, face }),
                ),
                _ => Err(Self::mismatch()),
            },
            DocumentFormat::Markdown => match content {
                DocumentContent::Text { content, face } => Ok(
                    Backend::Text(TextRenderer { content, is_markdown: true, face }),
                ),
                _ => Err(Self::mismatch()),
            },
        }
    }

    /// The error for content of the wrong form.
    fn mismatch() -> (out: BlinkerError)
        ensures
            out is Parsing,
            out->Parsing_0@ == mismatch_message(),
    {
        BlinkerError::Parsing(String::from_str("Document content does not match its format"))
    }

    /// The number of pages of the document.
    pub fn page_count(&self, content: DocumentContent) -> (out: Result<usize, BlinkerError>)
        ensures
            match out {
                Ok(n) => opening(self.kind, content) is Opened && n == document_total(
                    self.kind,
                    content,
                ),
                Err(e) => refuses(e, opening(self.kind, content)),
            },
    {
        let backend = self.backend(content)?;
        backend.page_count()
    }

    /// Draws the page with the number `page`, counted from 1; the number 0
    /// is taken for 1. A number beyond the last page is an error.
    pub fn render_page(&self, page: usize, content: DocumentContent) -> (out: Result<
        RenderedPage,
        BlinkerError,
    >)
        ensures
            match out {
                Ok(p) => opening(self.kind, content) is Opened && page_index(page)
                    < document_total(self.kind, content) && document_bitmap(
                    self.kind,
                    content,
                    page_index(page),
                ) == Some(p@) && p@.well_formed(),
                Err(e) => if opening(self.kind, content) is Opened {
                    e is Rendering && if page_index(page) < document_total(self.kind, content) {
                        document_bitmap(self.kind, content, page_index(page)) is None
                    } else {
                        e->Rendering_0@ == invalid_page_message(page)
                    }
                } else {
                    refuses(e, opening(self.kind, content))
                },
            },
    {
        let backend = self.backend(content)?;
        backend.render_page(page)
    }

    /// The places where `query` stands in the document, letter case
    /// ignored, `limit` of them at most; none for an empty query. A document
    /// whose backend does not open is an error, the archive format that is
    /// not implemented among them.
    pub fn search(&self, query: &str, limit: usize, content: DocumentContent) -> (out: Result<
        Vec<RenderSearchMatch>,
        BlinkerError,
    >)
        ensures
            match out {
                Ok(list) => opening(self.kind, content) is Opened && match_views(list@)
                    == document_found(self.kind, content, query@, limit as nat) && list@.len()
                    <= limit && (query@.len() == 0 ==> list@.len() == 0),
                Err(e) => refuses(e, opening(self.kind, content)),
            },
    {
        let backend = self.backend(content)?;
        backend.search(query, limit)
    }
}

} // verus!
