//! Document formats and document metadata.

use crate::chars::{lowercase, same_text, to_lowercase};
use vstd::prelude::*;
use vstd::string::StringExecFns;

verus! {

/// The document formats the core knows.
#[derive(Debug, Clone, Copy, PartialEq, Eq, Structural)]
pub enum DocumentFormat {
    /// Fixed-layout pages.
    Pdf,
    /// Reflowable chapters.
    Epub,
    /// Images in a zip archive.
    Cbz,
    /// Images in a RAR archive: recognised, not rendered.
    Cbr,
    /// Plain text.
    Txt,
    /// Lightweight markup.
    Markdown,
}

/// The format that a lower-case extension stands for.
pub open spec fn format_of(ext: Seq<char>) -> Option<DocumentFormat> {
    if ext == "pdf"@ {
        Some(DocumentFormat::Pdf)
    } else if ext == "epub"@ {
        Some(DocumentFormat::Epub)
    } else if ext == "cbz"@ {
        Some(DocumentFormat::Cbz)
    } else if ext == "cbr"@ {
        Some(DocumentFormat::Cbr)
    } else if ext == "txt"@ {
        Some(DocumentFormat::Txt)
    } else if ext == "md"@ || ext == "markdown"@ {
        Some(DocumentFormat::Markdown)
    } else {
        None
    }
}

impl DocumentFormat {
    /// The format of a file with the extension `ext`, in any letter case;
    /// `None` for an extension that is not supported.
    pub fn from_extension(ext: &str) -> (out: Option<Self>)
        ensures
            out == format_of(lowercase(ext@)),
    {
        let lower = to_lowercase(ext);
        Self::from_lowercase(lower.as_str())
    }

    /// The format that the lower-case extension `ext` stands for.
    pub fn from_lowercase(ext: &str) -> (out: Option<Self>)
        ensures
            out == format_of(ext@),
    {
        if same_text(ext, "pdf") {
            Some(DocumentFormat::Pdf)
        } else if same_text(ext, "epub") {
            Some(DocumentFormat::Epub)
        } else if same_text(ext, "cbz") {
            Some(DocumentFormat::Cbz)
        } else if same_text(ext, "cbr") {
            Some(DocumentFormat::Cbr)
        } else if same_text(ext, "txt") {
            Some(DocumentFormat::Txt)
        } else if same_text(ext, "md") || same_text(ext, "markdown") {
            Some(DocumentFormat::Markdown)
        } else {
            None
        }
    }

    /// The canonical extension of the format.
    pub open spec fn name(&self) -> Seq<char> {
        match self {
            DocumentFormat::Pdf => "pdf"@,
            DocumentFormat::Epub => "epub"@,
            DocumentFormat::Cbz => "cbz"@,
            DocumentFormat::Cbr => "cbr"@,
            DocumentFormat::Txt => "txt"@,
            DocumentFormat::Markdown => "markdown"@,
        }
    }

    /// The canonical extension of the format.
    pub fn as_str(&self) -> (out: &'static str)
        ensures
            out@ == self.name(),
    {
        match self {
            DocumentFormat::Pdf => "pdf",
            DocumentFormat::Epub => "epub",
            DocumentFormat::Cbz => "cbz",
            DocumentFormat::Cbr => "cbr",
            DocumentFormat::Txt => "txt",
            DocumentFormat::Markdown => "markdown",
        }
    }
}

/// Every format is the format of its own canonical extension.
pub proof fn lemma_name_round_trip(format: DocumentFormat)
    ensures
        format_of(format.name()) == Some(format),
{
    reveal_strlit("pdf");
    reveal_strlit("epub");
    reveal_strlit("cbz");
    reveal_strlit("cbr");
    reveal_strlit("txt");
    reveal_strlit("md");
    reveal_strlit("markdown");
    assert("pdf"@.len() == 3);
    assert("epub"@.len() == 4);
    assert("cbz"@[2] == 'z');
    assert("cbr"@[2] == 'r');
    assert("txt"@[0] == 't');
    assert("markdown"@.len() == 8);
    assert("md"@.len() == 2);
}

/// What is known about a document besides its bytes.
#[derive(Debug, Clone)]
pub struct Metadata {
    pub title: String,
    pub author: Option<String>,
    pub publisher: Option<String>,
    pub subject: Option<String>,
    pub language: Option<String>,
    pub created_at: Option<i64>,
    pub modified_at: Option<i64>,
    pub page_count: Option<usize>,
}

impl Metadata {
    /// Metadata that holds a title and nothing else.
    pub open spec fn is_bare(&self, title: Seq<char>) -> bool {
        &&& self.title@ == title
        &&& self.author is None
        &&& self.publisher is None
        &&& self.subject is None
        &&& self.language is None
        &&& self.created_at is None
        &&& self.modified_at is None
        &&& self.page_count is None
    }

    /// Metadata with the given title and author and nothing else.
    pub fn titled(title: String, author: Option<String>) -> (out: Self)
        ensures
            out.title@ == title@,
            out.author == author,
            out.publisher is None,
            out.subject is None,
            out.language is None,
            out.created_at is None,
            out.modified_at is None,
            out.page_count is None,
    {
        Metadata {
            title,
            author,
            publisher: None,
            subject: None,
            language: None,
            created_at: None,
            modified_at: None,
            page_count: None,
        }
    }
}

impl Default for Metadata {
    fn default() -> (out: Self)
        ensures
            out.is_bare("Untitled"@),
    {
        Metadata::titled(String::from_str("Untitled"), None)
    }
}

} // verus!
