//! The catalog's data: items, queries, scan candidates and outcomes, and the
//! operations a store offers.

use crate::paths::{path_extension, path_stem};
use crate::types::Metadata;
use vstd::prelude::*;

verus! {

/// A copy of `s`.
pub fn copy_string(s: &String) -> (out: String)
    ensures
        out@ == s@,
{
    s.clone()
}

/// A copy of an optional string.
pub fn copy_optional(s: &Option<String>) -> (out: Option<String>)
    ensures
        optional_text(out) == optional_text(*s),
{
    match s {
        Some(t) => Some(copy_string(t)),
        None => None,
    }
}

/// The characters of an optional string.
pub open spec fn optional_text(s: Option<String>) -> Option<Seq<char>> {
    match s {
        Some(t) => Some(t@),
        None => None,
    }
}

/// The characters of each string of a list.
pub open spec fn texts(list: Seq<String>) -> Seq<Seq<char>> {
    list.map_values(|s: String| s@)
}

/// A copy of a list of strings.
pub fn copy_strings(list: &Vec<String>) -> (out: Vec<String>)
    ensures
        texts(out@) == texts(list@),
{
    let mut out: Vec<String> = Vec::new();
    let mut i: usize = 0;
    while i < list.len()
        invariant
            i <= list@.len(),
            out@.len() == i,
            forall|k: int| 0 <= k < i ==> out@[k]@ == list@[k]@,
        decreases list@.len() - i,
    {
        out.push(copy_string(&list[i]));
        i += 1;
    }
    assert(texts(out@) =~= texts(list@));
    out
}

/// A catalog entry as plain values.
pub struct ItemView {
    pub id: Seq<char>,
    pub file_path: Seq<char>,
    pub file_hash: Seq<char>,
    pub file_type: Seq<char>,
    pub file_size: u64,
    pub title: Seq<char>,
    pub author: Option<Seq<char>>,
    pub publisher: Option<Seq<char>>,
    pub subject: Option<Seq<char>>,
    pub language: Option<Seq<char>>,
    pub created_at: Option<i64>,
    pub modified_at: Option<i64>,
    pub page_count: Option<usize>,
    pub tags: Seq<Seq<char>>,
}

/// One document of the collection as the catalog knows it.
#[derive(Debug, Clone)]
pub struct LibraryItem {
    /// Identifier, derived from the content hash when the item was created.
    pub id: String,
    /// Where the file lies; the catalog's key.
    pub file_path: String,
    /// Digest of the file's bytes, in hexadecimal.
    pub file_hash: String,
    /// The file's extension in lower case.
    pub file_type: String,
    /// The file's length in bytes.
    pub file_size: u64,
    pub metadata: Metadata,
    pub tags: Vec<String>,
}

impl View for LibraryItem {
    type V = ItemView;

    open spec fn view(&self) -> ItemView {
        ItemView {
            id: self.id@,
            file_path: self.file_path@,
            file_hash: self.file_hash@,
            file_type: self.file_type@,
            file_size: self.file_size,
            title: self.metadata.title@,
            author: optional_text(self.metadata.author),
            publisher: optional_text(self.metadata.publisher),
            subject: optional_text(self.metadata.subject),
            language: optional_text(self.metadata.language),
            created_at: self.metadata.created_at,
            modified_at: self.metadata.modified_at,
            page_count: self.metadata.page_count,
            tags: texts(self.tags@),
        }
    }
}

impl LibraryItem {
    /// A copy of the item.
    pub fn copy(&self) -> (out: LibraryItem)
        ensures
            out@ == self@,
    {
        LibraryItem {
            id: copy_string(&self.id),
            file_path: copy_string(&self.file_path),
            file_hash: copy_string(&self.file_hash),
            file_type: copy_string(&self.file_type),
            file_size: self.file_size,
            metadata: Metadata {
                title: copy_string(&self.metadata.title),
                author: copy_optional(&self.metadata.author),
                publisher: copy_optional(&self.metadata.publisher),
                subject: copy_optional(&self.metadata.subject),
                language: copy_optional(&self.metadata.language),
                created_at: self.metadata.created_at,
                modified_at: self.metadata.modified_at,
                page_count: self.metadata.page_count,
            },
            tags: copy_strings(&self.tags),
        }
    }
}

/// The views of a list of items.
pub open spec fn item_views(items: Seq<LibraryItem>) -> Seq<ItemView> {
    items.map_values(|it: LibraryItem| it@)
}

/// A filter over the catalog. An absent field puts no constraint on its axis.
#[derive(Debug, Clone)]
pub struct LibraryQuery {
    /// Wanted in the title or the author, in any letter case.
    pub text: Option<String>,
    /// The file types wanted.
    pub file_types: Option<Vec<String>>,
    pub tags: Option<Vec<String>>,
    /// The largest number of items to return.
    pub limit: Option<usize>,
}

impl Default for LibraryQuery {
    fn default() -> (out: Self)
        ensures
            out.text is None,
            out.file_types is None,
            out.tags is None,
            out.limit is None,
    {
        LibraryQuery { text: None, file_types: None, tags: None, limit: None }
    }
}

/// What reconciling one file against the catalog came to.
#[derive(Debug, Clone)]
pub enum AddOutcome {
    /// The path was new: an item was created under this identifier.
    Created { id: String },
    /// The path was known with other content: the item was overwritten.
    Updated { id: String },
    /// The path was known with the same content.
    Unchanged { id: String },
}

/// An outcome as plain values.
pub enum OutcomeView {
    Created(Seq<char>),
    Updated(Seq<char>),
    Unchanged(Seq<char>),
}

impl View for AddOutcome {
    type V = OutcomeView;

    open spec fn view(&self) -> OutcomeView {
        match self {
            AddOutcome::Created { id } => OutcomeView::Created(id@),
            AddOutcome::Updated { id } => OutcomeView::Updated(id@),
            AddOutcome::Unchanged { id } => OutcomeView::Unchanged(id@),
        }
    }
}

impl OutcomeView {
    /// The identifier the outcome names.
    pub open spec fn id(self) -> Seq<char> {
        match self {
            OutcomeView::Created(id) => id,
            OutcomeView::Updated(id) => id,
            OutcomeView::Unchanged(id) => id,
        }
    }
}

/// What was found at a path when the scanner looked.
#[derive(Debug)]
pub enum FileProbe {
    /// The path could not be examined or read.
    Unreadable(std::io::Error),
    /// The path is not a regular file.
    NotAFile,
    /// A regular file of `size` bytes whose content hashes to `hash`.
    Regular { size: u64, hash: String },
}

/// A file that the scanner came across: its path, the extension and the
/// stem of its name where it has them, and what was found there.
#[derive(Debug)]
pub struct ScannedFile {
    pub path: String,
    pub extension: Option<String>,
    pub stem: Option<String>,
    pub probe: FileProbe,
}

impl ScannedFile {
    /// The scanned file at `path`, with the extension and the stem that
    /// its name has on this platform.
    pub fn at(path: String, probe: FileProbe) -> (out: ScannedFile)
        ensures
            out.path == path,
            out.probe == probe,
    {
        let extension = path_extension(path.as_str());
        let stem = path_stem(path.as_str());
        ScannedFile { path, extension, stem, probe }
    }
}

/// A probe as plain values.
pub enum ProbeView {
    Unreadable,
    NotAFile,
    Regular { size: u64, hash: Seq<char> },
}

/// A scanned file as plain values.
pub struct FileView {
    pub path: Seq<char>,
    pub extension: Option<Seq<char>>,
    pub stem: Option<Seq<char>>,
    pub probe: ProbeView,
}

impl View for ScannedFile {
    type V = FileView;

    open spec fn view(&self) -> FileView {
        FileView {
            path: self.path@,
            extension: optional_text(self.extension),
            stem: optional_text(self.stem),
            probe: match self.probe {
                FileProbe::Unreadable(_) => ProbeView::Unreadable,
                FileProbe::NotAFile => ProbeView::NotAFile,
                FileProbe::Regular { size, hash } => ProbeView::Regular { size, hash: hash@ },
            },
        }
    }
}

/// The views of a list of scanned files.
pub open spec fn file_views(files: Seq<ScannedFile>) -> Seq<FileView> {
    files.map_values(|f: ScannedFile| f@)
}

} // verus!
