//! Metadata of a document, as far as its file name gives it.

use crate::error::BlinkerError;
use crate::library::optional_text;
use crate::paths::{path_extension, path_stem};
use crate::types::{DocumentFormat, Metadata};
use vstd::prelude::*;
use vstd::string::StringExecFns;

verus! {

/// Reads the metadata of documents.
pub struct MetadataExtractor;

/// The title that a file with the stem `stem` gets.
pub open spec fn title_from(stem: Option<Seq<char>>) -> Seq<char> {
    match stem {
        Some(s) => s,
        None => "Untitled"@,
    }
}

/// The message of the error for a file without an extension.
pub open spec fn missing_extension_message() -> Seq<char> {
    "Missing file extension"@
}

impl MetadataExtractor {
    /// The metadata of the document at `path`: its title is the stem of the
    /// file name. A path without an extension is refused.
    pub fn extract(path: &str) -> (out: Result<Metadata, BlinkerError>)
        ensures
            match out {
                Ok(m) => exists|title: Seq<char>| m.is_bare(title),
                Err(e) => e is Parsing && e->Parsing_0@ == missing_extension_message(),
            },
    {
        let extension = path_extension(path);
        let stem = path_stem(path);
        Self::extract_named(&extension, &stem)
    }

    /// The metadata of a document whose file name has the extension
    /// `extension` and the stem `stem`.
    pub fn extract_named(extension: &Option<String>, stem: &Option<String>) -> (out: Result<
        Metadata,
        BlinkerError,
    >)
        ensures
            match out {
                Ok(m) => extension is Some && m.is_bare(title_from(optional_text(*stem))),
                Err(e) => extension is None && e is Parsing && e->Parsing_0@
                    == missing_extension_message(),
            },
    {
        let ext = match extension {
            Some(ext) => ext,
            None => {
                return Err(BlinkerError::Parsing(String::from_str("Missing file extension")));
            },
        };
        match DocumentFormat::from_extension(ext.as_str()) {
            Some(DocumentFormat::Pdf) => Self::extract_pdf(stem),
            Some(DocumentFormat::Epub) => Self::extract_epub(stem),
            _ => Self::extract_basic(stem),
        }
    }

    /// Metadata from the file name alone.
    pub fn extract_basic(stem: &Option<String>) -> (out: Result<Metadata, BlinkerError>)
        ensures
            out matches Ok(m) && m.is_bare(title_from(optional_text(*stem))),
    {
        let title = match stem {
            Some(s) => s.clone(),
            None => String::from_str("Untitled"),
        };
        Ok(Metadata::titled(title, None))
    }

    /// Metadata of a fixed-layout document: what the file name gives.
    pub fn extract_pdf(stem: &Option<String>) -> (out: Result<Metadata, BlinkerError>)
        ensures
            out matches Ok(m) && m.is_bare(title_from(optional_text(*stem))),
    {
        Self::extract_basic(stem)
    }

    /// Metadata of a flow document: what the file name gives.
    pub fn extract_epub(stem: &Option<String>) -> (out: Result<Metadata, BlinkerError>)
        ensures
            out matches Ok(m) && m.is_bare(title_from(optional_text(*stem))),
    {
        Self::extract_basic(stem)
    }
}

} // verus!
