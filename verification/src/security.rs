//! The security layer: markup sanitisation and the validation of paths
//! found inside archives.

use crate::chars::{chars_of, contains_chars, contains_seq};
use crate::error::BlinkerError;
use vstd::prelude::*;
use vstd::string::StringExecFns;

verus! {

/// What `ammonia` makes of markup with the characters `html`, when it is
/// set up as `clean_markup` sets it up.
pub uninterp spec fn sanitized(html: Seq<char>) -> Seq<char>;

/// Cleans markup with `ammonia::Builder`: the default allow-list without
/// `rel` attributes on links, with relative URLs denied, and with the tags
/// `script`, `iframe`, `object`, `embed` and `form` taken off the list. The
/// outcome depends on the markup alone.
#[verifier::external_body]
pub(crate) fn clean_markup(html: &str) -> (out: String)
    ensures
        out@ == sanitized(html@),
{
    ammonia::Builder::default()
        .link_rel(None)
        .url_relative(ammonia::UrlRelative::Deny)
        .rm_tags(&["script", "iframe", "object", "embed", "form"])
        .clean(html)
        .to_string()
}

/// The place of the operating system's sandbox. Confining the process is
/// the business of the program around the library.
#[derive(Debug)]
pub struct Sandbox;

impl Sandbox {
    pub fn new() -> (out: Result<Self, BlinkerError>)
        ensures
            out is Ok,
    {
        Ok(Sandbox)
    }

    pub fn apply(&self) -> (out: Result<(), BlinkerError>)
        ensures
            out is Ok,
    {
        Ok(())
    }
}

/// Untrusted markup with scripting elements and attributes that execute or
/// fetch taken out.
pub fn sanitize_html(html: &str) -> (out: Result<String, BlinkerError>)
    ensures
        out matches Ok(clean) && clean@ == sanitized(html@),
{
    Ok(clean_markup(html))
}

/// Whether a path inside an archive may leave the archive: it holds two
/// dots in a row, or it begins with a slash or a backslash.
pub open spec fn escapes(path: Seq<char>) -> bool {
    ||| contains_seq(path, seq!['.', '.'])
    ||| (path.len() > 0 && (path[0] == '/' || path[0] == '\\'))
}

/// The message of the error that refuses an archive path.
pub open spec fn traversal_message(path: Seq<char>) -> Seq<char> {
    "Path traversal attempt detected: "@ + path
}

/// Accepts a path found inside an archive unless it may leave the archive.
pub fn validate_path(path: &str) -> (out: Result<(), BlinkerError>)
    ensures
        out is Err <==> escapes(path@),
        out matches Err(e) ==> e is Security && e->Security_0@ == traversal_message(path@),
{
    let chars = chars_of(path);
    let mut dots: Vec<char> = Vec::new();
    dots.push('.');
    dots.push('.');
    assert(dots@ =~= seq!['.', '.']);
    let absolute = chars.len() > 0 && (chars[0] == '/' || chars[0] == '\\');
    if absolute || contains_chars(&chars, &dots) {
        let msg = String::from_str("Path traversal attempt detected: ").concat(path);
        Err(BlinkerError::Security(msg))
    } else {
        Ok(())
    }
}

} // verus!
