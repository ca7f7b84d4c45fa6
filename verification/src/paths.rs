//! File names: the two parts of a path that the core reads.

use vstd::prelude::*;

verus! {

/// The extension of the file that `path` names, as
/// `std::path::Path::extension` finds it on this platform; `None` where
/// there is none or it is no valid text.
#[verifier::external_body]
pub(crate) fn path_extension(path: &str) -> (out: Option<String>) {
    std::path::Path::new(path).extension().and_then(|e| e.to_str()).map(|e| e.to_string())
}

/// The name of the file that `path` names without its extension, as
/// `std::path::Path::file_stem` finds it on this platform; `None` where
/// there is none or it is no valid text.
#[verifier::external_body]
pub(crate) fn path_stem(path: &str) -> (out: Option<String>) {
    std::path::Path::new(path).file_stem().and_then(|s| s.to_str()).map(|s| s.to_string())
}

} // verus!
