//! Kinds of annotation.

use crate::chars::same_text;
use vstd::prelude::*;
use vstd::string::StringExecFns;

verus! {

/// What an annotation is.
#[derive(Debug, Clone, Copy, PartialEq, Eq, Structural)]
pub enum AnnotationKind {
    Highlight,
    Note,
    Bookmark,
}

impl AnnotationKind {
    /// The name of the kind.
    pub open spec fn name(&self) -> Seq<char> {
        match self {
            AnnotationKind::Highlight => "highlight"@,
            AnnotationKind::Note => "note"@,
            AnnotationKind::Bookmark => "bookmark"@,
        }
    }

    /// The kind that a name stands for; a name that is none of the three
    /// stands for a highlight.
    pub open spec fn named(s: Seq<char>) -> AnnotationKind {
        if s == "note"@ {
            AnnotationKind::Note
        } else if s == "bookmark"@ {
            AnnotationKind::Bookmark
        } else {
            AnnotationKind::Highlight
        }
    }

    /// The name of the kind.
    pub fn to_string(&self) -> (out: String)
        ensures
            out@ == self.name(),
    {
        match self {
            AnnotationKind::Highlight => String::from_str("highlight"),
            AnnotationKind::Note => String::from_str("note"),
            AnnotationKind::Bookmark => String::from_str("bookmark"),
        }
    }

    /// The kind that `s` names.
    pub fn from_string(s: &str) -> (out: Self)
        ensures
            out == Self::named(s@),
    {
        if same_text(s, "note") {
            AnnotationKind::Note
        } else if same_text(s, "bookmark") {
            AnnotationKind::Bookmark
        } else {
            AnnotationKind::Highlight
        }
    }
}

/// Every kind is the kind that its own name stands for.
pub proof fn lemma_kind_round_trip(kind: AnnotationKind)
    ensures
        AnnotationKind::named(kind.name()) == kind,
{
    reveal_strlit("highlight");
    reveal_strlit("note");
    reveal_strlit("bookmark");
    assert("highlight"@.len() == 9);
    assert("note"@.len() == 4);
    assert("bookmark"@.len() == 8);
}

} // verus!
