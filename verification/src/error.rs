//! The error type shared by every component.

use crate::chars::starts_with_seq;
use vstd::prelude::*;
use vstd::string::StringExecFns;

verus! {

/// The error of the operating system's I/O layer, carried as it is.
#[verifier::external_type_specification]
#[verifier::external_body]
pub struct ExIoError(std::io::Error);

/// What can go wrong in the core, by kind.
#[derive(Debug)]
pub enum BlinkerError {
    /// Reading a file or an archive entry failed.
    Io(std::io::Error),
    /// The catalog refused or failed an operation.
    Database(String),
    /// A file is malformed, or not of a supported format.
    Parsing(String),
    /// A page could not be drawn.
    Rendering(String),
    /// Content broke a security policy.
    Security(String),
    /// Something asked for does not exist.
    NotFound(String),
}

/// Formats a `std::io::Error` with its `Display` impl.
#[verifier::external_body]
fn io_error_text(err: &std::io::Error) -> (out: String) {
    format!("{}", err)
}

impl BlinkerError {
    /// The text that introduces an error of this kind.
    pub open spec fn prefix(&self) -> Seq<char> {
        match self {
            BlinkerError::Io(_) => "IO error: "@,
            BlinkerError::Database(_) => "Database error: "@,
            BlinkerError::Parsing(_) => "Parsing error: "@,
            BlinkerError::Rendering(_) => "Rendering error: "@,
            BlinkerError::Security(_) => "Security error: "@,
            BlinkerError::NotFound(_) => "Not found: "@,
        }
    }

    /// The message of an error that carries one.
    pub open spec fn detail(&self) -> Option<Seq<char>> {
        match self {
            BlinkerError::Io(_) => None,
            BlinkerError::Database(m) => Some(m@),
            BlinkerError::Parsing(m) => Some(m@),
            BlinkerError::Rendering(m) => Some(m@),
            BlinkerError::Security(m) => Some(m@),
            BlinkerError::NotFound(m) => Some(m@),
        }
    }

    /// The error as one line of text: the kind's prefix, then the message
    /// (for an I/O error, the system's own description).
    pub fn to_string(&self) -> (out: String)
        ensures
            starts_with_seq(out@, self.prefix()),
            self.detail() matches Some(m) ==> out@ == self.prefix() + m,
    {
        let out = match self {
            BlinkerError::Io(e) => {
                let t = io_error_text(e);
                String::from_str("IO error: ").concat(t.as_str())
            },
            BlinkerError::Database(m) => String::from_str("Database error: ").concat(m.as_str()),
            BlinkerError::Parsing(m) => String::from_str("Parsing error: ").concat(m.as_str()),
            BlinkerError::Rendering(m) => String::from_str("Rendering error: ").concat(m.as_str()),
            BlinkerError::Security(m) => String::from_str("Security error: ").concat(m.as_str()),
            BlinkerError::NotFound(m) => String::from_str("Not found: ").concat(m.as_str()),
        };
        assert(out@.subrange(0, self.prefix().len() as int) =~= self.prefix());
        out
    }
}

impl From<std::io::Error> for BlinkerError {
    fn from(err: std::io::Error) -> (out: Self) {
        BlinkerError::Io(err)
    }
}

impl vstd::std_specs::convert::FromSpecImpl<std::io::Error> for BlinkerError {
    open spec fn obeys_from_spec() -> bool {
        true
    }

    open spec fn from_spec(err: std::io::Error) -> Self {
        BlinkerError::Io(err)
    }
}

} // verus!
