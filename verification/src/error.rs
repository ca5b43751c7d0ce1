//! The library's error type.
//!
//! Every failure the engine can report is a configuration-time failure:
//! an invalid version range, a malformed rule field, or an I/O problem
//! while loading a rule file.  Nothing during a traversal pass errors.

use vstd::prelude::*;

verus! {

/// Declares `std::io::Error` so a value of it can be carried inside
/// [`OrchestrionError`].  Nothing is assumed about it.
#[verifier::external_type_specification]
#[verifier::external_body]
pub struct ExIoError(std::io::Error);

/// An error raised while constructing a rule set.
#[derive(Debug)]
pub enum OrchestrionError {
    IoError(std::io::Error),
    StrError(String),
}

impl From<std::io::Error> for OrchestrionError {
    fn from(e: std::io::Error) -> (r: Self) {
        OrchestrionError::IoError(e)
    }
}

impl vstd::std_specs::convert::FromSpecImpl<std::io::Error> for OrchestrionError {
    open spec fn obeys_from_spec() -> bool {
        true
    }

    open spec fn from_spec(e: std::io::Error) -> OrchestrionError {
        OrchestrionError::IoError(e)
    }
}

impl From<String> for OrchestrionError {
    fn from(s: String) -> (r: Self) {
        OrchestrionError::StrError(s)
    }
}

impl vstd::std_specs::convert::FromSpecImpl<String> for OrchestrionError {
    open spec fn obeys_from_spec() -> bool {
        true
    }

    open spec fn from_spec(s: String) -> OrchestrionError {
        OrchestrionError::StrError(s)
    }
}

impl From<&str> for OrchestrionError {
    fn from(s: &str) -> (r: Self) {
        OrchestrionError::StrError(s.to_owned())
    }
}

impl vstd::std_specs::convert::FromSpecImpl<&str> for OrchestrionError {
    open spec fn obeys_from_spec() -> bool {
        false
    }

    open spec fn from_spec(s: &str) -> OrchestrionError {
        arbitrary()
    }
}

impl OrchestrionError {
    /// Renders the error as text, in place of a `Display` impl.
    pub fn message(&self) -> (r: String)
        ensures
            self is StrError ==> r@ == "String error: "@ + self->StrError_0@,
            self is IoError ==> (exists|rest: Seq<char>| r@ == "IO error: "@ + rest),
    {
        match self {
            OrchestrionError::StrError(s) => String::from_str("String error: ").concat(s.as_str()),
            OrchestrionError::IoError(e) => {
                let detail = io_error_text(e);
                let r = String::from_str("IO error: ").concat(detail.as_str());
                proof {
                    assert(r@ == "IO error: "@ + detail@);
                }
                r
            },
        }
    }
}

/// Relies on the `Display` impl of `std::io::Error`; only that it returns
/// some text is used.
#[verifier::external_body]
fn io_error_text(e: &std::io::Error) -> (r: String) {
    format!("{e}")
}

} // verus!
