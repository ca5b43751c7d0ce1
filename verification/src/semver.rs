//! Trusted boundary to the `nodejs_semver` crate.
//!
//! Rules identify a library by a semantic-version range; the facts
//! they are matched against carry a live version string.  Whether a
//! range string is well-formed, whether a version string is
//! well-formed, and whether a version lies in a range are each a
//! function of the text alone, so they are given names here and the
//! wrappers below relate the crate's answers to those names.

use vstd::prelude::*;

verus! {

/// Whether `r` is a well-formed semantic-version range.
pub uninterp spec fn range_valid(r: Seq<char>) -> bool;

/// Whether `v` is a well-formed semantic version.
pub uninterp spec fn version_valid(v: Seq<char>) -> bool;

/// Whether the version written `v` lies in the range written `r`.
pub uninterp spec fn version_in_range(v: Seq<char>, r: Seq<char>) -> bool;

/// Relies on `nodejs_semver::Range::parse`: whether a range string
/// parses depends on the text alone.
#[verifier::external_body]
pub fn range_parses(s: &str) -> (r: bool)
    ensures
        r == range_valid(s@),
{
    match nodejs_semver::Range::parse(s) {
        Ok(_) => true,
        Err(_) => false,
    }
}

/// Relies on `nodejs_semver::Version::parse`, `Range::parse` and
/// `Version::satisfies`, each a pure function of its input text; an
/// unparsable version or range yields `false`, never an error.
#[verifier::external_body]
pub fn version_satisfies(version: &str, range: &str) -> (r: bool)
    ensures
        r == (version_valid(version@) && range_valid(range@) && version_in_range(
            version@,
            range@,
        )),
{
    match (nodejs_semver::Version::parse(version), nodejs_semver::Range::parse(range)) {
        (Ok(v), Ok(rg)) => v.satisfies(&rg),
        _ => false,
    }
}

} // verus!
