//! Verified core of a parallel substring search over remote objects.
//!
//! The library holds the search pipeline's logic: paginated key discovery,
//! bounded-concurrency bookkeeping, streaming line scanning with binary
//! detection, and output formatting. The unverified binary around it does the
//! network and terminal work and feeds plain values in and out.

use vstd::prelude::*;

pub mod emit;
pub mod enumerate;
pub mod keys;
pub mod matching;
pub mod scanner;
pub mod schedule;

pub use matching::line_matches;

verus! {

/// An immutable description of one search run.
pub struct SearchRequest {
    /// Bucket (namespace) that holds the objects.
    pub bucket: String,
    /// Key prefix that narrows the listing.
    pub prefix: String,
    /// Substring to look for in every line.
    pub pattern: String,
    /// Whether the match is literal-case.
    pub case_sensitive: bool,
    /// Cap on simultaneously active object scans; must be at least 1.
    pub max_concurrency: usize,
    /// Whether emitted match lines carry line numbers.
    pub want_line_numbers: bool,
}

/// A rejected `SearchRequest`, surfaced before any scanning starts.
#[derive(Debug)]
pub struct ConfigError {
    /// Human-readable reason for the rejection.
    pub message: String,
}

impl SearchRequest {
    /// A request is valid exactly when its concurrency cap is at least 1.
    pub fn validate(&self) -> (r: Result<(), ConfigError>)
        ensures
            r is Ok <==> self.max_concurrency >= 1,
    {
        if self.max_concurrency >= 1 {
            Ok(())
        } else {
            Err(ConfigError { message: String::from_str("max concurrency must be at least 1") })
        }
    }
}

} // verus!
