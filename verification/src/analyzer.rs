//! Project analyzer handle: language detection and quality scoring
//! are driven from here.
//!
//! Scanning the filesystem and computing debt scores are I/O and
//! float work that live with the caller; the library holds the
//! configured project path.

use vstd::prelude::*;

verus! {

/// Project analyzer for language detection and quality scoring.
pub struct Analyzer {
    path: String,
}

impl Analyzer {
    /// The configured project path.
    pub closed spec fn path_spec(&self) -> Seq<char> {
        self.path@
    }

    /// Create a new analyzer for the given path.
    pub fn new(path: &str) -> (r: Analyzer)
        ensures
            r.path_spec() == path@,
    {
        Analyzer { path: path.to_owned() }
    }

    /// The path this analyzer was created for.
    pub fn path(&self) -> (r: &String)
        ensures
            r@ == self.path_spec(),
    {
        &self.path
    }
}

} // verus!
