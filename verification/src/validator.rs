//! Semantic equivalence validation handle.
//!
//! Running the two binaries, tracing their system calls and timing
//! them is I/O that lives with the caller; the library holds the
//! configured binary paths.

use vstd::prelude::*;

verus! {

/// Semantic validator for checking that a transpiled binary behaves
/// like the original.
pub struct SemanticValidator {
    original_binary: String,
    transpiled_binary: String,
}

impl SemanticValidator {
    /// The configured path of the original binary.
    pub closed spec fn original_spec(&self) -> Seq<char> {
        self.original_binary@
    }

    /// The configured path of the transpiled binary.
    pub closed spec fn transpiled_spec(&self) -> Seq<char> {
        self.transpiled_binary@
    }

    /// Create a new validator for the two binaries.
    pub fn new(original: &str, transpiled: &str) -> (r: SemanticValidator)
        ensures
            r.original_spec() == original@,
            r.transpiled_spec() == transpiled@,
    {
        SemanticValidator {
            original_binary: original.to_owned(),
            transpiled_binary: transpiled.to_owned(),
        }
    }

    /// The path of the original binary.
    pub fn original_binary(&self) -> (r: &String)
        ensures
            r@ == self.original_spec(),
    {
        &self.original_binary
    }

    /// The path of the transpiled binary.
    pub fn transpiled_binary(&self) -> (r: &String)
        ensures
            r@ == self.transpiled_spec(),
    {
        &self.transpiled_binary
    }
}

} // verus!
