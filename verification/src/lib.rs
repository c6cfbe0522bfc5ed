//! Core types and utilities for code analysis, transpilation and
//! optimization, together with a small verified intermediate
//! representation (IR) for trees of expressions and statements and the
//! semantics-preserving rewrites that operate on them.

use vstd::prelude::*;

pub mod analysis;
pub mod analyzer;
pub mod bindings;
pub mod checker;
pub mod codegen;
pub mod ir;
pub mod optimizer;
pub mod rename;
pub mod semantic;
pub mod transpiler;
pub mod types;
pub mod validator;

verus! {

/// Library version.
pub const VERSION: &'static str = "0.1.0";

} // verus!
