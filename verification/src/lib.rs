//! Mica: lexing, intermediate representation, code generation back ends,
//! a deterministic capability runtime and pipeline tooling.
use vstd::prelude::*;

pub mod backend;
pub mod cli;
pub mod diagnostics;
pub mod syntax;
pub mod ir;
pub mod lower;
pub mod pretty;
pub mod runtime;
pub mod semantics;
pub mod text;
pub mod tooling;

verus! {

} // verus!
