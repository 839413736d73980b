//! Name resolution results and the checks that run on the syntax tree.
pub mod check;
pub mod resolve;
