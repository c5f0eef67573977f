//! An interpreter for the Monkey programming language: the abstract syntax
//! tree, the object system, the environments and the evaluator.

pub mod ast;
pub mod environment;
pub mod error;
pub mod object;
pub mod semantics;
pub mod evaluator;
pub mod laws;
pub mod text;
