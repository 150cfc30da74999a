//! A compiler and interpreter for a small imperative expression language:
//! lexer, recursive-descent parser with precedence climbing, lowering to a
//! linear register-based intermediate representation, an interpreter for that
//! representation, and a linear-scan register allocator.

pub mod ast;
pub mod codegen;
pub mod current_iterator;
pub mod interp;
pub mod ir;
pub mod irgen;
pub mod lexer;
pub mod parser;
pub mod syntax_error;

use vstd::prelude::*;

verus! {

} // verus!
