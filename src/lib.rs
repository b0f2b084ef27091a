//! An interpreter core for a small Rust-like language: integers of two
//! widths, immutable strings, fixed-length arrays and (nested) structs with
//! in-place field and index mutation, operator overloading on structs,
//! recursion, and a single print primitive.
//!
//! - `lexer`: source bytes to tokens, and integer literals to values.
//! - `layout`: struct declarations to flattened layouts and field offsets.
//! - `scalar`: runtime scalars and width-checked built-in operators.
//! - `storage`: binding cells and lvalue paths into them.
//! - `env`: scope frames of bindings.
//! - `overload`: the (struct type, operator) table and operator dispatch.
//! - `eval`: expressions and conditions.
//! - `machine`: one function body as straight-line code with jumps.
//! - `program`: calls, returns and recursion across functions.
//! - `text`: what the print primitive writes.
//! - `numbers`, `points`: the recursive and point-arithmetic functions that
//!   the interpreted programs compute, as native functions.
use vstd::prelude::*;

pub mod env;
pub mod eval;
pub mod layout;
pub mod lexer;
pub mod machine;
pub mod numbers;
pub mod overload;
pub mod points;
pub mod program;
pub mod scalar;
pub mod storage;
pub mod text;

verus! {

} // verus!
