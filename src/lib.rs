//! A call-by-need evaluator for an untyped lambda calculus whose nodes live
//! in an arena and are overwritten in place once they are evaluated.
use vstd::prelude::*;

pub mod construct;
pub mod eval;
pub mod heap;
pub mod laws;
pub mod value;

pub use construct::{ap, force_expect_i32, i32, lambda, succ};
pub use heap::Heap;
pub use value::{Closure, EnvCell, EvalError, HeapObj, HeapPtr, Term, Value};

verus! {

} // verus!
