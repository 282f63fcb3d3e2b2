//! The data that lives in the heap: values, closures, nodes and the code of
//! lambda bodies.
use vstd::prelude::*;

verus! {

/// A handle on a node of the heap. Handles are plain indices, so copying one
/// makes an alias: every copy observes the overwrite that evaluation performs.
#[derive(Clone, Copy, PartialEq, Eq, Structural, Debug)]
pub struct HeapPtr {
    pub index: usize,
}

/// Why an evaluation stopped without a value.
#[derive(Clone, Copy, PartialEq, Eq, Structural, Debug)]
pub enum EvalError {
    /// The function position of an application evaluated to an integer, or an
    /// integer was expected and a closure was found.
    TypeMismatch,
    /// A lambda body refers to a variable that its environment does not bind.
    UnboundVariable,
    /// The successor of the largest `i32` was asked for.
    Overflow,
    /// The evaluation needed more nested steps than it was allowed.
    OutOfFuel,
}

/// A callable value. `Lambda` instantiates the code at `body` in its
/// environment extended by the argument; `Succ` is the primitive that forces
/// its argument and adds one to it.
#[derive(Clone, Copy, PartialEq, Eq, Structural, Debug)]
pub enum Closure {
    Lambda { body: usize, env: Option<usize> },
    Succ,
}

/// An evaluated result.
#[derive(Clone, Copy, PartialEq, Eq, Structural, Debug)]
pub enum Value {
    I32(i32),
    Closure(Closure),
}

/// A heap node: an application not yet evaluated, or a value.
#[derive(Clone, Copy, PartialEq, Eq, Structural, Debug)]
pub enum HeapObj {
    App(HeapPtr, HeapPtr),
    Value(Value),
}

/// A lambda body. Children are indices of earlier entries of the code table;
/// `Var(0)` is the innermost bound variable (de Bruijn index), and `Lam`
/// builds a closure that captures the current environment.
#[derive(Clone, Copy, PartialEq, Eq, Structural, Debug)]
pub enum Term {
    Var(usize),
    Int(i32),
    Lam(usize),
    App(usize, usize),
}

/// One cell of a captured environment: the innermost binding and the index of
/// the cell that holds the enclosing ones.
#[derive(Clone, Copy, PartialEq, Eq, Structural, Debug)]
pub struct EnvCell {
    pub head: HeapPtr,
    pub tail: Option<usize>,
}

impl Value {
    /// The integer inside an integer value.
    pub fn expect_i32(self) -> (r: i32)
        requires
            self is I32,
        ensures
            self == Value::I32(r),
    {
        match self {
            Value::I32(i) => i,
            Value::Closure(_) => {
                proof {
                    assert(false);
                }
                0
            },
        }
    }

    /// The closure inside a closure value.
    pub fn expect_closure(self) -> (r: Closure)
        requires
            self is Closure,
        ensures
            self == Value::Closure(r),
    {
        match self {
            Value::Closure(c) => c,
            Value::I32(_) => {
                proof {
                    assert(false);
                }
                Closure::Succ
            },
        }
    }
}

} // verus!
