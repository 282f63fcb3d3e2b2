//! Building terms in a heap and reading results out of it.
use vstd::prelude::*;
use crate::eval::{force_spec, lemma_force};
use crate::heap::{obj_ok, ptr_ok, Heap, HeapModel};
use crate::value::{Closure, EvalError, HeapObj, HeapPtr, Value};

verus! {

impl HeapPtr {
    /// Allocates the node `obj` and returns a handle on it.
    pub fn new(heap: &mut Heap, obj: HeapObj) -> (r: HeapPtr)
        requires
            old(heap)@.wf(),
            obj_ok(obj, old(heap)@),
        ensures
            r.index == old(heap)@.nodes.len(),
            final(heap)@ == old(heap)@.push_node(obj),
            final(heap)@.wf(),
    {
        heap.push_node(obj)
    }

    /// The node this handle points to.
    pub fn get(&self, heap: &Heap) -> (r: HeapObj)
        requires
            ptr_ok(*self, heap@.nodes.len()),
        ensures
            r == heap@.nodes[self.index as int],
    {
        heap.node(*self)
    }

    /// The value held by an evaluated node.
    pub fn expect_value(&self, heap: &Heap) -> (r: Value)
        requires
            ptr_ok(*self, heap@.nodes.len()),
            heap@.nodes[self.index as int] is Value,
        ensures
            heap@.nodes[self.index as int] == HeapObj::Value(r),
    {
        match heap.node(*self) {
            HeapObj::Value(v) => v,
            HeapObj::App(_, _) => {
                proof {
                    assert(false);
                }
                Value::I32(0)
            },
        }
    }
}

/// A closure node over the lambda body at code index `body`, with nothing
/// captured.
pub fn lambda(heap: &mut Heap, body: usize) -> (r: HeapPtr)
    requires
        old(heap)@.wf(),
        body < old(heap)@.code.len(),
    ensures
        r.index == old(heap)@.nodes.len(),
        final(heap)@ == old(heap)@.push_node(
            HeapObj::Value(Value::Closure(Closure::Lambda { body, env: None })),
        ),
        final(heap)@.wf(),
{
    HeapPtr::new(heap, HeapObj::Value(Value::Closure(Closure::Lambda { body, env: None })))
}

/// A node holding the successor primitive.
pub fn succ(heap: &mut Heap) -> (r: HeapPtr)
    requires
        old(heap)@.wf(),
    ensures
        r.index == old(heap)@.nodes.len(),
        final(heap)@ == old(heap)@.push_node(HeapObj::Value(Value::Closure(Closure::Succ))),
        final(heap)@.wf(),
{
    HeapPtr::new(heap, HeapObj::Value(Value::Closure(Closure::Succ)))
}

/// A node holding the integer `n`.
pub fn i32(heap: &mut Heap, n: i32) -> (r: HeapPtr)
    requires
        old(heap)@.wf(),
    ensures
        r.index == old(heap)@.nodes.len(),
        final(heap)@ == old(heap)@.push_node(HeapObj::Value(Value::I32(n))),
        final(heap)@.wf(),
{
    HeapPtr::new(heap, HeapObj::Value(Value::I32(n)))
}

/// An unevaluated application of `f` to `arg`.
pub fn ap(heap: &mut Heap, f: &HeapPtr, arg: &HeapPtr) -> (r: HeapPtr)
    requires
        old(heap)@.wf(),
        ptr_ok(*f, old(heap)@.nodes.len()),
        ptr_ok(*arg, old(heap)@.nodes.len()),
    ensures
        r.index == old(heap)@.nodes.len(),
        final(heap)@ == old(heap)@.push_node(HeapObj::App(*f, *arg)),
        final(heap)@.wf(),
{
    HeapPtr::new(heap, HeapObj::App(*f, *arg))
}

/// The integer that `ptr` evaluates to, given `fuel` nested steps: an
/// evaluation error is passed on, and a closure is a type mismatch.
pub open spec fn forced_i32(h: HeapModel, ptr: HeapPtr, fuel: nat) -> Result<i32, EvalError> {
    let (h1, r) = force_spec(h, ptr, fuel);
    match r {
        Err(e) => Err(e),
        Ok(()) => match h1.nodes[ptr.index as int] {
            HeapObj::Value(Value::I32(n)) => Ok(n),
            _ => Err(EvalError::TypeMismatch),
        },
    }
}

/// Forces `ptr` and reads the integer it evaluated to.
pub fn force_expect_i32(heap: &mut Heap, ptr: &HeapPtr, fuel: u64) -> (r: Result<i32, EvalError>)
    requires
        old(heap)@.wf(),
        ptr_ok(*ptr, old(heap)@.nodes.len()),
    ensures
        final(heap)@ == force_spec(old(heap)@, *ptr, fuel as nat).0,
        r == forced_i32(old(heap)@, *ptr, fuel as nat),
        final(heap)@.wf(),
{
    proof {
        lemma_force(heap@, *ptr, fuel as nat);
    }
    ptr.force(heap, fuel)?;
    match ptr.expect_value(heap) {
        Value::I32(n) => Ok(n),
        Value::Closure(_) => Err(EvalError::TypeMismatch),
    }
}

} // verus!
