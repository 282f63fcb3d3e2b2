//! Properties of evaluation that hold for every heap and every node.
use vstd::prelude::*;
use crate::eval::{force_spec, lemma_force};
use crate::heap::{ptr_ok, HeapModel};
use crate::value::{EvalError, HeapObj, HeapPtr, Value};

verus! {

/// Forcing is idempotent: once a node has been forced successfully, forcing
/// it again, with any fuel, succeeds and changes nothing, not even the count
/// of primitive invocations.
pub proof fn lemma_force_idempotent(h: HeapModel, p: HeapPtr, fuel1: nat, fuel2: nat)
    requires
        h.wf(),
        ptr_ok(p, h.nodes.len()),
        force_spec(h, p, fuel1).1 is Ok,
    ensures
        force_spec(force_spec(h, p, fuel1).0, p, fuel2) == (force_spec(h, p, fuel1).0, Ok::<
            (),
            EvalError,
        >(())),
{
    lemma_force(h, p, fuel1);
    let h1 = force_spec(h, p, fuel1).0;
    lemma_force(h1, p, fuel2);
}

/// Memoization is shared by every alias: forcing any node changes no node
/// that was already evaluated, and leaves the forced node evaluated when it
/// succeeds, so a handle equal to `p` reads the memoized value afterwards.
pub proof fn lemma_force_memoizes(h: HeapModel, p: HeapPtr, fuel: nat, q: HeapPtr)
    requires
        h.wf(),
        ptr_ok(p, h.nodes.len()),
        ptr_ok(q, h.nodes.len()),
    ensures
        h.nodes[q.index as int] is Value ==> force_spec(h, p, fuel).0.nodes[q.index as int]
            == h.nodes[q.index as int],
        force_spec(h, p, fuel).1 is Ok && q == p ==> force_spec(h, p, fuel).0.nodes[q.index as int] is Value,
{
    lemma_force(h, p, fuel);
}

/// Applying an integer is a type error: forcing an application whose function
/// part is an integer fails with `TypeMismatch` and changes nothing.
pub proof fn lemma_apply_integer_fails(h: HeapModel, p: HeapPtr, f: HeapPtr, arg: HeapPtr, n: i32, fuel: nat)
    requires
        h.wf(),
        ptr_ok(p, h.nodes.len()),
        h.nodes[p.index as int] == HeapObj::App(f, arg),
        h.nodes[f.index as int] == HeapObj::Value(Value::I32(n)),
        fuel > 0,
    ensures
        force_spec(h, p, fuel) == (h, Err::<(), EvalError>(EvalError::TypeMismatch)),
{
    assert(force_spec(h, f, (fuel - 1) as nat) == (h, Ok::<(), EvalError>(())));
}

} // verus!
