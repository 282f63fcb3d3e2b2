//! Instantiating lambda bodies and forcing nodes: the call-by-need
//! evaluator with in-place memoization.
use vstd::prelude::*;
use crate::heap::{
    env_ok, lemma_count_succ_call, lemma_push_env, lemma_push_node, lemma_settle,
    obj_ok, ptr_ok, term_ok, Heap, HeapModel,
};
use crate::value::{Closure, EnvCell, EvalError, HeapObj, HeapPtr, Term, Value};

verus! {

/// Adds node `o` to `h` and hands back the new node.
pub open spec fn new_node(h: HeapModel, o: HeapObj) -> (HeapModel, Result<HeapPtr, EvalError>) {
    (h.push_node(o), Ok(HeapPtr { index: h.nodes.len() as usize }))
}

/// Builds the graph of the code at index `t` in environment `env`: a variable
/// is the node its environment binds (no new node), an integer or a lambda is
/// a new value node, and an application is a new, unevaluated application
/// node over the graphs of its two parts. (A well-formed code table only
/// refers to earlier entries, so the last branch is never taken there.)
pub open spec fn instantiate(h: HeapModel, t: nat, env: Option<usize>) -> (HeapModel, Result<
    HeapPtr,
    EvalError,
>)
    decreases t,
{
    match h.code[t as int] {
        Term::Var(i) => match h.lookup(env, i as nat) {
            Some(p) => (h, Ok(p)),
            None => (h, Err(EvalError::UnboundVariable)),
        },
        Term::Int(n) => new_node(h, HeapObj::Value(Value::I32(n))),
        Term::Lam(b) => new_node(h, HeapObj::Value(Value::Closure(Closure::Lambda { body: b, env }))),
        Term::App(f, a) => if f < t && a < t {
            let (h1, r1) = instantiate(h, f as nat, env);
            match r1 {
                Err(e) => (h1, Err(e)),
                Ok(pf) => {
                    let (h2, r2) = instantiate(h1, a as nat, env);
                    match r2 {
                        Err(e) => (h2, Err(e)),
                        Ok(pa) => new_node(h2, HeapObj::App(pf, pa)),
                    }
                },
            }
        } else {
            (h, Err(EvalError::UnboundVariable))
        },
    }
}

/// Instantiation only adds nodes, keeps the heap well formed, and returns a
/// node of the heap.
pub proof fn lemma_instantiate(h: HeapModel, t: nat, env: Option<usize>)
    requires
        h.wf(),
        t < h.code.len(),
        env_ok(env, h.envs.len()),
    ensures
        instantiate(h, t, env).0.wf(),
        h.grows_to(instantiate(h, t, env).0),
        instantiate(h, t, env).0.envs == h.envs,
        instantiate(h, t, env).0.succ_calls == h.succ_calls,
        instantiate(h, t, env).1 matches Ok(p) ==> ptr_ok(p, instantiate(h, t, env).0.nodes.len()),
    decreases t,
{
    let ti = t as int;
    assert(term_ok(h.code[ti], ti as nat));
    match h.code[t as int] {
        Term::Var(i) => {
            crate::heap::lemma_lookup_ok(h, env, i as nat);
        },
        Term::Int(n) => {
            lemma_push_node(h, HeapObj::Value(Value::I32(n)));
        },
        Term::Lam(b) => {
            lemma_push_node(h, HeapObj::Value(Value::Closure(Closure::Lambda { body: b, env })));
        },
        Term::App(f, a) => {
            lemma_instantiate(h, f as nat, env);
            let (h1, r1) = instantiate(h, f as nat, env);
            if let Ok(pf) = r1 {
                lemma_instantiate(h1, a as nat, env);
                let (h2, r2) = instantiate(h1, a as nat, env);
                if let Ok(pa) = r2 {
                    lemma_push_node(h2, HeapObj::App(pf, pa));
                }
            }
        },
    }
}

/// Call-by-need evaluation of node `p`, allowed `fuel` nested steps.
///
/// A value is left as it is. An application `App(f, a)` forces `f`, which
/// must give a closure, and applies it to the unforced `a`: a `Lambda`
/// instantiates its body in its environment extended by `a`, and the node so
/// built is forced; `Succ` forces `a`, which must give an integer, and its
/// successor is the value. The value is then written into `p` (see `settle`),
/// so every alias of `p` sees it.
pub open spec fn force_spec(h: HeapModel, p: HeapPtr, fuel: nat) -> (HeapModel, Result<(), EvalError>)
    decreases fuel,
{
    match h.nodes[p.index as int] {
        HeapObj::Value(_) => (h, Ok(())),
        HeapObj::App(f, a) => if fuel == 0 {
            (h, Err(EvalError::OutOfFuel))
        } else {
            let k = (fuel - 1) as nat;
            let (h1, r1) = force_spec(h, f, k);
            if r1 is Err {
                (h1, r1)
            } else {
                match h1.nodes[f.index as int] {
                    HeapObj::Value(Value::Closure(Closure::Lambda { body, env })) => {
                        let h2 = h1.push_env(EnvCell { head: a, tail: env });
                        let (h3, r3) = instantiate(h2, body as nat, Some(h1.envs.len() as usize));
                        match r3 {
                            Err(e) => (h3, Err(e)),
                            Ok(q) => {
                                let (h4, r4) = force_spec(h3, q, k);
                                if r4 is Err {
                                    (h4, r4)
                                } else {
                                    (h4.settle(p, h4.nodes[q.index as int]), Ok(()))
                                }
                            },
                        }
                    },
                    HeapObj::Value(Value::Closure(Closure::Succ)) => {
                        let (h2, r2) = force_spec(h1.count_succ_call(), a, k);
                        if r2 is Err {
                            (h2, r2)
                        } else {
                            match h2.nodes[a.index as int] {
                                HeapObj::Value(Value::I32(n)) => if n == i32::MAX {
                                    (h2, Err(EvalError::Overflow))
                                } else {
                                    (h2.settle(p, HeapObj::Value(Value::I32((n + 1) as i32))), Ok(()))
                                },
                                _ => (h2, Err(EvalError::TypeMismatch)),
                            }
                        }
                    },
                    _ => (h1, Err(EvalError::TypeMismatch)),
                }
            }
        },
    }
}

/// Forcing keeps the heap well formed, only adds nodes and evaluates
/// applications, leaves an evaluated node untouched, and when it succeeds
/// leaves a value in the node it forced.
pub proof fn lemma_force(h: HeapModel, p: HeapPtr, fuel: nat)
    requires
        h.wf(),
        ptr_ok(p, h.nodes.len()),
    ensures
        force_spec(h, p, fuel).0.wf(),
        h.grows_to(force_spec(h, p, fuel).0),
        force_spec(h, p, fuel).1 is Ok ==> force_spec(h, p, fuel).0.nodes[p.index as int] is Value,
        h.nodes[p.index as int] is Value ==> force_spec(h, p, fuel) == (h, Ok::<(), EvalError>(())),
    decreases fuel,
{
    let pi = p.index as int;
    assert(obj_ok(h.nodes[pi], h));
    if let HeapObj::App(f, a) = h.nodes[pi] {
        if fuel > 0 {
            let k = (fuel - 1) as nat;
            lemma_force(h, f, k);
            let (h1, r1) = force_spec(h, f, k);
            if r1 is Ok {
                let fi = f.index as int;
                assert(obj_ok(h1.nodes[fi], h1));
                match h1.nodes[fi] {
                    HeapObj::Value(Value::Closure(Closure::Lambda { body, env })) => {
                        let c = EnvCell { head: a, tail: env };
                        lemma_push_env(h1, c);
                        let h2 = h1.push_env(c);
                        lemma_instantiate(h2, body as nat, Some(h1.envs.len() as usize));
                        let (h3, r3) = instantiate(h2, body as nat, Some(h1.envs.len() as usize));
                        if let Ok(q) = r3 {
                            lemma_force(h3, q, k);
                            let (h4, r4) = force_spec(h3, q, k);
                            if r4 is Ok {
                                let v = h4.nodes[q.index as int];
                                assert(obj_ok(v, h4));
                                lemma_settle(h4, p, v);
                                crate::heap::lemma_grows_trans(h, h1, h2);
                                crate::heap::lemma_grows_trans(h, h2, h3);
                                crate::heap::lemma_grows_trans(h, h3, h4);
                                crate::heap::lemma_grows_trans(h, h4, h4.settle(p, v));
                            } else {
                                crate::heap::lemma_grows_trans(h, h1, h2);
                                crate::heap::lemma_grows_trans(h, h2, h3);
                                crate::heap::lemma_grows_trans(h, h3, h4);
                            }
                        } else {
                            crate::heap::lemma_grows_trans(h, h1, h2);
                            crate::heap::lemma_grows_trans(h, h2, h3);
                        }
                    },
                    HeapObj::Value(Value::Closure(Closure::Succ)) => {
                        lemma_count_succ_call(h1);
                        let h1c = h1.count_succ_call();
                        lemma_force(h1c, a, k);
                        let (h2, r2) = force_spec(h1c, a, k);
                        crate::heap::lemma_grows_trans(h, h1, h1c);
                        crate::heap::lemma_grows_trans(h, h1c, h2);
                        if r2 is Ok {
                            if let HeapObj::Value(Value::I32(n)) = h2.nodes[a.index as int] {
                                if n != i32::MAX {
                                    let o = HeapObj::Value(Value::I32((n + 1) as i32));
                                    lemma_settle(h2, p, o);
                                    crate::heap::lemma_grows_trans(h, h2, h2.settle(p, o));
                                }
                            }
                        }
                    },
                    _ => {},
                }
            }
        }
    }
}

impl Heap {
    /// Builds the graph of the code at index `t` in environment `env`.
    pub(crate) fn instantiate(&mut self, t: usize, env: Option<usize>) -> (r: Result<HeapPtr, EvalError>)
        requires
            old(self)@.wf(),
            t < old(self)@.code.len(),
            env_ok(env, old(self)@.envs.len()),
        ensures
            (final(self)@, r) == instantiate(old(self)@, t as nat, env),
            final(self)@.wf(),
            old(self)@.grows_to(final(self)@),
            final(self)@.envs == old(self)@.envs,
            r matches Ok(p) ==> ptr_ok(p, final(self)@.nodes.len()),
        decreases t,
    {
        proof {
            lemma_instantiate(self@, t as nat, env);
            let ti = t as int;
            assert(term_ok(self@.code[ti], ti as nat));
        }
        match self.term(t) {
            Term::Var(i) => match self.lookup(env, i) {
                Some(p) => Ok(p),
                None => Err(EvalError::UnboundVariable),
            },
            Term::Int(n) => Ok(self.push_node(HeapObj::Value(Value::I32(n)))),
            Term::Lam(b) => Ok(self.push_node(HeapObj::Value(Value::Closure(Closure::Lambda { body: b, env })))),
            Term::App(f, a) => {
                if f < t && a < t {
                    let pf = match self.instantiate(f, env) {
                        Ok(pf) => pf,
                        Err(e) => {
                            return Err(e);
                        },
                    };
                    let pa = match self.instantiate(a, env) {
                        Ok(pa) => pa,
                        Err(e) => {
                            return Err(e);
                        },
                    };
                    Ok(self.push_node(HeapObj::App(pf, pa)))
                } else {
                    Err(EvalError::UnboundVariable)
                }
            },
        }
    }
}

impl HeapPtr {
    /// Evaluates the node this handle points to, call by need, with at most
    /// `fuel` nested steps, and memoizes the value in place.
    pub fn force(&self, heap: &mut Heap, fuel: u64) -> (r: Result<(), EvalError>)
        requires
            old(heap)@.wf(),
            ptr_ok(*self, old(heap)@.nodes.len()),
        ensures
            (final(heap)@, r) == force_spec(old(heap)@, *self, fuel as nat),
            final(heap)@.wf(),
            old(heap)@.grows_to(final(heap)@),
            r is Ok ==> final(heap)@.nodes[self.index as int] is Value,
            old(heap)@.nodes[self.index as int] is Value ==> final(heap)@ == old(heap)@ && r is Ok,
        decreases fuel,
    {
        proof {
            lemma_force(heap@, *self, fuel as nat);
            assert(obj_ok(heap@.nodes[self.index as int], heap@));
        }
        let (f, a) = match heap.node(*self) {
            HeapObj::Value(_) => {
                return Ok(());
            },
            HeapObj::App(f, a) => (f, a),
        };
        if fuel == 0 {
            return Err(EvalError::OutOfFuel);
        }
        let k = fuel - 1;
        match f.force(heap, k) {
            Ok(()) => {},
            Err(e) => {
                return Err(e);
            },
        }
        proof {
            assert(obj_ok(heap@.nodes[f.index as int], heap@));
        }
        match heap.node(f) {
            HeapObj::Value(Value::Closure(Closure::Lambda { body, env })) => {
                let e = heap.push_env(EnvCell { head: a, tail: env });
                let q = match heap.instantiate(body, Some(e)) {
                    Ok(q) => q,
                    Err(e) => {
                        return Err(e);
                    },
                };
                match q.force(heap, k) {
                    Ok(()) => {},
                    Err(e) => {
                        return Err(e);
                    },
                }
                proof {
                    assert(obj_ok(heap@.nodes[q.index as int], heap@));
                }
                let v = heap.node(q);
                heap.settle(*self, v);
                Ok(())
            },
            HeapObj::Value(Value::Closure(Closure::Succ)) => {
                heap.count_succ_call();
                match a.force(heap, k) {
                    Ok(()) => {},
                    Err(e) => {
                        return Err(e);
                    },
                }
                match heap.node(a) {
                    HeapObj::Value(Value::I32(n)) => {
                        if n == i32::MAX {
                            return Err(EvalError::Overflow);
                        }
                        heap.settle(*self, HeapObj::Value(Value::I32(n + 1)));
                        Ok(())
                    },
                    _ => Err(EvalError::TypeMismatch),
                }
            },
            _ => Err(EvalError::TypeMismatch),
        }
    }
}

} // verus!
