//! The arena that holds every node, environment cell and lambda body, with
//! the operations that only add to it.
use vstd::prelude::*;
use crate::value::{Closure, EnvCell, HeapObj, HeapPtr, Term, Value};

verus! {

/// What a heap holds, as sequences.
pub struct HeapModel {
    pub nodes: Seq<HeapObj>,
    pub envs: Seq<EnvCell>,
    pub code: Seq<Term>,
    /// How many times the successor primitive has been invoked (saturating).
    pub succ_calls: u64,
}

/// The arena. Nodes, environment cells and code are addressed by index and
/// never removed; only evaluation overwrites a node, and only an application.
pub struct Heap {
    nodes: Vec<HeapObj>,
    envs: Vec<EnvCell>,
    code: Vec<Term>,
    succ_calls: u64,
}

impl View for Heap {
    type V = HeapModel;

    closed spec fn view(&self) -> HeapModel {
        HeapModel {
            nodes: self.nodes@,
            envs: self.envs@,
            code: self.code@,
            succ_calls: self.succ_calls,
        }
    }
}

/// `p` points to one of the first `n_nodes` nodes.
pub open spec fn ptr_ok(p: HeapPtr, n_nodes: nat) -> bool {
    p.index < n_nodes
}

/// `e` is the empty environment or one of the first `n_envs` cells.
pub open spec fn env_ok(e: Option<usize>, n_envs: nat) -> bool {
    match e {
        Some(i) => i < n_envs,
        None => true,
    }
}

/// Every index that a node holds points into the heap.
pub open spec fn obj_ok(o: HeapObj, h: HeapModel) -> bool {
    match o {
        HeapObj::App(f, a) => ptr_ok(f, h.nodes.len()) && ptr_ok(a, h.nodes.len()),
        HeapObj::Value(Value::I32(_)) => true,
        HeapObj::Value(Value::Closure(Closure::Succ)) => true,
        HeapObj::Value(Value::Closure(Closure::Lambda { body, env })) => body < h.code.len()
            && env_ok(env, h.envs.len()),
    }
}

/// A term refers only to code entries before its own index `t`.
pub open spec fn term_ok(term: Term, t: nat) -> bool {
    match term {
        Term::Lam(b) => b < t,
        Term::App(f, a) => f < t && a < t,
        _ => true,
    }
}

/// An environment cell points into the heap.
pub open spec fn cell_ok(c: EnvCell, h: HeapModel) -> bool {
    ptr_ok(c.head, h.nodes.len()) && env_ok(c.tail, h.envs.len())
}

impl HeapModel {
    /// Every index held anywhere in the heap points into it.
    pub open spec fn wf(self) -> bool {
        &&& forall|i: int| 0 <= i < self.nodes.len() ==> #[trigger] obj_ok(self.nodes[i], self)
        &&& forall|i: int| 0 <= i < self.envs.len() ==> #[trigger] cell_ok(self.envs[i], self)
        &&& forall|i: int| 0 <= i < self.code.len() ==> #[trigger] term_ok(self.code[i], i as nat)
    }

    /// `self` became `h2` by adding entries and by overwriting applications:
    /// code is unchanged and an evaluated node stays as it was.
    pub open spec fn grows_to(self, h2: HeapModel) -> bool {
        &&& self.nodes.len() <= h2.nodes.len()
        &&& self.envs.len() <= h2.envs.len()
        &&& h2.code == self.code
        &&& forall|i: int|
            0 <= i < self.nodes.len() && (#[trigger] self.nodes[i]) is Value ==> h2.nodes[i]
                == self.nodes[i]
    }

    /// `self` with the node `o` added at the end.
    pub open spec fn push_node(self, o: HeapObj) -> HeapModel {
        HeapModel { nodes: self.nodes.push(o), ..self }
    }

    /// `self` with the environment cell `c` added at the end.
    pub open spec fn push_env(self, c: EnvCell) -> HeapModel {
        HeapModel { envs: self.envs.push(c), ..self }
    }

    /// `self` with node `p` replaced by `o`.
    pub open spec fn overwrite(self, p: HeapPtr, o: HeapObj) -> HeapModel {
        HeapModel { nodes: self.nodes.update(p.index as int, o), ..self }
    }

    /// `self` with one more invocation of the successor primitive counted.
    pub open spec fn count_succ_call(self) -> HeapModel {
        HeapModel {
            succ_calls: if self.succ_calls < u64::MAX {
                (self.succ_calls + 1) as u64
            } else {
                self.succ_calls
            },
            ..self
        }
    }

    /// Memoizes the value `o` into `p`. An evaluated node is terminal, so
    /// `p` is left alone if it holds a value already.
    pub open spec fn settle(self, p: HeapPtr, o: HeapObj) -> HeapModel {
        if self.nodes[p.index as int] is App {
            self.overwrite(p, o)
        } else {
            self
        }
    }

    /// The node that `i` variables out from environment `env` is bound to.
    pub open spec fn lookup(self, env: Option<usize>, i: nat) -> Option<HeapPtr>
        decreases i,
    {
        match env {
            None => None,
            Some(e) => if e < self.envs.len() {
                if i == 0 {
                    Some(self.envs[e as int].head)
                } else {
                    self.lookup(self.envs[e as int].tail, (i - 1) as nat)
                }
            } else {
                None
            },
        }
    }
}

/// Growth is transitive.
pub proof fn lemma_grows_trans(h1: HeapModel, h2: HeapModel, h3: HeapModel)
    requires
        h1.grows_to(h2),
        h2.grows_to(h3),
    ensures
        h1.grows_to(h3),
{
}

/// In a well-formed heap every node that a lookup finds is in the heap.
pub proof fn lemma_lookup_ok(h: HeapModel, env: Option<usize>, i: nat)
    requires
        h.wf(),
        env_ok(env, h.envs.len()),
    ensures
        h.lookup(env, i) matches Some(p) ==> ptr_ok(p, h.nodes.len()),
    decreases i,
{
    if let Some(e) = env {
        if i > 0 {
            assert(cell_ok(h.envs[e as int], h));
            lemma_lookup_ok(h, h.envs[e as int].tail, (i - 1) as nat);
        } else {
            assert(cell_ok(h.envs[e as int], h));
        }
    }
}

/// Adding a node keeps the heap well formed, and the new index is in it.
pub proof fn lemma_push_node(h: HeapModel, o: HeapObj)
    requires
        h.wf(),
        obj_ok(o, h),
    ensures
        h.push_node(o).wf(),
        h.grows_to(h.push_node(o)),
        ptr_ok(HeapPtr { index: h.nodes.len() as usize }, h.push_node(o).nodes.len()),
{
    let h2 = h.push_node(o);
    assert forall|i: int| 0 <= i < h2.nodes.len() implies #[trigger] obj_ok(h2.nodes[i], h2) by {
        if i < h.nodes.len() {
            assert(obj_ok(h.nodes[i], h));
        }
    }
    assert forall|i: int| 0 <= i < h2.envs.len() implies #[trigger] cell_ok(h2.envs[i], h2) by {
        assert(cell_ok(h.envs[i], h));
    }
    assert forall|i: int| 0 <= i < h2.code.len() implies #[trigger] term_ok(h2.code[i], i as nat) by {
        assert(term_ok(h.code[i], i as nat));
    }
}

/// Adding an environment cell keeps the heap well formed.
pub proof fn lemma_push_env(h: HeapModel, c: EnvCell)
    requires
        h.wf(),
        cell_ok(c, h),
    ensures
        h.push_env(c).wf(),
        h.grows_to(h.push_env(c)),
        env_ok(Some(h.envs.len() as usize), h.push_env(c).envs.len()),
{
    let h2 = h.push_env(c);
    assert forall|i: int| 0 <= i < h2.nodes.len() implies #[trigger] obj_ok(h2.nodes[i], h2) by {
        assert(obj_ok(h.nodes[i], h));
    }
    assert forall|i: int| 0 <= i < h2.envs.len() implies #[trigger] cell_ok(h2.envs[i], h2) by {
        if i < h.envs.len() {
            assert(cell_ok(h.envs[i], h));
        }
    }
    assert forall|i: int| 0 <= i < h2.code.len() implies #[trigger] term_ok(h2.code[i], i as nat) by {
        assert(term_ok(h.code[i], i as nat));
    }
}

/// Counting a primitive invocation keeps the heap well formed.
pub proof fn lemma_count_succ_call(h: HeapModel)
    requires
        h.wf(),
    ensures
        h.count_succ_call().wf(),
        h.grows_to(h.count_succ_call()),
{
    let h2 = h.count_succ_call();
    assert forall|i: int| 0 <= i < h2.nodes.len() implies #[trigger] obj_ok(h2.nodes[i], h2) by {
        assert(obj_ok(h.nodes[i], h));
    }
    assert forall|i: int| 0 <= i < h2.envs.len() implies #[trigger] cell_ok(h2.envs[i], h2) by {
        assert(cell_ok(h.envs[i], h));
    }
}

/// Memoizing a value keeps the heap well formed and leaves `p` evaluated.
pub proof fn lemma_settle(h: HeapModel, p: HeapPtr, o: HeapObj)
    requires
        h.wf(),
        ptr_ok(p, h.nodes.len()),
        obj_ok(o, h),
        o is Value,
    ensures
        h.settle(p, o).wf(),
        h.grows_to(h.settle(p, o)),
        h.settle(p, o).nodes[p.index as int] is Value,
{
    let h2 = h.settle(p, o);
    assert(obj_ok(h.nodes[p.index as int], h));
    assert forall|i: int| 0 <= i < h2.nodes.len() implies #[trigger] obj_ok(h2.nodes[i], h2) by {
        assert(obj_ok(h.nodes[i], h));
    }
    assert forall|i: int| 0 <= i < h2.envs.len() implies #[trigger] cell_ok(h2.envs[i], h2) by {
        assert(cell_ok(h.envs[i], h));
    }
}

impl Heap {
    /// An empty heap.
    pub fn new() -> (r: Heap)
        ensures
            r@.nodes.len() == 0,
            r@.envs.len() == 0,
            r@.code.len() == 0,
            r@.succ_calls == 0,
            r@.wf(),
    {
        Heap { nodes: Vec::new(), envs: Vec::new(), code: Vec::new(), succ_calls: 0 }
    }

    /// How many times the successor primitive has been invoked.
    pub fn succ_calls(&self) -> (r: u64)
        ensures
            r == self@.succ_calls,
    {
        self.succ_calls
    }

    /// Adds `t` to the code table and returns its index.
    pub fn add_term(&mut self, t: Term) -> (r: usize)
        requires
            old(self)@.wf(),
            term_ok(t, old(self)@.code.len()),
        ensures
            r == old(self)@.code.len(),
            final(self)@ == (HeapModel { code: old(self)@.code.push(t), ..old(self)@ }),
            final(self)@.wf(),
    {
        let r = self.code.len();
        self.code.push(t);
        proof {
            let h = self@;
            assert forall|i: int| 0 <= i < h.nodes.len() implies #[trigger] obj_ok(h.nodes[i], h) by {
                assert(obj_ok(old(self)@.nodes[i], old(self)@));
            }
            assert forall|i: int| 0 <= i < h.envs.len() implies #[trigger] cell_ok(h.envs[i], h) by {
                assert(cell_ok(old(self)@.envs[i], old(self)@));
            }
            assert forall|i: int| 0 <= i < h.code.len() implies #[trigger] term_ok(h.code[i], i as nat) by {
                if i < r {
                    assert(term_ok(old(self)@.code[i], i as nat));
                }
            }
        }
        r
    }

    /// The node that `p` points to.
    pub(crate) fn node(&self, p: HeapPtr) -> (r: HeapObj)
        requires
            ptr_ok(p, self@.nodes.len()),
        ensures
            r == self@.nodes[p.index as int],
    {
        self.nodes[p.index]
    }

    /// The code entry at index `t`.
    pub(crate) fn term(&self, t: usize) -> (r: Term)
        requires
            t < self@.code.len(),
        ensures
            r == self@.code[t as int],
    {
        self.code[t]
    }

    /// The node that `i` variables out from environment `env` is bound to.
    pub(crate) fn lookup(&self, env: Option<usize>, i: usize) -> (r: Option<HeapPtr>)
        ensures
            r == self@.lookup(env, i as nat),
    {
        let mut cur = env;
        let mut k = i;
        loop
            invariant
                self@.lookup(cur, k as nat) == self@.lookup(env, i as nat),
            decreases k,
        {
            match cur {
                None => {
                    return None;
                },
                Some(e) => {
                    if e >= self.envs.len() {
                        return None;
                    }
                    if k == 0 {
                        return Some(self.envs[e].head);
                    }
                    cur = self.envs[e].tail;
                    k = k - 1;
                },
            }
        }
    }

    /// Adds the environment cell `c` and returns its index.
    pub(crate) fn push_env(&mut self, c: EnvCell) -> (r: usize)
        requires
            old(self)@.wf(),
            cell_ok(c, old(self)@),
        ensures
            r == old(self)@.envs.len(),
            final(self)@ == old(self)@.push_env(c),
            final(self)@.wf(),
            old(self)@.grows_to(final(self)@),
    {
        proof {
            lemma_push_env(self@, c);
        }
        let r = self.envs.len();
        self.envs.push(c);
        proof {
            assert(self@ == old(self)@.push_env(c));
        }
        r
    }

    /// Counts one invocation of the successor primitive.
    pub(crate) fn count_succ_call(&mut self)
        requires
            old(self)@.wf(),
        ensures
            final(self)@ == old(self)@.count_succ_call(),
            final(self)@.wf(),
            old(self)@.grows_to(final(self)@),
    {
        proof {
            lemma_count_succ_call(self@);
        }
        if self.succ_calls < u64::MAX {
            self.succ_calls = self.succ_calls + 1;
        }
    }

    /// Memoizes the value `o` into `p`, unless `p` is evaluated already.
    pub(crate) fn settle(&mut self, p: HeapPtr, o: HeapObj)
        requires
            old(self)@.wf(),
            ptr_ok(p, old(self)@.nodes.len()),
            obj_ok(o, old(self)@),
            o is Value,
        ensures
            final(self)@ == old(self)@.settle(p, o),
            final(self)@.wf(),
            old(self)@.grows_to(final(self)@),
            final(self)@.nodes[p.index as int] is Value,
    {
        proof {
            lemma_settle(self@, p, o);
        }
        if let HeapObj::App(_, _) = self.nodes[p.index] {
            self.nodes.set(p.index, o);
        }
        proof {
            assert(self@ == old(self)@.settle(p, o));
        }
    }

    /// Adds the node `o` and returns a handle on it.
    pub(crate) fn push_node(&mut self, o: HeapObj) -> (r: HeapPtr)
        requires
            old(self)@.wf(),
            obj_ok(o, old(self)@),
        ensures
            r.index == old(self)@.nodes.len(),
            final(self)@ == old(self)@.push_node(o),
            final(self)@.wf(),
            old(self)@.grows_to(final(self)@),
    {
        proof {
            lemma_push_node(self@, o);
        }
        let r = HeapPtr { index: self.nodes.len() };
        self.nodes.push(o);
        proof {
            assert(self@ == old(self)@.push_node(o));
        }
        r
    }
}

} // verus!
