//! The mathematical picture of a factor graph and the one edit that grows it.
use crate::node::{FactorNode, VariableNode};
use crate::payload::{Factor, Variable};
use vstd::prelude::*;

verus! {

/// The nodes of a factor graph, in insertion order.
pub struct GraphView<F: Factor, V: Variable<Message = F::Message>> {
    pub factors: Seq<FactorNode<F>>,
    pub variables: Seq<VariableNode<V>>,
}

pub open spec fn graph_view<F: Factor, V: Variable<Message = F::Message>>(
    factors: Seq<FactorNode<F>>,
    variables: Seq<VariableNode<V>>,
) -> GraphView<F, V> {
    GraphView { factors, variables }
}

impl<F: Factor, V: Variable<Message = F::Message>> GraphView<F, V> {
    pub open spec fn factor_degree(self, f: int) -> nat {
        self.factors[f].deg()
    }

    pub open spec fn variable_degree(self, v: int) -> nat {
        self.variables[v].deg()
    }

    /// The variable at the other end of factor `f`'s `k`-th edge.
    pub open spec fn var_of(self, f: int, k: int) -> int {
        self.factors[f].var_indices@[k] as int
    }

    /// The slot of factor `f`'s `k`-th edge among that variable's edges.
    pub open spec fn var_slot_of(self, f: int, k: int) -> int {
        self.factors[f].var_slots@[k] as int
    }

    /// The factor at the other end of variable `v`'s `j`-th edge.
    pub open spec fn fac_of(self, v: int, j: int) -> int {
        self.variables[v].fac_indices@[j] as int
    }

    /// The slot of variable `v`'s `j`-th edge among that factor's edges.
    pub open spec fn fac_slot_of(self, v: int, j: int) -> int {
        self.variables[v].fac_slots@[j] as int
    }

    /// Every node holds one incidence entry and two messages per edge.
    pub open spec fn shaped(self) -> bool {
        &&& forall|f: int| 0 <= f < self.factors.len() ==> #[trigger] self.factors[f].shaped()
        &&& forall|v: int| 0 <= v < self.variables.len() ==> #[trigger] self.variables[v].shaped()
    }

    /// Each factor edge names a variable slot that names it back.
    pub open spec fn factor_edges_linked(self) -> bool {
        forall|f: int, k: int|
            0 <= f < self.factors.len() && 0 <= k < self.factor_degree(f) ==> {
                let v = #[trigger] self.var_of(f, k);
                let j = self.var_slot_of(f, k);
                &&& 0 <= v < self.variables.len()
                &&& 0 <= j < self.variable_degree(v)
                &&& self.fac_of(v, j) == f
                &&& self.fac_slot_of(v, j) == k
            }
    }

    /// Each variable edge names a factor slot that names it back.
    pub open spec fn variable_edges_linked(self) -> bool {
        forall|v: int, j: int|
            0 <= v < self.variables.len() && 0 <= j < self.variable_degree(v) ==> {
                let f = #[trigger] self.fac_of(v, j);
                let k = self.fac_slot_of(v, j);
                &&& 0 <= f < self.factors.len()
                &&& 0 <= k < self.factor_degree(f)
                &&& self.var_of(f, k) == v
                &&& self.var_slot_of(f, k) == j
            }
    }

    /// The edge invariant: shapes agree and both sides of every edge
    /// point at each other.
    pub open spec fn wf(self) -> bool {
        &&& self.shaped()
        &&& self.factor_edges_linked()
        &&& self.variable_edges_linked()
    }

    /// The message that factor `f` last delivered along its `k`-th edge,
    /// as held in the variable's incoming slot.
    pub open spec fn factor_destination(self, f: int, k: int) -> F::Message {
        self.variables[self.var_of(f, k)].incoming@[self.var_slot_of(f, k)]
    }

    /// The message that variable `v` last delivered along its `j`-th edge,
    /// as held in the factor's incoming slot.
    pub open spec fn variable_destination(self, v: int, j: int) -> F::Message {
        self.factors[self.fac_of(v, j)].incoming@[self.fac_slot_of(v, j)]
    }

    /// Same nodes, payloads and incidences; messages may differ.
    pub open spec fn same_wiring(self, other: Self) -> bool {
        &&& self.factors.len() == other.factors.len()
        &&& self.variables.len() == other.variables.len()
        &&& forall|f: int|
            0 <= f < self.factors.len() ==> {
                &&& (#[trigger] self.factors[f]).factor == other.factors[f].factor
                &&& self.factors[f].var_indices@ == other.factors[f].var_indices@
                &&& self.factors[f].var_slots@ == other.factors[f].var_slots@
                &&& self.factors[f].deg() == other.factors[f].deg()
                &&& self.factors[f].outgoing.len() == other.factors[f].outgoing.len()
            }
        &&& forall|v: int|
            0 <= v < self.variables.len() ==> {
                &&& (#[trigger] self.variables[v]).variable == other.variables[v].variable
                &&& self.variables[v].fac_indices@ == other.variables[v].fac_indices@
                &&& self.variables[v].fac_slots@ == other.variables[v].fac_slots@
                &&& self.variables[v].deg() == other.variables[v].deg()
                &&& self.variables[v].outgoing.len() == other.variables[v].outgoing.len()
            }
    }
}

/// Message contents play no part in the edge invariant.
pub proof fn lemma_same_wiring_wf<F: Factor, V: Variable<Message = F::Message>>(
    a: GraphView<F, V>,
    b: GraphView<F, V>,
)
    requires
        a.wf(),
        a.same_wiring(b),
    ensures
        b.wf(),
{
    assert forall|f: int| 0 <= f < b.factors.len() implies #[trigger] b.factors[f].shaped() by {
        assert(a.factors[f].shaped());
    }
    assert forall|v: int| 0 <= v < b.variables.len() implies #[trigger] b.variables[v].shaped() by {
        assert(a.variables[v].shaped());
    }
    assert forall|f: int, k: int| 0 <= f < b.factors.len() && 0 <= k < b.factor_degree(f) implies {
        let v = #[trigger] b.var_of(f, k);
        let j = b.var_slot_of(f, k);
        &&& 0 <= v < b.variables.len()
        &&& 0 <= j < b.variable_degree(v)
        &&& b.fac_of(v, j) == f
        &&& b.fac_slot_of(v, j) == k
    } by {
        assert(a.factors[f] == a.factors[f]);
        assert(a.var_of(f, k) == b.var_of(f, k));
        let v = a.var_of(f, k);
        assert(a.variables[v] == a.variables[v]);
    }
    assert forall|v: int, j: int| 0 <= v < b.variables.len() && 0 <= j < b.variable_degree(v) implies {
        let f = #[trigger] b.fac_of(v, j);
        let k = b.fac_slot_of(v, j);
        &&& 0 <= f < b.factors.len()
        &&& 0 <= k < b.factor_degree(f)
        &&& b.var_of(f, k) == v
        &&& b.var_slot_of(f, k) == j
    } by {
        assert(a.variables[v] == a.variables[v]);
        assert(a.fac_of(v, j) == b.fac_of(v, j));
        let f = a.fac_of(v, j);
        assert(a.factors[f] == a.factors[f]);
    }
}

impl<F: Factor + Clone, V: Variable<Message = F::Message> + Clone> GraphView<F, V> {
    /// `other` holds the same incidences and messages as `self`, with
    /// every payload cloned.
    pub open spec fn copied_to(self, other: Self) -> bool {
        &&& self.factors.len() == other.factors.len()
        &&& self.variables.len() == other.variables.len()
        &&& forall|f: int|
            0 <= f < self.factors.len() ==> {
                &&& cloned((#[trigger] self.factors[f]).factor, other.factors[f].factor)
                &&& self.factors[f].var_indices@ == other.factors[f].var_indices@
                &&& self.factors[f].var_slots@ == other.factors[f].var_slots@
                &&& self.factors[f].outgoing@ == other.factors[f].outgoing@
                &&& self.factors[f].incoming@ == other.factors[f].incoming@
            }
        &&& forall|v: int|
            0 <= v < self.variables.len() ==> {
                &&& cloned((#[trigger] self.variables[v]).variable, other.variables[v].variable)
                &&& self.variables[v].fac_indices@ == other.variables[v].fac_indices@
                &&& self.variables[v].fac_slots@ == other.variables[v].fac_slots@
                &&& self.variables[v].outgoing@ == other.variables[v].outgoing@
                &&& self.variables[v].incoming@ == other.variables[v].incoming@
            }
    }
}

/// A copy keeps the edge invariant.
pub proof fn lemma_copied_wf<F: Factor + Clone, V: Variable<Message = F::Message> + Clone>(
    a: GraphView<F, V>,
    b: GraphView<F, V>,
)
    requires
        a.wf(),
        a.copied_to(b),
    ensures
        b.wf(),
{
    assert forall|f: int| 0 <= f < b.factors.len() implies #[trigger] b.factors[f].shaped() by {
        assert(a.factors[f].shaped());
    }
    assert forall|v: int| 0 <= v < b.variables.len() implies #[trigger] b.variables[v].shaped() by {
        assert(a.variables[v].shaped());
    }
    assert forall|f: int, k: int| 0 <= f < b.factors.len() && 0 <= k < b.factor_degree(f) implies {
        let v = #[trigger] b.var_of(f, k);
        let j = b.var_slot_of(f, k);
        &&& 0 <= v < b.variables.len()
        &&& 0 <= j < b.variable_degree(v)
        &&& b.fac_of(v, j) == f
        &&& b.fac_slot_of(v, j) == k
    } by {
        assert(a.factors[f] == a.factors[f]);
        assert(a.var_of(f, k) == b.var_of(f, k));
        let v = a.var_of(f, k);
        assert(a.variables[v] == a.variables[v]);
    }
    assert forall|v: int, j: int| 0 <= v < b.variables.len() && 0 <= j < b.variable_degree(v) implies {
        let f = #[trigger] b.fac_of(v, j);
        let k = b.fac_slot_of(v, j);
        &&& 0 <= f < b.factors.len()
        &&& 0 <= k < b.factor_degree(f)
        &&& b.var_of(f, k) == v
        &&& b.var_slot_of(f, k) == j
    } by {
        assert(a.variables[v] == a.variables[v]);
        assert(a.fac_of(v, j) == b.fac_of(v, j));
        let f = a.fac_of(v, j);
        assert(a.factors[f] == a.factors[f]);
    }
}

/// Unique incidence slots, factor side: two distinct factor edges deliver
/// into distinct variable slots, so no two factors write the same slot.
pub proof fn lemma_unique_factor_destinations<F: Factor, V: Variable<Message = F::Message>>(
    g: GraphView<F, V>,
    f1: int,
    k1: int,
    f2: int,
    k2: int,
)
    requires
        g.wf(),
        0 <= f1 < g.factors.len(),
        0 <= k1 < g.factor_degree(f1),
        0 <= f2 < g.factors.len(),
        0 <= k2 < g.factor_degree(f2),
        f1 != f2 || k1 != k2,
    ensures
        g.var_of(f1, k1) != g.var_of(f2, k2) || g.var_slot_of(f1, k1) != g.var_slot_of(f2, k2),
{
    assert(g.var_of(f1, k1) == g.var_of(f1, k1));
    assert(g.var_of(f2, k2) == g.var_of(f2, k2));
}

/// Unique incidence slots, variable side: two distinct variable edges
/// deliver into distinct factor slots, so no two variables write the same
/// slot.
pub proof fn lemma_unique_variable_destinations<F: Factor, V: Variable<Message = F::Message>>(
    g: GraphView<F, V>,
    v1: int,
    j1: int,
    v2: int,
    j2: int,
)
    requires
        g.wf(),
        0 <= v1 < g.variables.len(),
        0 <= j1 < g.variable_degree(v1),
        0 <= v2 < g.variables.len(),
        0 <= j2 < g.variable_degree(v2),
        v1 != v2 || j1 != j2,
    ensures
        g.fac_of(v1, j1) != g.fac_of(v2, j2) || g.fac_slot_of(v1, j1) != g.fac_slot_of(v2, j2),
{
    assert(g.fac_of(v1, j1) == g.fac_of(v1, j1));
    assert(g.fac_of(v2, j2) == g.fac_of(v2, j2));
}

/// Appends a factor node without edges.
pub(crate) fn push_factor<F: Factor, V: Variable<Message = F::Message>>(
    factors: &mut Vec<FactorNode<F>>,
    variables: &Vec<VariableNode<V>>,
    factor: F,
)
    requires
        graph_view(old(factors)@, variables@).wf(),
    ensures
        graph_view(final(factors)@, variables@).wf(),
        final(factors).len() == old(factors).len() + 1,
        final(factors)@.take(old(factors).len() as int) == old(factors)@,
        final(factors)[old(factors).len() as int].factor == factor,
        final(factors)[old(factors).len() as int].deg() == 0,
{
    let ghost g0 = graph_view(factors@, variables@);
    let n = factors.len();
    factors.push(FactorNode::new_disconnected(factor));
    let ghost g1 = graph_view(factors@, variables@);
    assert forall|f: int| 0 <= f < g1.factors.len() implies #[trigger] g1.factors[f].shaped() by {
        if f < n {
            assert(g0.factors[f].shaped());
        }
    }
    assert forall|v: int| 0 <= v < g1.variables.len() implies #[trigger] g1.variables[v].shaped() by {
        assert(g0.variables[v].shaped());
    }
    assert forall|v: int, j: int| 0 <= v < g1.variables.len() && 0 <= j < g1.variable_degree(v) implies {
        let f = #[trigger] g1.fac_of(v, j);
        let k = g1.fac_slot_of(v, j);
        &&& 0 <= f < g1.factors.len()
        &&& 0 <= k < g1.factor_degree(f)
        &&& g1.var_of(f, k) == v
        &&& g1.var_slot_of(f, k) == j
    } by {
        assert(g0.fac_of(v, j) == g1.fac_of(v, j));
        let f = g0.fac_of(v, j);
        assert(g0.factors[f] == g1.factors[f]);
    }
    assert forall|f: int, k: int| 0 <= f < g1.factors.len() && 0 <= k < g1.factor_degree(f) implies {
        let v = #[trigger] g1.var_of(f, k);
        let j = g1.var_slot_of(f, k);
        &&& 0 <= v < g1.variables.len()
        &&& 0 <= j < g1.variable_degree(v)
        &&& g1.fac_of(v, j) == f
        &&& g1.fac_slot_of(v, j) == k
    } by {
        if f < n {
            assert(g0.factors[f] == g1.factors[f]);
            assert(g0.var_of(f, k) == g1.var_of(f, k));
        }
    }
    assert(factors@.take(n as int) =~= g0.factors);
}

/// Connects factor `f` to variable `v` by a new edge, appended last on both
/// sides. `to_factor` is the message the factor starts out holding from the
/// variable and `to_variable` the one the variable holds from the factor.
pub(crate) fn push_edge<F: Factor, V: Variable<Message = F::Message>>(
    factors: &mut Vec<FactorNode<F>>,
    variables: &mut Vec<VariableNode<V>>,
    f: usize,
    v: usize,
    to_factor: F::Message,
    to_variable: F::Message,
)
    requires
        f < old(factors).len(),
        v < old(variables).len(),
        graph_view(old(factors)@, old(variables)@).wf(),
    ensures
        graph_view(final(factors)@, final(variables)@).wf(),
        final(factors).len() == old(factors).len(),
        final(variables).len() == old(variables).len(),
        forall|g: int| 0 <= g < old(factors).len() && g != f ==> final(factors)[g] == old(factors)[g],
        forall|u: int| 0 <= u < old(variables).len() && u != v ==> final(variables)[u] == old(variables)[u],
        final(factors)[f as int].factor == old(factors)[f as int].factor,
        final(factors)[f as int].var_indices@ == old(factors)[f as int].var_indices@.push(v),
        final(factors)[f as int].var_slots@ == old(factors)[f as int].var_slots@.push(
            old(variables)[v as int].deg() as usize,
        ),
        final(factors)[f as int].outgoing@ == old(factors)[f as int].outgoing@.push(to_variable),
        final(factors)[f as int].incoming@ == old(factors)[f as int].incoming@.push(to_factor),
        final(variables)[v as int].variable == old(variables)[v as int].variable,
        final(variables)[v as int].fac_indices@ == old(variables)[v as int].fac_indices@.push(f),
        final(variables)[v as int].fac_slots@ == old(variables)[v as int].fac_slots@.push(
            old(factors)[f as int].deg() as usize,
        ),
        final(variables)[v as int].outgoing@ == old(variables)[v as int].outgoing@.push(to_factor),
        final(variables)[v as int].incoming@ == old(variables)[v as int].incoming@.push(
            to_variable,
        ),
{
    let ghost g0 = graph_view(factors@, variables@);
    assert(g0.factors[f as int].shaped());
    assert(g0.variables[v as int].shaped());
    let k = factors[f].degree();
    let j = variables[v].degree();
    factors[f].var_indices.push(v);
    factors[f].var_slots.push(j);
    factors[f].outgoing.push(to_variable);
    factors[f].incoming.push(to_factor);
    variables[v].fac_indices.push(f);
    variables[v].fac_slots.push(k);
    variables[v].outgoing.push(to_factor);
    variables[v].incoming.push(to_variable);
    let ghost g1 = graph_view(factors@, variables@);
    assert(g1.shaped()) by {
        assert forall|h: int| 0 <= h < g1.factors.len() implies #[trigger] g1.factors[h].shaped() by {
            assert(g0.factors[h].shaped());
        }
        assert forall|u: int| 0 <= u < g1.variables.len() implies #[trigger] g1.variables[u].shaped() by {
            assert(g0.variables[u].shaped());
        }
    }
    assert(g1.factor_edges_linked()) by {
        assert forall|h: int, q: int| 0 <= h < g1.factors.len() && 0 <= q < g1.factor_degree(h) implies {
            let u = #[trigger] g1.var_of(h, q);
            let i = g1.var_slot_of(h, q);
            &&& 0 <= u < g1.variables.len()
            &&& 0 <= i < g1.variable_degree(u)
            &&& g1.fac_of(u, i) == h
            &&& g1.fac_slot_of(u, i) == q
        } by {
            if h == f && q == k {
            } else {
                assert(g0.factors[h].shaped());
                let u = g0.var_of(h, q);
                let i = g0.var_slot_of(h, q);
                assert(0 <= u < g0.variables.len());
                assert(g0.variables[u].shaped());
            }
        }
    }
    assert(g1.variable_edges_linked()) by {
        assert forall|u: int, i: int| 0 <= u < g1.variables.len() && 0 <= i < g1.variable_degree(u) implies {
            let h = #[trigger] g1.fac_of(u, i);
            let q = g1.fac_slot_of(u, i);
            &&& 0 <= h < g1.factors.len()
            &&& 0 <= q < g1.factor_degree(h)
            &&& g1.var_of(h, q) == u
            &&& g1.var_slot_of(h, q) == i
        } by {
            if u == v && i == j {
            } else {
                assert(g0.variables[u].shaped());
                let h = g0.fac_of(u, i);
                assert(0 <= h < g0.factors.len());
                assert(g0.factors[h].shaped());
            }
        }
    }
}

} // verus!
