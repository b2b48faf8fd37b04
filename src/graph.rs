//! A built factor graph.
use crate::error::{FGError, FGResult};
use crate::node::{FactorNode, VariableNode};
use crate::payload::{Factor, Message, Variable};
use crate::topology::{graph_view, lemma_copied_wf, lemma_same_wiring_wf, push_edge, push_factor, GraphView};
use vstd::prelude::*;

verus! {

/// A factor graph whose wiring satisfies the edge invariant.
pub struct FactorGraph<F: Factor, V: Variable<Message = F::Message>> {
    factors: Vec<FactorNode<F>>,
    variables: Vec<VariableNode<V>>,
}

impl<F: Factor, V: Variable<Message = F::Message>> View for FactorGraph<F, V> {
    type V = GraphView<F, V>;

    closed spec fn view(&self) -> GraphView<F, V> {
        graph_view(self.factors@, self.variables@)
    }
}

/// The discrepancy scalar of the graph's messages.
pub type DiscrepancyOf<F> = <<F as Factor>::Message as Message>::Discrepancy;

impl<F: Factor, V: Variable<Message = F::Message>> FactorGraph<F, V> {
    pub open spec fn wf(&self) -> bool {
        self@.wf()
    }

    pub(crate) fn from_parts(factors: Vec<FactorNode<F>>, variables: Vec<VariableNode<V>>) -> (r: Self)
        requires
            graph_view(factors@, variables@).wf(),
        ensures
            r@ == graph_view(factors@, variables@),
            r.wf(),
    {
        FactorGraph { factors, variables }
    }

    pub fn factors_number(&self) -> (r: usize)
        ensures
            r == self@.factors.len(),
    {
        self.factors.len()
    }

    pub fn variables_number(&self) -> (r: usize)
        ensures
            r == self@.variables.len(),
    {
        self.variables.len()
    }

    /// The factor node at index `f`.
    pub fn factor_node(&self, f: usize) -> (r: &FactorNode<F>)
        requires
            f < self@.factors.len(),
        ensures
            *r == self@.factors[f as int],
    {
        &self.factors[f]
    }

    /// The variable node at index `v`.
    pub fn variable_node(&self, v: usize) -> (r: &VariableNode<V>)
        requires
            v < self@.variables.len(),
        ensures
            *r == self@.variables[v as int],
    {
        &self.variables[v]
    }

    /// Degree (number of adjacent factors) of each variable, in order.
    pub fn get_variable_degrees(&self) -> (r: Vec<usize>)
        ensures
            r@.len() == self@.variables.len(),
            forall|v: int| 0 <= v < r@.len() ==> #[trigger] r@[v] == self@.variable_degree(v),
    {
        let mut r: Vec<usize> = Vec::with_capacity(self.variables.len());
        let mut v: usize = 0;
        while v < self.variables.len()
            invariant
                v <= self@.variables.len(),
                r@.len() == v,
                forall|u: int| 0 <= u < v ==> #[trigger] r@[u] == self@.variable_degree(u),
            decreases self@.variables.len() - v,
        {
            r.push(self.variables[v].degree());
            v = v + 1;
        }
        r
    }

    /// Degree (number of adjacent variables) of each factor, in insertion
    /// order.
    pub fn get_factor_degrees(&self) -> (r: Vec<usize>)
        ensures
            r@.len() == self@.factors.len(),
            forall|f: int| 0 <= f < r@.len() ==> #[trigger] r@[f] == self@.factor_degree(f),
    {
        let mut r: Vec<usize> = Vec::with_capacity(self.factors.len());
        let mut f: usize = 0;
        while f < self.factors.len()
            invariant
                f <= self@.factors.len(),
                r@.len() == f,
                forall|g: int| 0 <= g < f ==> #[trigger] r@[g] == self@.factor_degree(g),
            decreases self@.factors.len() - f,
        {
            r.push(self.factors[f].degree());
            f = f + 1;
        }
        r
    }

    /// The message currently held in the variable slot that factor `f`'s
    /// `k`-th edge delivers to.
    pub fn factor_destination(&self, f: usize, k: usize) -> (r: F::Message)
        requires
            self.wf(),
            f < self@.factors.len(),
            k < self@.factor_degree(f as int),
        ensures
            r == self@.factor_destination(f as int, k as int),
    {
        assert(self@.factors[f as int].shaped());
        let v = self.factors[f].var_indices[k];
        let j = self.factors[f].var_slots[k];
        assert(self@.var_of(f as int, k as int) == v as int);
        assert(self@.variables[v as int].shaped());
        self.variables[v].incoming[j]
    }

    /// The message currently held in the factor slot that variable `v`'s
    /// `j`-th edge delivers to.
    pub fn variable_destination(&self, v: usize, j: usize) -> (r: F::Message)
        requires
            self.wf(),
            v < self@.variables.len(),
            j < self@.variable_degree(v as int),
        ensures
            r == self@.variable_destination(v as int, j as int),
    {
        assert(self@.variables[v as int].shaped());
        let f = self.variables[v].fac_indices[j];
        let k = self.variables[v].fac_slots[j];
        assert(self@.fac_of(v as int, j as int) == f as int);
        assert(self@.factors[f as int].shaped());
        self.factors[f].incoming[k]
    }
    /// Whether `new` is `old` with variable `v` clamped: one more factor
    /// with a single edge to `v`, appended after `v`'s existing edges, and
    /// one clamp message held in all four slots of that edge.
    pub open spec fn frozen(old: GraphView<F, V>, new: GraphView<F, V>, v: int) -> bool {
        let n = old.factors.len() as int;
        let d = old.variable_degree(v);
        let message = new.factors[n].incoming@[0];
        &&& new.factors.len() == n + 1
        &&& new.factors.take(n) == old.factors
        &&& new.factors[n].var_indices@ == seq![v as usize]
        &&& new.factors[n].var_slots@ == seq![d as usize]
        &&& new.factors[n].outgoing@ == seq![message]
        &&& new.factors[n].incoming@ == seq![message]
        &&& new.variables.len() == old.variables.len()
        &&& forall|u: int| 0 <= u < old.variables.len() && u != v ==> #[trigger] new.variables[u] == old.variables[u]
        &&& new.variables[v].variable == old.variables[v].variable
        &&& new.variables[v].fac_indices@ == old.variables[v].fac_indices@.push(n as usize)
        &&& new.variables[v].fac_slots@ == old.variables[v].fac_slots@.push(0)
        &&& new.variables[v].outgoing@ == old.variables[v].outgoing@.push(message)
        &&& new.variables[v].incoming@ == old.variables[v].incoming@.push(message)
    }

    /// Fixes variable `var_index` to `value` by attaching the clamp factor
    /// `F::from_message(m)` with `m = V::sample_to_message(value)`; `m` is
    /// the message held on both sides of the new edge.
    /// Freezing one variable twice is allowed but gives no meaningful
    /// marginals.
    pub fn freeze_variable(&mut self, value: &V::Sample, var_index: usize) -> (r: FGResult<(), DiscrepancyOf<F>>)
        requires
            old(self).wf(),
        ensures
            final(self).wf(),
            var_index >= old(self)@.variables.len() ==> r == Err::<(), FGError<DiscrepancyOf<F>>>(
                FGError::OutOfRangeVariable(old(self)@.variables.len() as usize, var_index),
            ) && final(self)@ == old(self)@,
            var_index < old(self)@.variables.len() ==> r is Ok && Self::frozen(
                old(self)@,
                final(self)@,
                var_index as int,
            ),
    {
        let count = self.variables.len();
        if var_index >= count {
            return Err(FGError::OutOfRangeVariable(count, var_index));
        }
        let ghost g0 = self@;
        let message = V::sample_to_message(value);
        let factor = F::from_message(&message);
        let n = self.factors.len();
        push_factor(&mut self.factors, &self.variables, factor);
        let ghost g1 = self@;
        proof {
            assert(g1.factors[n as int].shaped());
            assert(g1.variables == g0.variables);
        }
        push_edge(&mut self.factors, &mut self.variables, n, var_index, message, message);
        proof {
            let g2 = self@;
            assert(g2.factors.take(n as int) =~= g1.factors.take(n as int));
            assert(g2.factors[n as int].var_indices@ =~= seq![var_index]);
            assert(g2.factors[n as int].var_slots@ =~= seq![g0.variable_degree(var_index as int) as usize]);
            assert(g2.factors[n as int].outgoing@ =~= seq![message]);
            assert(g2.factors[n as int].incoming@ =~= seq![message]);
        }
        Ok(())
    }

    /// Stages `outgoing` as factor `f`'s messages and delivers entry `k`
    /// into the variable slot of the factor's `k`-th edge. Only those slots
    /// change: no other node writes there.
    pub fn send_factor_messages(&mut self, f: usize, outgoing: Vec<F::Message>)
        requires
            old(self).wf(),
            f < old(self)@.factors.len(),
            outgoing@.len() == old(self)@.factor_degree(f as int),
        ensures
            final(self).wf(),
            final(self)@.same_wiring(old(self)@),
            final(self)@.factors[f as int].outgoing@ == outgoing@,
            forall|g: int|
                0 <= g < old(self)@.factors.len() && g != f ==> (#[trigger] final(self)@.factors[g]).outgoing@
                    == old(self)@.factors[g].outgoing@,
            forall|g: int|
                0 <= g < old(self)@.factors.len() ==> (#[trigger] final(self)@.factors[g]).incoming@
                    == old(self)@.factors[g].incoming@,
            forall|v: int|
                0 <= v < old(self)@.variables.len() ==> (#[trigger] final(self)@.variables[v]).outgoing@
                    == old(self)@.variables[v].outgoing@,
            forall|v: int, j: int|
                0 <= v < old(self)@.variables.len() && 0 <= j < old(self)@.variable_degree(v)
                    ==> #[trigger] final(self)@.variables[v].incoming@[j] == if old(self)@.fac_of(v, j) == f {
                    outgoing@[old(self)@.fac_slot_of(v, j)]
                } else {
                    old(self)@.variables[v].incoming@[j]
                },
    {
        let ghost g0 = self@;
        assert(g0.factors[f as int].shaped());
        let deg = self.factors[f].degree();
        self.factors[f].outgoing = outgoing;
        let mut k: usize = 0;
        while k < deg
            invariant
                g0.wf(),
                f < g0.factors.len(),
                deg == g0.factor_degree(f as int),
                k <= deg,
                self@.factors.len() == g0.factors.len(),
                self@.variables.len() == g0.variables.len(),
                self@.factors[f as int].outgoing@ == outgoing@,
                outgoing@.len() == deg,
                forall|g: int|
                    0 <= g < g0.factors.len() ==> {
                        &&& (#[trigger] self@.factors[g]).factor == g0.factors[g].factor
                        &&& self@.factors[g].var_indices == g0.factors[g].var_indices
                        &&& self@.factors[g].var_slots == g0.factors[g].var_slots
                        &&& self@.factors[g].incoming == g0.factors[g].incoming
                        &&& (g != f ==> self@.factors[g].outgoing == g0.factors[g].outgoing)
                    },
                forall|v: int|
                    0 <= v < g0.variables.len() ==> {
                        &&& (#[trigger] self@.variables[v]).variable == g0.variables[v].variable
                        &&& self@.variables[v].fac_indices == g0.variables[v].fac_indices
                        &&& self@.variables[v].fac_slots == g0.variables[v].fac_slots
                        &&& self@.variables[v].outgoing == g0.variables[v].outgoing
                        &&& self@.variables[v].incoming@.len() == g0.variables[v].incoming@.len()
                    },
                forall|v: int, j: int|
                    0 <= v < g0.variables.len() && 0 <= j < g0.variable_degree(v)
                        ==> #[trigger] self@.variables[v].incoming@[j] == if g0.fac_of(v, j) == f
                        && g0.fac_slot_of(v, j) < k {
                        outgoing@[g0.fac_slot_of(v, j)]
                    } else {
                        g0.variables[v].incoming@[j]
                    },
            decreases deg - k,
        {
            let ghost g1 = self@;
            proof {
                assert(g1.factors[f as int].factor == g0.factors[f as int].factor);
                assert(g0.factors[f as int].shaped());
            }
            let v = self.factors[f].var_indices[k];
            let j = self.factors[f].var_slots[k];
            let m = self.factors[f].outgoing[k];
            proof {
                assert(g0.var_of(f as int, k as int) == v as int);
                assert(g0.variables[v as int].shaped());
                assert(g1.variables[v as int].incoming@.len() == g0.variables[v as int].incoming@.len());
            }
            self.variables[v].incoming.set(j, m);
            proof {
                let g2 = self@;
                assert forall|u: int, i: int|
                    0 <= u < g0.variables.len() && 0 <= i < g0.variable_degree(u)
                        implies #[trigger] g2.variables[u].incoming@[i] == if g0.fac_of(u, i) == f
                        && g0.fac_slot_of(u, i) < k + 1 {
                        outgoing@[g0.fac_slot_of(u, i)]
                    } else {
                        g0.variables[u].incoming@[i]
                    } by {
                    assert(g1.variables[u].incoming@[i] == g1.variables[u].incoming@[i]);
                    if u == v && i == j {
                    } else if g0.fac_of(u, i) == f && g0.fac_slot_of(u, i) == k {
                        assert(g0.var_of(f as int, k as int) == u);
                    }
                }
                assert forall|u: int| 0 <= u < g0.variables.len() implies {
                    &&& (#[trigger] g2.variables[u]).variable == g0.variables[u].variable
                    &&& g2.variables[u].fac_indices == g0.variables[u].fac_indices
                    &&& g2.variables[u].fac_slots == g0.variables[u].fac_slots
                    &&& g2.variables[u].outgoing == g0.variables[u].outgoing
                    &&& g2.variables[u].incoming@.len() == g0.variables[u].incoming@.len()
                } by {
                    assert(g1.variables[u] == g1.variables[u]);
                }
            }
            k = k + 1;
        }
        proof {
            let g2 = self@;
            assert(g0.same_wiring(g2)) by {
                assert forall|g: int| 0 <= g < g0.factors.len() implies {
                    &&& (#[trigger] g0.factors[g]).factor == g2.factors[g].factor
                    &&& g0.factors[g].var_indices@ == g2.factors[g].var_indices@
                    &&& g0.factors[g].var_slots@ == g2.factors[g].var_slots@
                    &&& g0.factors[g].deg() == g2.factors[g].deg()
                    &&& g0.factors[g].outgoing.len() == g2.factors[g].outgoing.len()
                } by {
                    assert(g2.factors[g] == g2.factors[g]);
                    assert(g0.factors[g].shaped());
                }
                assert forall|v: int| 0 <= v < g0.variables.len() implies {
                    &&& (#[trigger] g0.variables[v]).variable == g2.variables[v].variable
                    &&& g0.variables[v].fac_indices@ == g2.variables[v].fac_indices@
                    &&& g0.variables[v].fac_slots@ == g2.variables[v].fac_slots@
                    &&& g0.variables[v].deg() == g2.variables[v].deg()
                    &&& g0.variables[v].outgoing.len() == g2.variables[v].outgoing.len()
                } by {
                    assert(g2.variables[v] == g2.variables[v]);
                }
            }
            lemma_same_wiring_wf(g0, g2);
            assert(g2.same_wiring(g0));
        }
    }

    /// The factor half of a synchronous flooding step: `staged[f]` becomes
    /// factor `f`'s outgoing messages and every variable slot receives the
    /// staged message of the one factor edge that targets it. Factors are
    /// handled last to first; the outcome does not depend on the order.
    pub fn deliver_factor_messages(&mut self, staged: Vec<Vec<F::Message>>)
        requires
            old(self).wf(),
            staged@.len() == old(self)@.factors.len(),
            forall|f: int| 0 <= f < staged@.len() ==> #[trigger] staged@[f]@.len() == old(self)@.factor_degree(f),
        ensures
            final(self).wf(),
            final(self)@.same_wiring(old(self)@),
            forall|f: int| 0 <= f < staged@.len() ==> (#[trigger] final(self)@.factors[f]).outgoing@ == staged@[f]@,
            forall|f: int|
                0 <= f < staged@.len() ==> (#[trigger] final(self)@.factors[f]).incoming@
                    == old(self)@.factors[f].incoming@,
            forall|v: int|
                0 <= v < old(self)@.variables.len() ==> (#[trigger] final(self)@.variables[v]).outgoing@
                    == old(self)@.variables[v].outgoing@,
            forall|v: int, j: int|
                0 <= v < old(self)@.variables.len() && 0 <= j < old(self)@.variable_degree(v)
                    ==> #[trigger] final(self)@.variables[v].incoming@[j] == staged@[old(self)@.fac_of(
                    v,
                    j,
                )]@[old(self)@.fac_slot_of(v, j)],
    {
        let ghost g0 = self@;
        let ghost all = staged@;
        let mut staged = staged;
        while staged.len() > 0
            invariant
                g0.wf(),
                self.wf(),
                self@.same_wiring(g0),
                all.len() == g0.factors.len(),
                forall|f: int| 0 <= f < all.len() ==> #[trigger] all[f]@.len() == g0.factor_degree(f),
                staged@.len() <= all.len(),
                staged@ == all.take(staged@.len() as int),
                forall|f: int|
                    staged@.len() <= f < all.len() ==> (#[trigger] self@.factors[f]).outgoing@ == all[f]@,
                forall|f: int|
                    0 <= f < staged@.len() ==> (#[trigger] self@.factors[f]).outgoing@ == g0.factors[f].outgoing@,
                forall|f: int|
                    0 <= f < all.len() ==> (#[trigger] self@.factors[f]).incoming@ == g0.factors[f].incoming@,
                forall|v: int|
                    0 <= v < g0.variables.len() ==> (#[trigger] self@.variables[v]).outgoing@
                        == g0.variables[v].outgoing@,
                forall|v: int, j: int|
                    0 <= v < g0.variables.len() && 0 <= j < g0.variable_degree(v)
                        ==> #[trigger] self@.variables[v].incoming@[j] == if g0.fac_of(v, j) >= staged@.len() {
                        all[g0.fac_of(v, j)]@[g0.fac_slot_of(v, j)]
                    } else {
                        g0.variables[v].incoming@[j]
                    },
            decreases staged@.len(),
        {
            let ghost g1 = self@;
            let f = staged.len() - 1;
            let outgoing = staged.pop().unwrap();
            proof {
                assert(outgoing@ == all[f as int]@);
                assert(staged@ =~= all.take(f as int));
                assert(g1.factors[f as int] == g1.factors[f as int]);
                assert(g0.factors[f as int] == g0.factors[f as int]);
            }
            self.send_factor_messages(f, outgoing);
            proof {
                let g2 = self@;
                assert forall|v: int, j: int|
                    0 <= v < g0.variables.len() && 0 <= j < g0.variable_degree(v) implies #[trigger] g2.variables[v].incoming@[j]
                        == if g0.fac_of(v, j) >= f {
                        all[g0.fac_of(v, j)]@[g0.fac_slot_of(v, j)]
                    } else {
                        g0.variables[v].incoming@[j]
                    } by {
                    assert(g1.variables[v] == g1.variables[v]);
                    assert(g0.variables[v] == g0.variables[v]);
                    assert(g1.fac_of(v, j) == g0.fac_of(v, j));
                    assert(g1.fac_slot_of(v, j) == g0.fac_slot_of(v, j));
                    assert(g1.variables[v].incoming@[j] == g1.variables[v].incoming@[j]);
                }
                assert forall|h: int|
                    f <= h < all.len() implies (#[trigger] g2.factors[h]).outgoing@ == all[h]@ by {
                    assert(g1.factors[h] == g1.factors[h]);
                }
                assert forall|h: int| 0 <= h < f implies (#[trigger] g2.factors[h]).outgoing@ == g0.factors[h].outgoing@ by {
                    assert(g1.factors[h] == g1.factors[h]);
                }
                assert forall|h: int| 0 <= h < all.len() implies (#[trigger] g2.factors[h]).incoming@ == g0.factors[h].incoming@ by {
                    assert(g1.factors[h] == g1.factors[h]);
                }
                assert forall|u: int| 0 <= u < g0.variables.len() implies (#[trigger] g2.variables[u]).outgoing@ == g0.variables[u].outgoing@ by {
                    assert(g1.variables[u] == g1.variables[u]);
                }
                assert(g2.same_wiring(g0)) by {
                    assert forall|h: int| 0 <= h < g2.factors.len() implies {
                        &&& (#[trigger] g2.factors[h]).factor == g0.factors[h].factor
                        &&& g2.factors[h].var_indices@ == g0.factors[h].var_indices@
                        &&& g2.factors[h].var_slots@ == g0.factors[h].var_slots@
                        &&& g2.factors[h].deg() == g0.factors[h].deg()
                        &&& g2.factors[h].outgoing.len() == g0.factors[h].outgoing.len()
                    } by {
                        assert(g1.factors[h] == g1.factors[h]);
                    }
                    assert forall|u: int| 0 <= u < g2.variables.len() implies {
                        &&& (#[trigger] g2.variables[u]).variable == g0.variables[u].variable
                        &&& g2.variables[u].fac_indices@ == g0.variables[u].fac_indices@
                        &&& g2.variables[u].fac_slots@ == g0.variables[u].fac_slots@
                        &&& g2.variables[u].deg() == g0.variables[u].deg()
                        &&& g2.variables[u].outgoing.len() == g0.variables[u].outgoing.len()
                    } by {
                        assert(g1.variables[u] == g1.variables[u]);
                    }
                }
            }
        }
        proof {
            let g2 = self@;
            assert forall|v: int, j: int|
                0 <= v < g0.variables.len() && 0 <= j < g0.variable_degree(v) implies #[trigger] g2.variables[v].incoming@[j]
                    == all[g0.fac_of(v, j)]@[g0.fac_slot_of(v, j)] by {
                assert(g0.variables[v] == g0.variables[v]);
                assert(g0.fac_of(v, j) >= 0);
            }
            assert(g2.same_wiring(g0));
            assert(g0.same_wiring(g2)) by {
                assert forall|h: int| 0 <= h < g0.factors.len() implies {
                    &&& (#[trigger] g0.factors[h]).factor == g2.factors[h].factor
                    &&& g0.factors[h].var_indices@ == g2.factors[h].var_indices@
                    &&& g0.factors[h].var_slots@ == g2.factors[h].var_slots@
                    &&& g0.factors[h].deg() == g2.factors[h].deg()
                    &&& g0.factors[h].outgoing.len() == g2.factors[h].outgoing.len()
                } by {
                    assert(g2.factors[h] == g2.factors[h]);
                }
                assert forall|u: int| 0 <= u < g0.variables.len() implies {
                    &&& (#[trigger] g0.variables[u]).variable == g2.variables[u].variable
                    &&& g0.variables[u].fac_indices@ == g2.variables[u].fac_indices@
                    &&& g0.variables[u].fac_slots@ == g2.variables[u].fac_slots@
                    &&& g0.variables[u].deg() == g2.variables[u].deg()
                    &&& g0.variables[u].outgoing.len() == g2.variables[u].outgoing.len()
                } by {
                    assert(g2.variables[u] == g2.variables[u]);
                }
            }
        }
    }

    /// The variable half of a synchronous flooding step: `staged[v]` becomes
    /// variable `v`'s outgoing messages and every factor slot receives the
    /// staged message of the one variable edge that targets it. Variables
    /// are handled last to first; the outcome does not depend on the order.
    pub fn deliver_variable_messages(&mut self, staged: Vec<Vec<F::Message>>)
        requires
            old(self).wf(),
            staged@.len() == old(self)@.variables.len(),
            forall|v: int| 0 <= v < staged@.len() ==> #[trigger] staged@[v]@.len() == old(self)@.variable_degree(v),
        ensures
            final(self).wf(),
            final(self)@.same_wiring(old(self)@),
            forall|v: int| 0 <= v < staged@.len() ==> (#[trigger] final(self)@.variables[v]).outgoing@ == staged@[v]@,
            forall|v: int|
                0 <= v < staged@.len() ==> (#[trigger] final(self)@.variables[v]).incoming@
                    == old(self)@.variables[v].incoming@,
            forall|f: int|
                0 <= f < old(self)@.factors.len() ==> (#[trigger] final(self)@.factors[f]).outgoing@
                    == old(self)@.factors[f].outgoing@,
            forall|f: int, k: int|
                0 <= f < old(self)@.factors.len() && 0 <= k < old(self)@.factor_degree(f)
                    ==> #[trigger] final(self)@.factors[f].incoming@[k] == staged@[old(self)@.var_of(
                    f,
                    k,
                )]@[old(self)@.var_slot_of(f, k)],
    {
        let ghost g0 = self@;
        let ghost all = staged@;
        let mut staged = staged;
        while staged.len() > 0
            invariant
                g0.wf(),
                self.wf(),
                self@.same_wiring(g0),
                all.len() == g0.variables.len(),
                forall|v: int| 0 <= v < all.len() ==> #[trigger] all[v]@.len() == g0.variable_degree(v),
                staged@.len() <= all.len(),
                staged@ == all.take(staged@.len() as int),
                forall|v: int|
                    staged@.len() <= v < all.len() ==> (#[trigger] self@.variables[v]).outgoing@ == all[v]@,
                forall|v: int|
                    0 <= v < staged@.len() ==> (#[trigger] self@.variables[v]).outgoing@ == g0.variables[v].outgoing@,
                forall|v: int|
                    0 <= v < all.len() ==> (#[trigger] self@.variables[v]).incoming@ == g0.variables[v].incoming@,
                forall|f: int|
                    0 <= f < g0.factors.len() ==> (#[trigger] self@.factors[f]).outgoing@
                        == g0.factors[f].outgoing@,
                forall|f: int, k: int|
                    0 <= f < g0.factors.len() && 0 <= k < g0.factor_degree(f)
                        ==> #[trigger] self@.factors[f].incoming@[k] == if g0.var_of(f, k) >= staged@.len() {
                        all[g0.var_of(f, k)]@[g0.var_slot_of(f, k)]
                    } else {
                        g0.factors[f].incoming@[k]
                    },
            decreases staged@.len(),
        {
            let ghost g1 = self@;
            let v = staged.len() - 1;
            let outgoing = staged.pop().unwrap();
            proof {
                assert(outgoing@ == all[v as int]@);
                assert(staged@ =~= all.take(v as int));
                assert(g1.variables[v as int] == g1.variables[v as int]);
                assert(g0.variables[v as int] == g0.variables[v as int]);
            }
            self.send_variable_messages(v, outgoing);
            proof {
                let g2 = self@;
                assert forall|f: int, k: int|
                    0 <= f < g0.factors.len() && 0 <= k < g0.factor_degree(f) implies #[trigger] g2.factors[f].incoming@[k]
                        == if g0.var_of(f, k) >= v {
                        all[g0.var_of(f, k)]@[g0.var_slot_of(f, k)]
                    } else {
                        g0.factors[f].incoming@[k]
                    } by {
                    assert(g1.factors[f] == g1.factors[f]);
                    assert(g0.factors[f] == g0.factors[f]);
                    assert(g1.var_of(f, k) == g0.var_of(f, k));
                    assert(g1.var_slot_of(f, k) == g0.var_slot_of(f, k));
                    assert(g1.factors[f].incoming@[k] == g1.factors[f].incoming@[k]);
                }
                assert forall|u: int|
                    v <= u < all.len() implies (#[trigger] g2.variables[u]).outgoing@ == all[u]@ by {
                    assert(g1.variables[u] == g1.variables[u]);
                }
                assert forall|u: int| 0 <= u < v implies (#[trigger] g2.variables[u]).outgoing@ == g0.variables[u].outgoing@ by {
                    assert(g1.variables[u] == g1.variables[u]);
                }
                assert forall|u: int| 0 <= u < all.len() implies (#[trigger] g2.variables[u]).incoming@ == g0.variables[u].incoming@ by {
                    assert(g1.variables[u] == g1.variables[u]);
                }
                assert forall|h: int| 0 <= h < g0.factors.len() implies (#[trigger] g2.factors[h]).outgoing@ == g0.factors[h].outgoing@ by {
                    assert(g1.factors[h] == g1.factors[h]);
                }
                assert(g2.same_wiring(g0)) by {
                    assert forall|u: int| 0 <= u < g2.variables.len() implies {
                        &&& (#[trigger] g2.variables[u]).variable == g0.variables[u].variable
                        &&& g2.variables[u].fac_indices@ == g0.variables[u].fac_indices@
                        &&& g2.variables[u].fac_slots@ == g0.variables[u].fac_slots@
                        &&& g2.variables[u].deg() == g0.variables[u].deg()
                        &&& g2.variables[u].outgoing.len() == g0.variables[u].outgoing.len()
                    } by {
                        assert(g1.variables[u] == g1.variables[u]);
                    }
                    assert forall|h: int| 0 <= h < g2.factors.len() implies {
                        &&& (#[trigger] g2.factors[h]).factor == g0.factors[h].factor
                        &&& g2.factors[h].var_indices@ == g0.factors[h].var_indices@
                        &&& g2.factors[h].var_slots@ == g0.factors[h].var_slots@
                        &&& g2.factors[h].deg() == g0.factors[h].deg()
                        &&& g2.factors[h].outgoing.len() == g0.factors[h].outgoing.len()
                    } by {
                        assert(g1.factors[h] == g1.factors[h]);
                    }
                }
            }
        }
        proof {
            let g2 = self@;
            assert forall|f: int, k: int|
                0 <= f < g0.factors.len() && 0 <= k < g0.factor_degree(f) implies #[trigger] g2.factors[f].incoming@[k]
                    == all[g0.var_of(f, k)]@[g0.var_slot_of(f, k)] by {
                assert(g0.factors[f] == g0.factors[f]);
                assert(g0.var_of(f, k) >= 0);
            }
            assert(g2.same_wiring(g0));
            assert(g0.same_wiring(g2)) by {
                assert forall|u: int| 0 <= u < g0.variables.len() implies {
                    &&& (#[trigger] g0.variables[u]).variable == g2.variables[u].variable
                    &&& g0.variables[u].fac_indices@ == g2.variables[u].fac_indices@
                    &&& g0.variables[u].fac_slots@ == g2.variables[u].fac_slots@
                    &&& g0.variables[u].deg() == g2.variables[u].deg()
                    &&& g0.variables[u].outgoing.len() == g2.variables[u].outgoing.len()
                } by {
                    assert(g2.variables[u] == g2.variables[u]);
                }
                assert forall|h: int| 0 <= h < g0.factors.len() implies {
                    &&& (#[trigger] g0.factors[h]).factor == g2.factors[h].factor
                    &&& g0.factors[h].var_indices@ == g2.factors[h].var_indices@
                    &&& g0.factors[h].var_slots@ == g2.factors[h].var_slots@
                    &&& g0.factors[h].deg() == g2.factors[h].deg()
                    &&& g0.factors[h].outgoing.len() == g2.factors[h].outgoing.len()
                } by {
                    assert(g2.factors[h] == g2.factors[h]);
                }
            }
        }
    }

    /// Stages `outgoing` as variable `v`'s messages and delivers entry `j`
    /// into the factor slot of the variable's `j`-th edge. Only those slots
    /// change: no other node writes there.
    pub fn send_variable_messages(&mut self, v: usize, outgoing: Vec<F::Message>)
        requires
            old(self).wf(),
            v < old(self)@.variables.len(),
            outgoing@.len() == old(self)@.variable_degree(v as int),
        ensures
            final(self).wf(),
            final(self)@.same_wiring(old(self)@),
            final(self)@.variables[v as int].outgoing@ == outgoing@,
            forall|u: int|
                0 <= u < old(self)@.variables.len() && u != v ==> (#[trigger] final(self)@.variables[u]).outgoing@
                    == old(self)@.variables[u].outgoing@,
            forall|u: int|
                0 <= u < old(self)@.variables.len() ==> (#[trigger] final(self)@.variables[u]).incoming@
                    == old(self)@.variables[u].incoming@,
            forall|g: int|
                0 <= g < old(self)@.factors.len() ==> (#[trigger] final(self)@.factors[g]).outgoing@
                    == old(self)@.factors[g].outgoing@,
            forall|g: int, k: int|
                0 <= g < old(self)@.factors.len() && 0 <= k < old(self)@.factor_degree(g)
                    ==> #[trigger] final(self)@.factors[g].incoming@[k] == if old(self)@.var_of(g, k) == v {
                    outgoing@[old(self)@.var_slot_of(g, k)]
                } else {
                    old(self)@.factors[g].incoming@[k]
                },
    {
        let ghost g0 = self@;
        assert(g0.variables[v as int].shaped());
        let deg = self.variables[v].degree();
        self.variables[v].outgoing = outgoing;
        let mut j: usize = 0;
        while j < deg
            invariant
                g0.wf(),
                v < g0.variables.len(),
                deg == g0.variable_degree(v as int),
                j <= deg,
                self@.factors.len() == g0.factors.len(),
                self@.variables.len() == g0.variables.len(),
                self@.variables[v as int].outgoing@ == outgoing@,
                outgoing@.len() == deg,
                forall|u: int|
                    0 <= u < g0.variables.len() ==> {
                        &&& (#[trigger] self@.variables[u]).variable == g0.variables[u].variable
                        &&& self@.variables[u].fac_indices == g0.variables[u].fac_indices
                        &&& self@.variables[u].fac_slots == g0.variables[u].fac_slots
                        &&& self@.variables[u].incoming == g0.variables[u].incoming
                        &&& (u != v ==> self@.variables[u].outgoing == g0.variables[u].outgoing)
                    },
                forall|g: int|
                    0 <= g < g0.factors.len() ==> {
                        &&& (#[trigger] self@.factors[g]).factor == g0.factors[g].factor
                        &&& self@.factors[g].var_indices == g0.factors[g].var_indices
                        &&& self@.factors[g].var_slots == g0.factors[g].var_slots
                        &&& self@.factors[g].outgoing == g0.factors[g].outgoing
                        &&& self@.factors[g].incoming@.len() == g0.factors[g].incoming@.len()
                    },
                forall|g: int, k: int|
                    0 <= g < g0.factors.len() && 0 <= k < g0.factor_degree(g)
                        ==> #[trigger] self@.factors[g].incoming@[k] == if g0.var_of(g, k) == v
                        && g0.var_slot_of(g, k) < j {
                        outgoing@[g0.var_slot_of(g, k)]
                    } else {
                        g0.factors[g].incoming@[k]
                    },
            decreases deg - j,
        {
            let ghost g1 = self@;
            proof {
                assert(g1.variables[v as int].variable == g0.variables[v as int].variable);
                assert(g0.variables[v as int].shaped());
            }
            let f = self.variables[v].fac_indices[j];
            let k = self.variables[v].fac_slots[j];
            let m = self.variables[v].outgoing[j];
            proof {
                assert(g0.fac_of(v as int, j as int) == f as int);
                assert(g0.factors[f as int].shaped());
                assert(g1.factors[f as int].incoming@.len() == g0.factors[f as int].incoming@.len());
            }
            self.factors[f].incoming.set(k, m);
            proof {
                let g2 = self@;
                assert forall|g: int, q: int|
                    0 <= g < g0.factors.len() && 0 <= q < g0.factor_degree(g)
                        implies #[trigger] g2.factors[g].incoming@[q] == if g0.var_of(g, q) == v
                        && g0.var_slot_of(g, q) < j + 1 {
                        outgoing@[g0.var_slot_of(g, q)]
                    } else {
                        g0.factors[g].incoming@[q]
                    } by {
                    assert(g1.factors[g].incoming@[q] == g1.factors[g].incoming@[q]);
                    if g == f && q == k {
                    } else if g0.var_of(g, q) == v && g0.var_slot_of(g, q) == j {
                        assert(g0.fac_of(v as int, j as int) == g);
                    }
                }
                assert forall|g: int| 0 <= g < g0.factors.len() implies {
                    &&& (#[trigger] g2.factors[g]).factor == g0.factors[g].factor
                    &&& g2.factors[g].var_indices == g0.factors[g].var_indices
                    &&& g2.factors[g].var_slots == g0.factors[g].var_slots
                    &&& g2.factors[g].outgoing == g0.factors[g].outgoing
                    &&& g2.factors[g].incoming@.len() == g0.factors[g].incoming@.len()
                } by {
                    assert(g1.factors[g] == g1.factors[g]);
                }
            }
            j = j + 1;
        }
        proof {
            let g2 = self@;
            assert(g0.same_wiring(g2)) by {
                assert forall|g: int| 0 <= g < g0.factors.len() implies {
                    &&& (#[trigger] g0.factors[g]).factor == g2.factors[g].factor
                    &&& g0.factors[g].var_indices@ == g2.factors[g].var_indices@
                    &&& g0.factors[g].var_slots@ == g2.factors[g].var_slots@
                    &&& g0.factors[g].deg() == g2.factors[g].deg()
                    &&& g0.factors[g].outgoing.len() == g2.factors[g].outgoing.len()
                } by {
                    assert(g2.factors[g] == g2.factors[g]);
                }
                assert forall|u: int| 0 <= u < g0.variables.len() implies {
                    &&& (#[trigger] g0.variables[u]).variable == g2.variables[u].variable
                    &&& g0.variables[u].fac_indices@ == g2.variables[u].fac_indices@
                    &&& g0.variables[u].fac_slots@ == g2.variables[u].fac_slots@
                    &&& g0.variables[u].deg() == g2.variables[u].deg()
                    &&& g0.variables[u].outgoing.len() == g2.variables[u].outgoing.len()
                } by {
                    assert(g2.variables[u] == g2.variables[u]);
                    assert(g0.variables[u].shaped());
                }
            }
            lemma_same_wiring_wf(g0, g2);
            assert(g2.same_wiring(g0));
        }
    }
}

impl<F: Factor + Clone, V: Variable<Message = F::Message> + Clone> Clone for FactorGraph<F, V> {
    /// An independent graph with the same wiring and messages.
    fn clone(&self) -> (r: Self)
        ensures
            self@.copied_to(r@),
            self.wf() ==> r.wf(),
    {
        let mut factors: Vec<FactorNode<F>> = Vec::with_capacity(self.factors.len());
        let mut f: usize = 0;
        while f < self.factors.len()
            invariant
                f <= self.factors@.len(),
                factors@.len() == f,
                forall|g: int|
                    0 <= g < f ==> {
                        &&& cloned(self.factors@[g].factor, (#[trigger] factors@[g]).factor)
                        &&& self.factors@[g].var_indices@ == factors@[g].var_indices@
                        &&& self.factors@[g].var_slots@ == factors@[g].var_slots@
                        &&& self.factors@[g].outgoing@ == factors@[g].outgoing@
                        &&& self.factors@[g].incoming@ == factors@[g].incoming@
                    },
            decreases self.factors@.len() - f,
        {
            factors.push(self.factors[f].clone());
            f = f + 1;
        }
        let mut variables: Vec<VariableNode<V>> = Vec::with_capacity(self.variables.len());
        let mut v: usize = 0;
        while v < self.variables.len()
            invariant
                v <= self.variables@.len(),
                variables@.len() == v,
                forall|u: int|
                    0 <= u < v ==> {
                        &&& cloned(self.variables@[u].variable, (#[trigger] variables@[u]).variable)
                        &&& self.variables@[u].fac_indices@ == variables@[u].fac_indices@
                        &&& self.variables@[u].fac_slots@ == variables@[u].fac_slots@
                        &&& self.variables@[u].outgoing@ == variables@[u].outgoing@
                        &&& self.variables@[u].incoming@ == variables@[u].incoming@
                    },
            decreases self.variables@.len() - v,
        {
            variables.push(self.variables[v].clone());
            v = v + 1;
        }
        let r = FactorGraph { factors, variables };
        proof {
            assert(self@.copied_to(r@)) by {
                assert forall|g: int| 0 <= g < self@.factors.len() implies {
                    &&& cloned((#[trigger] self@.factors[g]).factor, r@.factors[g].factor)
                    &&& self@.factors[g].var_indices@ == r@.factors[g].var_indices@
                    &&& self@.factors[g].var_slots@ == r@.factors[g].var_slots@
                    &&& self@.factors[g].outgoing@ == r@.factors[g].outgoing@
                    &&& self@.factors[g].incoming@ == r@.factors[g].incoming@
                } by {
                    assert(factors@[g] == r@.factors[g]);
                }
                assert forall|u: int| 0 <= u < self@.variables.len() implies {
                    &&& cloned((#[trigger] self@.variables[u]).variable, r@.variables[u].variable)
                    &&& self@.variables[u].fac_indices@ == r@.variables[u].fac_indices@
                    &&& self@.variables[u].fac_slots@ == r@.variables[u].fac_slots@
                    &&& self@.variables[u].outgoing@ == r@.variables[u].outgoing@
                    &&& self@.variables[u].incoming@ == r@.variables[u].incoming@
                } by {
                    assert(variables@[u] == r@.variables[u]);
                }
            }
            if self.wf() {
                lemma_copied_wf(self@, r@);
            }
        }
        r
    }
}

} // verus!
