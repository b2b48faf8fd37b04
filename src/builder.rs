//! Incremental assembly of a factor graph.
use crate::error::{FGBuilderError, FGBuilderResult};
use crate::graph::FactorGraph;
use crate::node::{FactorNode, VariableNode};
use crate::payload::{Factor, Variable};
use crate::topology::{graph_view, push_edge, push_factor, GraphView};
use vstd::prelude::*;

verus! {

/// The number of entries of `s` equal to `v`.
pub open spec fn occurrences(s: Seq<usize>, v: int) -> nat
    decreases s.len(),
{
    if s.len() == 0 {
        0
    } else {
        occurrences(s.drop_last(), v) + if s.last() == v {
            1nat
        } else {
            0nat
        }
    }
}

/// Whether `r` is what [`check_factor`] owes for a
/// factor of degree `degree` on `var_indices` among `count` variables:
/// the degree must match, then every index must be in range; the first
/// index out of range is reported.
pub open spec fn factor_checked(
    degree: usize,
    var_indices: Seq<usize>,
    count: usize,
    r: FGBuilderResult<()>,
) -> bool {
    match r {
        Err(FGBuilderError::DegreeError(d, given)) => {
            &&& degree != var_indices.len()
            &&& d == degree
            &&& given@ == var_indices
        },
        Err(FGBuilderError::OutOfRangeVariable(c, index)) => {
            &&& degree == var_indices.len()
            &&& c == count
            &&& exists|k: int|
                0 <= k < var_indices.len() && #[trigger] var_indices[k] == index && index >= count
                    && forall|q: int| 0 <= q < k ==> var_indices[q] < count
        },
        Ok(()) => {
            &&& degree == var_indices.len()
            &&& forall|k: int| 0 <= k < var_indices.len() ==> var_indices[k] < count
        },
    }
}

/// Checks a factor that reports degree `degree` against the variables
/// `var_indices` of a builder holding `variables_number` variables.
pub fn check_factor(degree: usize, var_indices: &[usize], variables_number: usize) -> (r: FGBuilderResult<()>)
    ensures
        factor_checked(degree, var_indices@, variables_number, r),
{
    if degree != var_indices.len() {
        return Err(FGBuilderError::DegreeError(degree, vstd::slice::slice_to_vec(var_indices)));
    }
    let mut q: usize = 0;
    while q < var_indices.len()
        invariant
            q <= var_indices@.len(),
            degree == var_indices@.len(),
            forall|p: int| 0 <= p < q ==> var_indices@[p] < variables_number,
        decreases var_indices@.len() - q,
    {
        if var_indices[q] >= variables_number {
            assert(var_indices@[q as int] == var_indices[q as int]);
            return Err(FGBuilderError::OutOfRangeVariable(variables_number, var_indices[q]));
        }
        q = q + 1;
    }
    Ok(())
}

/// Collects variables and factors, then hands them over as a
/// [`FactorGraph`].
pub struct FactorGraphBuilder<F: Factor, V: Variable<Message = F::Message>> {
    factors: Vec<FactorNode<F>>,
    variables: Vec<VariableNode<V>>,
}

impl<F: Factor, V: Variable<Message = F::Message>> View for FactorGraphBuilder<F, V> {
    type V = GraphView<F, V>;

    closed spec fn view(&self) -> GraphView<F, V> {
        graph_view(self.factors@, self.variables@)
    }
}

impl<F: Factor, V: Variable<Message = F::Message>> FactorGraphBuilder<F, V> {
    pub open spec fn wf(&self) -> bool {
        self@.wf()
    }

    /// Whether `new` is `old` with one more factor node, holding `factor`
    /// and connected to `var_indices` in order, each new edge appended
    /// after the existing edges of its variable.
    pub open spec fn factor_added(
        old: GraphView<F, V>,
        new: GraphView<F, V>,
        factor: F,
        var_indices: Seq<usize>,
    ) -> bool {
        let n = old.factors.len() as int;
        &&& new.factors.len() == n + 1
        &&& new.variables.len() == old.variables.len()
        &&& new.factors.take(n) == old.factors
        &&& new.factors[n].factor == factor
        &&& new.factors[n].var_indices@ == var_indices
        &&& forall|k: int|
            0 <= k < var_indices.len() ==> #[trigger] new.var_slot_of(n, k) == old.variable_degree(
                var_indices[k] as int,
            ) + occurrences(var_indices.take(k), var_indices[k] as int)
        &&& forall|v: int|
            0 <= v < old.variables.len() ==> {
                let d = old.variable_degree(v) as int;
                &&& (#[trigger] new.variables[v]).variable == old.variables[v].variable
                &&& new.variable_degree(v) == d + occurrences(var_indices, v)
                &&& new.variables[v].fac_indices@.take(d) == old.variables[v].fac_indices@
                &&& new.variables[v].fac_slots@.take(d) == old.variables[v].fac_slots@
                &&& new.variables[v].outgoing@.take(d) == old.variables[v].outgoing@
                &&& new.variables[v].incoming@.take(d) == old.variables[v].incoming@
            }
        &&& forall|k: int|
            0 <= k < var_indices.len() ==> #[trigger] new.factors[n].outgoing@[k]
                == new.factor_destination(n, k)
        &&& forall|k: int|
            0 <= k < var_indices.len() ==> #[trigger] new.factors[n].incoming@[k]
                == new.variables[new.var_of(n, k)].outgoing@[new.var_slot_of(n, k)]
    }

    /// An empty builder.
    pub fn new() -> (r: Self)
        ensures
            r.wf(),
            r@.factors.len() == 0,
            r@.variables.len() == 0,
    {
        FactorGraphBuilder { factors: Vec::new(), variables: Vec::new() }
    }

    /// A builder holding `variables_number` disconnected variables and
    /// room for `factors_capacity` factors.
    pub fn new_with_variables(variables_number: usize, factors_capacity: usize) -> (r: Self)
        ensures
            r.wf(),
            r@.factors.len() == 0,
            r@.variables.len() == variables_number,
            forall|v: int| 0 <= v < variables_number ==> #[trigger] r@.variable_degree(v) == 0,
    {
        let mut variables: Vec<VariableNode<V>> = Vec::with_capacity(variables_number);
        let mut i: usize = 0;
        while i < variables_number
            invariant
                i <= variables_number,
                variables.len() == i,
                forall|v: int| 0 <= v < i ==> #[trigger] variables[v].deg() == 0 && variables[v].shaped(),
            decreases variables_number - i,
        {
            variables.push(VariableNode::new_disconnected());
            i = i + 1;
        }
        let r = FactorGraphBuilder { factors: Vec::with_capacity(factors_capacity), variables };
        assert(r@.shaped());
        r
    }

    /// Appends a disconnected variable.
    pub fn add_variable(&mut self)
        requires
            old(self).wf(),
        ensures
            final(self).wf(),
            final(self)@.factors == old(self)@.factors,
            final(self)@.variables.take(old(self)@.variables.len() as int) == old(self)@.variables,
            final(self)@.variables.len() == old(self)@.variables.len() + 1,
            final(self)@.variable_degree(old(self)@.variables.len() as int) == 0,
    {
        let ghost g0 = self@;
        self.variables.push(VariableNode::new_disconnected());
        let ghost g1 = self@;
        assert(g1.shaped()) by {
            assert forall|v: int| 0 <= v < g1.variables.len() implies #[trigger] g1.variables[v].shaped() by {
                if v < g0.variables.len() {
                    assert(g0.variables[v].shaped());
                }
            }
            assert forall|f: int| 0 <= f < g1.factors.len() implies #[trigger] g1.factors[f].shaped() by {
                assert(g0.factors[f].shaped());
            }
        }
        assert(g1.factor_edges_linked()) by {
            assert forall|f: int, k: int| 0 <= f < g1.factors.len() && 0 <= k < g1.factor_degree(f) implies {
                let v = #[trigger] g1.var_of(f, k);
                let j = g1.var_slot_of(f, k);
                &&& 0 <= v < g1.variables.len()
                &&& 0 <= j < g1.variable_degree(v)
                &&& g1.fac_of(v, j) == f
                &&& g1.fac_slot_of(v, j) == k
            } by {
                assert(g0.var_of(f, k) == g1.var_of(f, k));
                let v = g0.var_of(f, k);
                let j = g0.var_slot_of(f, k);
                assert(g0.variables[v] == g1.variables[v]);
            }
        }
        assert(g1.variable_edges_linked()) by {
            assert forall|v: int, j: int| 0 <= v < g1.variables.len() && 0 <= j < g1.variable_degree(v) implies {
                let f = #[trigger] g1.fac_of(v, j);
                let k = g1.fac_slot_of(v, j);
                &&& 0 <= f < g1.factors.len()
                &&& 0 <= k < g1.factor_degree(f)
                &&& g1.var_of(f, k) == v
                &&& g1.var_slot_of(f, k) == j
            } by {
                if v < g0.variables.len() {
                    assert(g0.variables[v] == g1.variables[v]);
                    assert(g0.fac_of(v, j) == g1.fac_of(v, j));
                }
            }
        }
        assert(self@.variables.take(g0.variables.len() as int) =~= g0.variables);
    }

    /// Appends `factor` connected to the variables `var_indices`, in order,
    /// after checking it with the degree the factor reports. Each new edge
    /// gets two fresh messages from `message_initializer`: the one the
    /// factor holds from the variable and the one the variable holds from
    /// the factor. On error nothing changes.
    pub fn add_factor(
        &mut self,
        factor: F,
        var_indices: &[usize],
        message_initializer: &impl Fn() -> F::Message,
    ) -> (r: FGBuilderResult<()>)
        requires
            old(self).wf(),
            call_requires(*message_initializer, ()),
        ensures
            final(self).wf(),
            exists|d: usize|
                #[trigger] factor_checked(d, var_indices@, old(self)@.variables.len() as usize, r),
            r is Err ==> final(self)@ == old(self)@,
            r is Ok ==> Self::factor_added(old(self)@, final(self)@, factor, var_indices@),
            r is Ok ==> forall|k: int|
                0 <= k < var_indices@.len() ==> call_ensures(
                    *message_initializer,
                    (),
                    #[trigger] final(self)@.factors[old(self)@.factors.len() as int].incoming@[k],
                ),
            r is Ok ==> forall|k: int|
                0 <= k < var_indices@.len() ==> call_ensures(
                    *message_initializer,
                    (),
                    #[trigger] final(self)@.factors[old(self)@.factors.len() as int].outgoing@[k],
                ),
    {
        let ghost g0 = self@;
        let count = self.variables.len();
        let deg = factor.degree();
        let checked = check_factor(deg, var_indices, count);
        if checked.is_err() {
            assert(factor_checked(deg, var_indices@, g0.variables.len() as usize, checked));
            return checked;
        }
        let n = self.factors.len();
        push_factor(&mut self.factors, &self.variables, factor);
        proof {
            let g1 = self@;
            assert(g1.factors.take(n as int) =~= g0.factors);
            assert(var_indices@.take(0) =~= Seq::<usize>::empty());
            assert(g1.factors[n as int].shaped());
            assert(g1.factors[n as int].var_indices@ =~= var_indices@.take(0));
            assert forall|v: int| 0 <= v < count implies {
                let d = g0.variable_degree(v) as int;
                &&& (#[trigger] g1.variables[v]).variable == g0.variables[v].variable
                &&& g1.variable_degree(v) == d + occurrences(var_indices@.take(0), v)
                &&& g1.variables[v].fac_indices@.take(d) == g0.variables[v].fac_indices@
                &&& g1.variables[v].fac_slots@.take(d) == g0.variables[v].fac_slots@
                &&& g1.variables[v].outgoing@.take(d) == g0.variables[v].outgoing@
                &&& g1.variables[v].incoming@.take(d) == g0.variables[v].incoming@
            } by {
                let d = g0.variable_degree(v) as int;
                assert(g0.variables[v].shaped());
                assert(g1.variables[v].fac_indices@.take(d) =~= g0.variables[v].fac_indices@);
                assert(g1.variables[v].fac_slots@.take(d) =~= g0.variables[v].fac_slots@);
                assert(g1.variables[v].outgoing@.take(d) =~= g0.variables[v].outgoing@);
                assert(g1.variables[v].incoming@.take(d) =~= g0.variables[v].incoming@);
            }
        }
        let mut k: usize = 0;
        while k < var_indices.len()
            invariant
                k <= var_indices@.len(),
                count == g0.variables.len(),
                deg == var_indices@.len(),
                n == g0.factors.len(),
                forall|p: int| 0 <= p < var_indices@.len() ==> var_indices@[p] < count,
                call_requires(*message_initializer, ()),
                self@.wf(),
                self@.factors.len() == n + 1,
                self@.variables.len() == count,
                self@.factors.take(n as int) == g0.factors,
                self@.factors[n as int].factor == factor,
                self@.factors[n as int].var_indices@ == var_indices@.take(k as int),
                forall|p: int|
                    0 <= p < k ==> #[trigger] self@.var_slot_of(n as int, p)
                        == g0.variable_degree(var_indices@[p] as int) + occurrences(
                        var_indices@.take(p),
                        var_indices@[p] as int,
                    ),
                forall|v: int|
                    0 <= v < count ==> {
                        let d = g0.variable_degree(v) as int;
                        &&& (#[trigger] self@.variables[v]).variable == g0.variables[v].variable
                        &&& self@.variable_degree(v) == d + occurrences(var_indices@.take(k as int), v)
                        &&& self@.variables[v].fac_indices@.take(d) == g0.variables[v].fac_indices@
                        &&& self@.variables[v].fac_slots@.take(d) == g0.variables[v].fac_slots@
                        &&& self@.variables[v].outgoing@.take(d) == g0.variables[v].outgoing@
                        &&& self@.variables[v].incoming@.take(d) == g0.variables[v].incoming@
                    },
                forall|p: int|
                    0 <= p < k ==> #[trigger] self@.factors[n as int].outgoing@[p]
                        == self@.factor_destination(n as int, p),
                forall|p: int|
                    0 <= p < k ==> #[trigger] self@.factors[n as int].incoming@[p]
                        == self@.variables[self@.var_of(n as int, p)].outgoing@[self@.var_slot_of(
                        n as int,
                        p,
                    )],
                forall|p: int|
                    0 <= p < k ==> {
                        &&& call_ensures(*message_initializer, (), #[trigger] self@.factors[n as int].incoming@[p])
                        &&& call_ensures(*message_initializer, (), self@.factors[n as int].outgoing@[p])
                    },
            decreases var_indices@.len() - k,
        {
            let ghost g1 = self@;
            let v = var_indices[k];
            let to_factor = message_initializer();
            let to_variable = message_initializer();
            proof {
                assert(g1.factors[n as int].shaped());
                assert(g1.factor_degree(n as int) == k);
                assert(g1.variables[v as int].variable == g0.variables[v as int].variable);
                assert(g1.variables[v as int].shaped());
            }
            push_edge(&mut self.factors, &mut self.variables, n, v, to_factor, to_variable);
            let ghost g2 = self@;
            proof {
                let s = var_indices@;
                assert(s.take(k + 1).drop_last() =~= s.take(k as int));
                assert(s.take(k + 1) =~= s.take(k as int).push(v));
                assert(g2.factors.take(n as int) =~= g1.factors.take(n as int));
                assert forall|u: int| 0 <= u < count implies {
                    let d = g0.variable_degree(u) as int;
                    &&& (#[trigger] g2.variables[u]).variable == g0.variables[u].variable
                    &&& g2.variable_degree(u) == d + occurrences(s.take(k + 1), u)
                    &&& g2.variables[u].fac_indices@.take(d) == g0.variables[u].fac_indices@
                    &&& g2.variables[u].fac_slots@.take(d) == g0.variables[u].fac_slots@
                    &&& g2.variables[u].outgoing@.take(d) == g0.variables[u].outgoing@
                    &&& g2.variables[u].incoming@.take(d) == g0.variables[u].incoming@
                } by {
                    let d = g0.variable_degree(u) as int;
                    assert(g1.variables[u].shaped());
                    if u == v {
                        assert(g2.variables[u].fac_indices@.take(d) =~= g1.variables[u].fac_indices@.take(d));
                        assert(g2.variables[u].fac_slots@.take(d) =~= g1.variables[u].fac_slots@.take(d));
                        assert(g2.variables[u].outgoing@.take(d) =~= g1.variables[u].outgoing@.take(d));
                        assert(g2.variables[u].incoming@.take(d) =~= g1.variables[u].incoming@.take(d));
                    }
                }
                assert forall|p: int| 0 <= p < k + 1 implies #[trigger] g2.var_slot_of(n as int, p)
                    == g0.variable_degree(s[p] as int) + occurrences(s.take(p), s[p] as int) by {
                    if p < k {
                        assert(g1.var_slot_of(n as int, p) == g2.var_slot_of(n as int, p));
                    }
                }
                assert forall|p: int| 0 <= p < k + 1 implies #[trigger] g2.factors[n as int].outgoing@[p]
                    == g2.factor_destination(n as int, p) by {
                    if p < k {
                        let u = g1.var_of(n as int, p);
                        let j = g1.var_slot_of(n as int, p);
                        assert(g1.variables[u].shaped());
                        assert(g2.var_of(n as int, p) == u);
                        assert(g2.var_slot_of(n as int, p) == j);
                        assert(0 <= j < g1.variable_degree(u));
                    }
                }
                assert forall|p: int| 0 <= p < k + 1 implies #[trigger] g2.factors[n as int].incoming@[p]
                    == g2.variables[g2.var_of(n as int, p)].outgoing@[g2.var_slot_of(n as int, p)] by {
                    if p < k {
                        let u = g1.var_of(n as int, p);
                        let j = g1.var_slot_of(n as int, p);
                        assert(g1.variables[u].shaped());
                        assert(g2.var_of(n as int, p) == u);
                        assert(g2.var_slot_of(n as int, p) == j);
                        assert(0 <= j < g1.variable_degree(u));
                    }
                }
                assert forall|p: int| 0 <= p < k + 1 implies {
                    &&& call_ensures(*message_initializer, (), #[trigger] g2.factors[n as int].incoming@[p])
                    &&& call_ensures(*message_initializer, (), g2.factors[n as int].outgoing@[p])
                } by {
                    if p < k {
                        assert(g1.factors[n as int].incoming@[p] == g2.factors[n as int].incoming@[p]);
                        assert(g1.factors[n as int].outgoing@[p] == g2.factors[n as int].outgoing@[p]);
                    }
                }
            }
            k = k + 1;
        }
        proof {
            assert(var_indices@.take(var_indices@.len() as int) =~= var_indices@);
            assert(n as int == old(self)@.factors.len());
            assert forall|p: int| 0 <= p < var_indices@.len() implies call_ensures(
                *message_initializer,
                (),
                #[trigger] self@.factors[n as int].outgoing@[p],
            ) by {
                assert(call_ensures(*message_initializer, (), self@.factors[n as int].incoming@[p]));
            }
        }
        let r: FGBuilderResult<()> = Ok(());
        assert(factor_checked(deg, var_indices@, old(self)@.variables.len() as usize, r));
        r
    }

    /// Hands the assembled nodes over as a factor graph.
    pub fn build(self) -> (r: FactorGraph<F, V>)
        requires
            self.wf(),
        ensures
            r.wf(),
            r@ == self@,
    {
        FactorGraph::from_parts(self.factors, self.variables)
    }
}

impl<F: Factor, V: Variable<Message = F::Message>> Default for FactorGraphBuilder<F, V> {
    /// An empty builder.
    fn default() -> (r: Self)
        ensures
            r.wf(),
            r@.factors.len() == 0,
            r@.variables.len() == 0,
    {
        Self::new()
    }
}

} // verus!
