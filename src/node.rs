//! Factor and variable nodes: a payload and one row per incident edge.
use crate::payload::{Factor, Variable};
use vstd::prelude::*;

verus! {

/// A factor node. Entry `k` of each vector describes the edge to the
/// factor's `k`-th neighbour.
pub struct FactorNode<F: Factor> {
    pub factor: F,
    /// Index of the `k`-th neighbour in the variable list.
    pub var_indices: Vec<usize>,
    /// Slot of the `k`-th edge in that variable's incoming messages.
    pub var_slots: Vec<usize>,
    /// Messages staged for the `k`-th neighbour.
    pub outgoing: Vec<F::Message>,
    /// Messages last received from the `k`-th neighbour.
    pub incoming: Vec<F::Message>,
}

/// A variable node. Entry `j` of each vector describes the edge to the
/// variable's `j`-th adjacent factor.
pub struct VariableNode<V: Variable> {
    pub variable: V,
    /// Index of the `j`-th adjacent factor in the factor list.
    pub fac_indices: Vec<usize>,
    /// Slot of the `j`-th edge in that factor's incoming messages.
    pub fac_slots: Vec<usize>,
    /// Messages staged for the `j`-th adjacent factor.
    pub outgoing: Vec<V::Message>,
    /// Messages last received from the `j`-th adjacent factor.
    pub incoming: Vec<V::Message>,
}

impl<F: Factor> FactorNode<F> {
    pub open spec fn deg(&self) -> nat {
        self.incoming@.len()
    }

    /// All per-edge vectors have one entry per edge.
    pub open spec fn shaped(&self) -> bool {
        &&& self.var_indices.len() == self.deg()
        &&& self.var_slots.len() == self.deg()
        &&& self.outgoing.len() == self.deg()
    }

    pub fn new_disconnected(factor: F) -> (r: Self)
        ensures
            r.factor == factor,
            r.deg() == 0,
            r.shaped(),
    {
        FactorNode {
            factor,
            var_indices: Vec::new(),
            var_slots: Vec::new(),
            outgoing: Vec::new(),
            incoming: Vec::new(),
        }
    }

    pub fn degree(&self) -> (r: usize)
        ensures
            r == self.deg(),
    {
        self.incoming.len()
    }
}

impl<V: Variable> VariableNode<V> {
    pub open spec fn deg(&self) -> nat {
        self.incoming@.len()
    }

    /// All per-edge vectors have one entry per edge.
    pub open spec fn shaped(&self) -> bool {
        &&& self.fac_indices.len() == self.deg()
        &&& self.fac_slots.len() == self.deg()
        &&& self.outgoing.len() == self.deg()
    }

    pub fn new_disconnected() -> (r: Self)
        ensures
            r.deg() == 0,
            r.shaped(),
    {
        VariableNode {
            variable: V::new(),
            fac_indices: Vec::new(),
            fac_slots: Vec::new(),
            outgoing: Vec::new(),
            incoming: Vec::new(),
        }
    }

    pub fn degree(&self) -> (r: usize)
        ensures
            r == self.deg(),
    {
        self.incoming.len()
    }
}

/// An element-for-element copy of `v`.
pub(crate) fn copy_vec<T: Copy>(v: &Vec<T>) -> (r: Vec<T>)
    ensures
        r@ == v@,
{
    let mut r: Vec<T> = Vec::with_capacity(v.len());
    let mut i: usize = 0;
    while i < v.len()
        invariant
            i <= v@.len(),
            r@ == v@.take(i as int),
        decreases v@.len() - i,
    {
        r.push(v[i]);
        i = i + 1;
        assert(r@ =~= v@.take(i as int));
    }
    assert(v@.take(v@.len() as int) =~= v@);
    r
}

impl<F: Factor + Clone> Clone for FactorNode<F> {
    /// Clones the payload and copies every incidence and message.
    fn clone(&self) -> (r: Self)
        ensures
            cloned(self.factor, r.factor),
            r.var_indices@ == self.var_indices@,
            r.var_slots@ == self.var_slots@,
            r.outgoing@ == self.outgoing@,
            r.incoming@ == self.incoming@,
    {
        FactorNode {
            factor: self.factor.clone(),
            var_indices: copy_vec(&self.var_indices),
            var_slots: copy_vec(&self.var_slots),
            outgoing: copy_vec(&self.outgoing),
            incoming: copy_vec(&self.incoming),
        }
    }
}

impl<V: Variable + Clone> Clone for VariableNode<V> {
    /// Clones the payload and copies every incidence and message.
    fn clone(&self) -> (r: Self)
        ensures
            cloned(self.variable, r.variable),
            r.fac_indices@ == self.fac_indices@,
            r.fac_slots@ == self.fac_slots@,
            r.outgoing@ == self.outgoing@,
            r.incoming@ == self.incoming@,
    {
        VariableNode {
            variable: self.variable.clone(),
            fac_indices: copy_vec(&self.fac_indices),
            fac_slots: copy_vec(&self.fac_slots),
            outgoing: copy_vec(&self.outgoing),
            incoming: copy_vec(&self.incoming),
        }
    }
}

} // verus!
