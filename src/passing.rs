//! The decisions of message passing and of decimation sampling.
//!
//! The numeric work of an iteration (evaluating updates, measuring
//! discrepancies, drawing samples) is done by the caller; these state
//! machines decide when a run stops, what it reports, and which variable is
//! frozen next.
use crate::error::{FGError, FGResult};
use crate::graph::{DiscrepancyOf, FactorGraph};
use crate::payload::{Factor, Variable};
use vstd::prelude::*;

verus! {

/// Report of a converged message passing run.
#[derive(Debug, Clone)]
pub struct MessagePassingInfo<D> {
    /// Index of the iteration at which the run converged.
    pub iterations_number: usize,
    /// Discrepancy of that iteration.
    pub last_discrepancy: D,
    /// Discrepancy of every iteration run.
    pub discrepancy_dynamics: Vec<D>,
}

/// Report of a completed decimation sampling.
#[derive(Debug, Clone)]
pub struct SamplingInfo<S> {
    /// The sample drawn for each variable, in variable order.
    pub samples: Vec<S>,
    /// Message passing iterations after freezing each variable.
    pub iterations_per_variable: Vec<usize>,
    /// Sum of `iterations_per_variable`.
    pub total_iterations_number: usize,
}

/// What a run does after an iteration has been recorded.
#[derive(Debug, Clone, Copy, PartialEq, Eq)]
pub enum PassingStep {
    /// Run another iteration.
    Continue,
    /// The last iteration met the threshold after the minimum number of
    /// iterations: the run succeeded.
    Converged,
    /// The iteration budget is spent without convergence.
    Exhausted,
}

/// Iteration `i` ends a run: its discrepancy was under the threshold and at
/// least `min` iterations have been run.
pub open spec fn converges_at(verdicts: Seq<bool>, min: nat, i: int) -> bool {
    verdicts[i] && i + 1 >= min
}

/// The control state of one message passing run.
pub struct PassingRun<D> {
    max_iterations_number: usize,
    min_iterations_number: usize,
    last_discrepancy: D,
    discrepancy_dynamics: Vec<D>,
    converged: bool,
    verdicts: Ghost<Seq<bool>>,
}

impl<D: Copy> PassingRun<D> {
    pub closed spec fn max_iterations(&self) -> nat {
        self.max_iterations_number as nat
    }

    pub closed spec fn min_iterations(&self) -> nat {
        self.min_iterations_number as nat
    }

    /// Discrepancy of every iteration recorded so far.
    pub closed spec fn history(&self) -> Seq<D> {
        self.discrepancy_dynamics@
    }

    /// For every iteration recorded so far, whether its discrepancy was
    /// under the threshold.
    pub closed spec fn verdicts(&self) -> Seq<bool> {
        self.verdicts@
    }

    /// Discrepancy of the last iteration, or the initial value before any.
    pub closed spec fn last(&self) -> D {
        self.last_discrepancy
    }

    /// The run has converged at its last recorded iteration.
    pub closed spec fn has_converged(&self) -> bool {
        self.converged
    }

    pub closed spec fn wf(&self) -> bool {
        let n = self.discrepancy_dynamics@.len();
        &&& self.verdicts@.len() == n
        &&& n <= self.max_iterations_number
        &&& self.converged <==> (n > 0 && converges_at(self.verdicts@, self.min_iterations_number as nat, n - 1))
        &&& forall|i: int| 0 <= i < n - 1 ==> !converges_at(self.verdicts@, self.min_iterations_number as nat, i)
        &&& n > 0 ==> self.last_discrepancy == self.discrepancy_dynamics@[n - 1]
    }

    /// No more iterations are to be run.
    pub open spec fn is_finished(&self) -> bool {
        self.has_converged() || self.history().len() >= self.max_iterations()
    }

    /// A run of at most `max_iterations_number` iterations that stops early
    /// once an iteration at index `i` with `i + 1 >= min_iterations_number`
    /// meets the threshold. `initial` is reported as the last discrepancy if
    /// no iteration is ever run.
    pub fn new(max_iterations_number: usize, min_iterations_number: usize, initial: D) -> (r: Self)
        ensures
            r.wf(),
            r.max_iterations() == max_iterations_number,
            r.min_iterations() == min_iterations_number,
            r.history().len() == 0,
            r.verdicts().len() == 0,
            r.last() == initial,
            !r.has_converged(),
    {
        PassingRun {
            max_iterations_number,
            min_iterations_number,
            last_discrepancy: initial,
            discrepancy_dynamics: Vec::new(),
            converged: false,
            verdicts: Ghost(Seq::empty()),
        }
    }

    /// The index of the next iteration to run, if the run goes on.
    pub fn next_iteration(&self) -> (r: Option<usize>)
        requires
            self.wf(),
        ensures
            self.is_finished() ==> r is None,
            !self.is_finished() ==> r == Some(self.history().len() as usize),
    {
        if self.converged || self.discrepancy_dynamics.len() >= self.max_iterations_number {
            None
        } else {
            Some(self.discrepancy_dynamics.len())
        }
    }

    /// Records an iteration whose largest discrepancy over all edges was
    /// `discrepancy`, which was under the threshold iff `below_threshold`.
    /// A finished run is left as it is.
    pub fn record(&mut self, discrepancy: D, below_threshold: bool) -> (r: PassingStep)
        requires
            old(self).wf(),
        ensures
            final(self).wf(),
            final(self).max_iterations() == old(self).max_iterations(),
            final(self).min_iterations() == old(self).min_iterations(),
            old(self).is_finished() ==> *final(self) == *old(self),
            !old(self).is_finished() ==> {
                &&& final(self).history() == old(self).history().push(discrepancy)
                &&& final(self).verdicts() == old(self).verdicts().push(below_threshold)
                &&& final(self).last() == discrepancy
                &&& final(self).has_converged() <==> converges_at(
                    final(self).verdicts(),
                    final(self).min_iterations(),
                    old(self).history().len() as int,
                )
            },
            r == PassingStep::Converged <==> final(self).has_converged(),
            r == PassingStep::Exhausted <==> (!final(self).has_converged() && final(self).is_finished()),
            r == PassingStep::Continue <==> !final(self).is_finished(),
    {
        if self.converged {
            return PassingStep::Converged;
        }
        if self.discrepancy_dynamics.len() >= self.max_iterations_number {
            return PassingStep::Exhausted;
        }
        let i = self.discrepancy_dynamics.len();
        let ghost before = self.verdicts@;
        self.discrepancy_dynamics.push(discrepancy);
        self.last_discrepancy = discrepancy;
        self.verdicts = Ghost(self.verdicts@.push(below_threshold));
        proof {
            let min = self.min_iterations_number as nat;
            assert forall|q: int| 0 <= q < i implies !converges_at(self.verdicts@, min, q) by {
                assert(self.verdicts@[q] == before[q]);
                if q < i - 1 {
                    assert(!converges_at(before, min, q));
                }
            }
        }
        if below_threshold && i + 1 >= self.min_iterations_number {
            self.converged = true;
            PassingStep::Converged
        } else if i + 1 >= self.max_iterations_number {
            PassingStep::Exhausted
        } else {
            PassingStep::Continue
        }
    }

    /// The outcome of the run: its report if it converged, else the
    /// failure with the configured iteration budget.
    pub fn finish(self) -> (r: FGResult<MessagePassingInfo<D>, D>)
        requires
            self.wf(),
        ensures
            self.has_converged() ==> (r matches Ok(info) && {
                &&& info.iterations_number == self.history().len() - 1
                &&& info.last_discrepancy == self.last()
                &&& info.discrepancy_dynamics@ == self.history()
                &&& converges_at(self.verdicts(), self.min_iterations(), info.iterations_number as int)
                &&& forall|i: int|
                    0 <= i < info.iterations_number ==> !converges_at(self.verdicts(), self.min_iterations(), i)
            }),
            !self.has_converged() ==> (r matches Err(FGError::MessagePassingError {
                iterations_number,
                last_discrepancy,
                discrepancy_dynamics,
            }) && {
                &&& iterations_number == self.max_iterations()
                &&& last_discrepancy == self.last()
                &&& discrepancy_dynamics@ == self.history()
                &&& forall|i: int|
                    0 <= i < self.history().len() ==> !converges_at(self.verdicts(), self.min_iterations(), i)
            }),
    {
        if self.converged {
            Ok(MessagePassingInfo {
                iterations_number: self.discrepancy_dynamics.len() - 1,
                last_discrepancy: self.last_discrepancy,
                discrepancy_dynamics: self.discrepancy_dynamics,
            })
        } else {
            Err(FGError::MessagePassingError {
                iterations_number: self.max_iterations_number,
                last_discrepancy: self.last_discrepancy,
                discrepancy_dynamics: self.discrepancy_dynamics,
            })
        }
    }
}

/// The sum of `s`.
pub open spec fn total(s: Seq<usize>) -> nat
    decreases s.len(),
{
    if s.len() == 0 {
        0
    } else {
        (total(s.drop_last()) + s.last()) as nat
    }
}

/// The progress of decimation sampling: variables are sampled in index
/// order, each one is frozen to its sample, and message passing is run
/// again before the next one is sampled.
pub struct Decimation<S> {
    variables_number: usize,
    samples: Vec<S>,
    iterations_per_variable: Vec<usize>,
    total_iterations_number: usize,
}

impl<S: Copy> Decimation<S> {
    pub closed spec fn variables_count(&self) -> nat {
        self.variables_number as nat
    }

    /// The samples drawn so far; the `i`-th is that of variable `i`.
    pub closed spec fn samples(&self) -> Seq<S> {
        self.samples@
    }

    /// Iterations of each completed message passing run.
    pub closed spec fn iterations(&self) -> Seq<usize> {
        self.iterations_per_variable@
    }

    pub closed spec fn wf(&self) -> bool {
        &&& self.samples@.len() <= self.variables_number
        &&& self.iterations_per_variable@.len() <= self.samples@.len()
        &&& self.samples@.len() <= self.iterations_per_variable@.len() + 1
        &&& self.total_iterations_number == total(self.iterations_per_variable@)
    }

    /// The next variable is to be sampled and frozen.
    pub open spec fn awaiting_sample(&self) -> bool {
        self.iterations().len() == self.samples().len() && self.samples().len() < self.variables_count()
    }

    /// The last frozen variable awaits its message passing run.
    pub open spec fn awaiting_run(&self) -> bool {
        self.samples().len() == self.iterations().len() + 1
    }

    /// Sampling of `variables_number` variables, none sampled yet.
    pub fn new(variables_number: usize) -> (r: Self)
        ensures
            r.wf(),
            r.variables_count() == variables_number,
            r.samples().len() == 0,
            r.iterations().len() == 0,
    {
        Decimation {
            variables_number,
            samples: Vec::with_capacity(variables_number),
            iterations_per_variable: Vec::with_capacity(variables_number),
            total_iterations_number: 0,
        }
    }

    /// The index of the variable to sample next, if one is due.
    pub fn next_variable(&self) -> (r: Option<usize>)
        requires
            self.wf(),
        ensures
            self.awaiting_sample() ==> r == Some(self.samples().len() as usize),
            !self.awaiting_sample() ==> r is None,
    {
        if self.iterations_per_variable.len() == self.samples.len() && self.samples.len() < self.variables_number {
            Some(self.samples.len())
        } else {
            None
        }
    }

    /// Iterations run so far over all completed runs.
    pub fn total_iterations_number(&self) -> (r: usize)
        requires
            self.wf(),
        ensures
            r == total(self.iterations()),
    {
        self.total_iterations_number
    }

    /// Records `sample` for the next variable and freezes that variable
    /// of `graph` to it.
    pub fn freeze_next<F: Factor, V: Variable<Message = F::Message, Sample = S>>(
        &mut self,
        graph: &mut FactorGraph<F, V>,
        sample: S,
    ) -> (r: FGResult<(), DiscrepancyOf<F>>)
        requires
            old(self).wf(),
            old(self).awaiting_sample(),
            old(graph).wf(),
        ensures
            final(self).wf(),
            final(graph).wf(),
            final(self).variables_count() == old(self).variables_count(),
            final(self).iterations() == old(self).iterations(),
            r is Ok ==> final(self).samples() == old(self).samples().push(sample),
            r is Ok ==> FactorGraph::<F, V>::frozen(
                old(graph)@,
                final(graph)@,
                old(self).samples().len() as int,
            ),
            r is Err ==> *final(self) == *old(self) && final(graph)@ == old(graph)@,
            r is Err <==> old(self).samples().len() >= old(graph)@.variables.len(),
    {
        let i = self.samples.len();
        let r = graph.freeze_variable(&sample, i);
        if r.is_ok() {
            self.samples.push(sample);
        }
        r
    }

    /// Records that message passing after the last freeze converged after
    /// `iterations_number` iterations.
    pub fn record_run(&mut self, iterations_number: usize)
        requires
            old(self).wf(),
            old(self).awaiting_run(),
            total(old(self).iterations()) + iterations_number <= usize::MAX,
        ensures
            final(self).wf(),
            final(self).variables_count() == old(self).variables_count(),
            final(self).samples() == old(self).samples(),
            final(self).iterations() == old(self).iterations().push(iterations_number),
    {
        let ghost before = self.iterations_per_variable@;
        self.iterations_per_variable.push(iterations_number);
        self.total_iterations_number = self.total_iterations_number + iterations_number;
        assert(self.iterations_per_variable@.drop_last() =~= before);
    }

    /// What [`Decimation::fail`] turns `error` into.
    pub open spec fn failure_of<D>(&self, error: FGError<D>) -> FGError<D> {
        match error {
            FGError::MessagePassingError { iterations_number, last_discrepancy, discrepancy_dynamics } => {
                FGError::SamplingError {
                    variables_number: (self.samples().len() - 1) as usize,
                    total_iterations_number: (total(self.iterations()) + iterations_number) as usize,
                    last_discrepancy,
                    discrepancy_dynamics,
                }
            },
            _ => error,
        }
    }

    /// The iterations of all runs, the failed one included, fit in a `usize`.
    pub open spec fn failure_fits<D>(&self, error: FGError<D>) -> bool {
        match error {
            FGError::MessagePassingError { iterations_number, .. } => total(self.iterations())
                + iterations_number <= usize::MAX,
            _ => true,
        }
    }

    /// The error that ends sampling when message passing after the last
    /// freeze failed with `error`: a non-convergence becomes a sampling
    /// failure that counts the variables frozen before the last one and
    /// all iterations run; other errors pass through.
    pub fn fail<D>(self, error: FGError<D>) -> (r: FGError<D>)
        requires
            self.wf(),
            self.awaiting_run(),
            self.failure_fits(error),
        ensures
            r == self.failure_of(error),
    {
        match error {
            FGError::MessagePassingError { iterations_number, last_discrepancy, discrepancy_dynamics } => {
                FGError::SamplingError {
                    variables_number: self.samples.len() - 1,
                    total_iterations_number: self.total_iterations_number + iterations_number,
                    last_discrepancy,
                    discrepancy_dynamics,
                }
            },
            other => other,
        }
    }

    /// The samples and iteration counts recorded.
    pub fn finish(self) -> (r: SamplingInfo<S>)
        requires
            self.wf(),
        ensures
            r.samples@ == self.samples(),
            r.iterations_per_variable@ == self.iterations(),
            r.total_iterations_number == total(self.iterations()),
    {
        SamplingInfo {
            samples: self.samples,
            iterations_per_variable: self.iterations_per_variable,
            total_iterations_number: self.total_iterations_number,
        }
    }
}

} // verus!
