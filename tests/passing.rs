use gmrs::{Decimation, Factor, FactorGraphBuilder, FGError, Message, PassingRun, PassingStep, Variable};

#[test]
fn run_converges_at_first_iteration_under_threshold() {
    let mut run = PassingRun::new(10, 0, 99u32);
    assert_eq!(run.next_iteration(), Some(0));
    assert_eq!(run.record(8, false), PassingStep::Continue);
    assert_eq!(run.next_iteration(), Some(1));
    assert_eq!(run.record(3, true), PassingStep::Converged);
    assert_eq!(run.next_iteration(), None);
    // a finished run ignores further records
    assert_eq!(run.record(1, true), PassingStep::Converged);
    let info = run.finish().unwrap();
    assert_eq!(info.iterations_number, 1);
    assert_eq!(info.last_discrepancy, 3);
    assert_eq!(info.discrepancy_dynamics, vec![8, 3]);
}

#[test]
fn run_waits_for_minimum_iterations() {
    let mut run = PassingRun::new(10, 3, 99u32);
    assert_eq!(run.record(1, true), PassingStep::Continue);
    assert_eq!(run.record(1, true), PassingStep::Continue);
    assert_eq!(run.record(1, true), PassingStep::Converged);
    let info = run.finish().unwrap();
    assert_eq!(info.iterations_number, 2);
    assert_eq!(info.discrepancy_dynamics.len(), 3);
}

#[test]
fn run_fails_when_budget_is_spent() {
    let mut run = PassingRun::new(3, 0, 99u32);
    assert_eq!(run.record(5, false), PassingStep::Continue);
    assert_eq!(run.record(4, false), PassingStep::Continue);
    assert_eq!(run.record(3, false), PassingStep::Exhausted);
    assert_eq!(run.next_iteration(), None);
    assert_eq!(run.record(0, true), PassingStep::Exhausted);
    match run.finish() {
        Err(FGError::MessagePassingError { iterations_number, last_discrepancy, discrepancy_dynamics }) => {
            assert_eq!(iterations_number, 3);
            assert_eq!(last_discrepancy, 3);
            assert_eq!(discrepancy_dynamics, vec![5, 4, 3]);
        }
        other => panic!("unexpected {:?}", other),
    }
}

#[test]
fn run_without_budget_reports_initial_discrepancy() {
    let mut run = PassingRun::new(0, 0, 99u32);
    assert_eq!(run.next_iteration(), None);
    assert_eq!(run.record(1, true), PassingStep::Exhausted);
    match run.finish() {
        Err(FGError::MessagePassingError { iterations_number, last_discrepancy, discrepancy_dynamics }) => {
            assert_eq!(iterations_number, 0);
            assert_eq!(last_discrepancy, 99);
            assert!(discrepancy_dynamics.is_empty());
        }
        other => panic!("unexpected {:?}", other),
    }
}

#[derive(Debug, Clone, Copy, PartialEq)]
struct Spin(i64);

#[derive(Debug, Clone)]
struct Link(usize);

#[derive(Debug, Clone)]
struct Site;

impl Message for Spin {
    type Discrepancy = u64;

    fn discrepancy(&self, other: &Self) -> u64 {
        self.0.abs_diff(other.0)
    }
}

impl Factor for Link {
    type Message = Spin;

    fn degree(&self) -> usize {
        self.0
    }

    fn from_message(_: &Spin) -> Self {
        Link(1)
    }
}

impl Variable for Site {
    type Message = Spin;
    type Sample = i8;

    fn new() -> Self {
        Site
    }

    fn sample_to_message(sample: &i8) -> Spin {
        Spin(*sample as i64 * 1000)
    }
}

#[test]
fn decimation_freezes_each_variable_in_turn() {
    let mut fgb = FactorGraphBuilder::<Link, Site>::new_with_variables(3, 2);
    fgb.add_factor(Link(2), &[0, 1], &|| Spin(0)).unwrap();
    fgb.add_factor(Link(2), &[1, 2], &|| Spin(0)).unwrap();
    let mut fg = fgb.build();
    let mut decimation = Decimation::new(fg.variables_number());
    let draws = [1i8, -1, 1];
    let runs = [4usize, 2, 5];
    while let Some(i) = decimation.next_variable() {
        decimation.freeze_next(&mut fg, draws[i]).unwrap();
        assert_eq!(decimation.next_variable(), None);
        decimation.record_run(runs[i]);
    }
    assert_eq!(decimation.total_iterations_number(), 11);
    let info = decimation.finish();
    assert_eq!(info.samples, vec![1, -1, 1]);
    assert_eq!(info.iterations_per_variable, vec![4, 2, 5]);
    assert_eq!(info.total_iterations_number, 11);
    assert_eq!(fg.get_variable_degrees(), vec![2, 3, 2]);
    assert_eq!(fg.get_factor_degrees(), vec![2, 2, 1, 1, 1]);
    assert_eq!(*fg.variable_node(1).incoming.last().unwrap(), Spin(-1000));
    assert_eq!(fg.factor_node(4).incoming, [Spin(1000)]);
}

#[test]
fn decimation_failure_counts_frozen_variables_and_iterations() {
    let mut fgb = FactorGraphBuilder::<Link, Site>::new_with_variables(2, 1);
    fgb.add_factor(Link(2), &[0, 1], &|| Spin(0)).unwrap();
    let mut fg = fgb.build();
    let mut decimation = Decimation::new(2);
    decimation.freeze_next(&mut fg, 1).unwrap();
    decimation.record_run(6);
    decimation.freeze_next(&mut fg, -1).unwrap();
    let failure = FGError::MessagePassingError {
        iterations_number: 10,
        last_discrepancy: 0.5f64,
        discrepancy_dynamics: vec![0.7, 0.5],
    };
    match decimation.fail(failure) {
        FGError::SamplingError {
            variables_number,
            total_iterations_number,
            last_discrepancy,
            discrepancy_dynamics,
        } => {
            assert_eq!(variables_number, 1);
            assert_eq!(total_iterations_number, 16);
            assert_eq!(last_discrepancy, 0.5);
            assert_eq!(discrepancy_dynamics, vec![0.7, 0.5]);
        }
        other => panic!("unexpected {:?}", other),
    }
}

#[test]
fn decimation_passes_other_errors_through() {
    let mut fgb = FactorGraphBuilder::<Link, Site>::new_with_variables(1, 0);
    fgb.add_variable();
    let mut fg = fgb.build();
    let mut decimation = Decimation::new(1);
    decimation.freeze_next(&mut fg, 1).unwrap();
    let error: FGError<u64> = FGError::OutOfRangeVariable(1, 5);
    assert!(matches!(decimation.fail(error), FGError::OutOfRangeVariable(1, 5)));
}

#[test]
fn decimation_reports_variable_missing_from_graph() {
    let mut fg = FactorGraphBuilder::<Link, Site>::new_with_variables(1, 0).build();
    let mut decimation = Decimation::new(2);
    decimation.freeze_next(&mut fg, 1).unwrap();
    decimation.record_run(0);
    assert_eq!(decimation.next_variable(), Some(1));
    let r = decimation.freeze_next(&mut fg, 1);
    assert!(matches!(r, Err(FGError::OutOfRangeVariable(1, 1))));
    assert_eq!(decimation.next_variable(), Some(1));
}
