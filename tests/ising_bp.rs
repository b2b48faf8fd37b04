// End-to-end belief propagation on Ising models: the rules are written here
// in floating point, and the library does the wiring, the routing of
// messages and the control of each run.
use gmrs::{
    Decimation, FGError, Factor, FactorGraph, FactorGraphBuilder, Message, MessagePassingInfo, PassingRun,
    SamplingInfo, Variable,
};
use rand::rngs::StdRng;
use rand::seq::SliceRandom;
use rand::{Rng, SeedableRng};
use std::cell::RefCell;
use std::collections::VecDeque;

#[derive(Debug, Clone, Copy)]
struct Msg(f64);

impl Message for Msg {
    type Discrepancy = f64;

    fn discrepancy(&self, other: &Self) -> f64 {
        (self.0 - other.0).abs()
    }
}

/// Log-potentials `[uu, ud, du, dd]` of a coupling, or a clamp message.
#[derive(Debug, Clone)]
enum Fac {
    Coupling([f64; 4]),
    Clamp(f64),
}

impl Factor for Fac {
    type Message = Msg;

    fn degree(&self) -> usize {
        match self {
            Fac::Coupling(_) => 2,
            Fac::Clamp(_) => 1,
        }
    }

    fn from_message(message: &Msg) -> Self {
        Fac::Clamp(message.0)
    }
}

#[derive(Debug, Clone)]
struct Spin;

impl Variable for Spin {
    type Message = Msg;
    type Sample = i8;

    fn new() -> Self {
        Spin
    }

    fn sample_to_message(sample: &i8) -> Msg {
        match sample {
            1 => Msg(1e30),
            -1 => Msg(-1e30),
            other => panic!("unsupported sample {other}"),
        }
    }
}

#[derive(Debug, Clone, Copy, PartialEq)]
enum Rule {
    SumProduct,
    MaxProduct,
}

type Graph = FactorGraph<Fac, Spin>;

fn coupling(j: f64, h1: f64, h2: f64) -> Fac {
    Fac::Coupling([j + h1 + h2, -j + h1 - h2, -j - h1 + h2, j - h1 - h2])
}

fn sigmoid(x: f64) -> f64 {
    if x > 0. {
        1. / (1. + (-x).exp())
    } else {
        x.exp() / (1. + x.exp())
    }
}

fn log_sigmoid(x: f64) -> f64 {
    if x > 0. {
        -(1. + (-x).exp()).ln()
    } else {
        x - (1. + x.exp()).ln()
    }
}

fn log_sum_exp(x: f64, y: f64) -> f64 {
    if x > y {
        x + (1. + (y - x).exp()).ln()
    } else {
        y + (1. + (x - y).exp()).ln()
    }
}

/// Message sent along an edge given the message `m` received on the other
/// edge and the log-potentials indexed by (out, in).
fn edge_update(rule: Rule, m: f64, prev: f64, ou_iu: f64, ou_id: f64, od_iu: f64, od_id: f64, gamma: f64) -> f64 {
    let up = log_sigmoid(m);
    let down = log_sigmoid(-m);
    let new = match rule {
        Rule::SumProduct => log_sum_exp(ou_iu + up, ou_id + down) - log_sum_exp(od_iu + up, od_id + down),
        Rule::MaxProduct => (ou_iu + up).max(ou_id + down) - (od_iu + up).max(od_id + down),
    };
    (1. - gamma) * new + gamma * prev
}

fn factor_update(rule: Rule, factor: &Fac, incoming: &[Msg], outgoing: &[Msg], gamma: f64) -> Vec<Msg> {
    match factor {
        Fac::Coupling([uu, ud, du, dd]) => vec![
            Msg(edge_update(rule, incoming[1].0, outgoing[0].0, *uu, *ud, *du, *dd, gamma)),
            Msg(edge_update(rule, incoming[0].0, outgoing[1].0, *uu, *du, *ud, *dd, gamma)),
        ],
        Fac::Clamp(m) => vec![Msg(*m)],
    }
}

fn variable_update(incoming: &[Msg], outgoing: &[Msg], gamma: f64) -> Vec<Msg> {
    let sum: f64 = incoming.iter().map(|m| m.0).sum();
    incoming.iter().zip(outgoing).map(|(i, o)| Msg((1. - gamma) * (sum - i.0) + gamma * o.0)).collect()
}

fn run(
    fg: &mut Graph,
    rule: Rule,
    max_iterations: usize,
    threshold: f64,
    gamma: f64,
) -> Result<MessagePassingInfo<f64>, FGError<f64>> {
    let mut run = PassingRun::new(max_iterations, 0, f64::MAX);
    while run.next_iteration().is_some() {
        let mut delta = 0f64;
        let staged: Vec<Vec<Msg>> = (0..fg.factors_number())
            .map(|f| {
                let node = fg.factor_node(f);
                let out = factor_update(rule, &node.factor, &node.incoming, &node.outgoing, gamma);
                for (k, m) in out.iter().enumerate() {
                    delta = delta.max(m.discrepancy(&fg.factor_destination(f, k)));
                }
                out
            })
            .collect();
        fg.deliver_factor_messages(staged);
        let staged: Vec<Vec<Msg>> = (0..fg.variables_number())
            .map(|v| {
                let node = fg.variable_node(v);
                let out = variable_update(&node.incoming, &node.outgoing, gamma);
                for (j, m) in out.iter().enumerate() {
                    delta = delta.max(m.discrepancy(&fg.variable_destination(v, j)));
                }
                out
            })
            .collect();
        fg.deliver_variable_messages(staged);
        run.record(delta, delta < threshold);
    }
    run.finish()
}

fn variable_marginals(fg: &Graph) -> Vec<[f64; 2]> {
    (0..fg.variables_number())
        .map(|v| {
            let p = sigmoid(fg.variable_node(v).incoming.iter().map(|m| m.0).sum());
            [p, 1. - p]
        })
        .collect()
}

/// Joint marginal of a coupling factor, `[uu, ud, du, dd]`.
fn factor_marginal(fg: &Graph, f: usize) -> [f64; 4] {
    let node = fg.factor_node(f);
    let Fac::Coupling([uu, ud, du, dd]) = node.factor else { panic!("not a coupling") };
    let (m1, m2) = (node.incoming[0].0, node.incoming[1].0);
    let p = [
        (uu + log_sigmoid(m1) + log_sigmoid(m2)).exp(),
        (ud + log_sigmoid(m1) + log_sigmoid(-m2)).exp(),
        (du + log_sigmoid(-m1) + log_sigmoid(m2)).exp(),
        (dd + log_sigmoid(-m1) + log_sigmoid(-m2)).exp(),
    ];
    let z: f64 = p.iter().sum();
    p.map(|x| x / z)
}

fn factor_tensor(fg: &Graph, f: usize) -> [f64; 4] {
    let Fac::Coupling(l) = fg.factor_node(f).factor else { panic!("not a coupling") };
    l.map(f64::exp)
}

fn sample(
    fg: &mut Graph,
    rule: Rule,
    max_iterations: usize,
    threshold: f64,
    gamma: f64,
    rng: &mut impl Rng,
) -> Result<SamplingInfo<i8>, FGError<f64>> {
    let mut decimation = Decimation::new(fg.variables_number());
    while let Some(i) = decimation.next_variable() {
        let sum: f64 = fg.variable_node(i).incoming.iter().map(|m| m.0).sum();
        let s = match rule {
            Rule::SumProduct => {
                if rng.gen::<f64>() < sigmoid(sum) {
                    1
                } else {
                    -1
                }
            }
            Rule::MaxProduct => {
                if sum > 0. {
                    1
                } else {
                    -1
                }
            }
        };
        decimation.freeze_next(fg, s)?;
        match run(fg, rule, max_iterations, threshold, gamma) {
            Ok(info) => decimation.record_run(info.iterations_number),
            Err(e) => return Err(decimation.fail(e)),
        }
    }
    Ok(decimation.finish())
}

fn uniform_initializer(rng: impl Rng, lower: f64, upper: f64) -> impl Fn() -> Msg {
    let rng = RefCell::new(rng);
    move || Msg(rng.borrow_mut().gen_range(lower..upper))
}

fn entropy(p: f64) -> f64 {
    -p * p.ln() - (1. - p) * (1. - p).ln()
}

fn bethe_factor_term(fm: &[f64; 4], f: &[f64; 4]) -> f64 {
    fm.iter().zip(f).map(|(p, q)| p * (p / q).ln()).sum()
}

#[test]
fn two_spin_sum_product() {
    let init = uniform_initializer(rand::thread_rng(), -0.5, 0.5);
    let mut fgb = FactorGraphBuilder::<Fac, Spin>::new_with_variables(2, 1);
    fgb.add_factor(coupling(0.5, 0.5, -0.5), &[0, 1], &init).unwrap();
    let mut fg = fgb.build();
    run(&mut fg, Rule::SumProduct, 100, 1e-10, 0.5).unwrap();
    let marginals = variable_marginals(&fg);
    let exact0 = (0.5f64.exp() + 0.5f64.exp()) / ((-1.5f64).exp() + 0.5f64.exp());
    assert!((marginals[0][0] / marginals[0][1] - exact0).abs() < 1e-8);
    let exact1 = (0.5f64.exp() + (-1.5f64).exp()) / (0.5f64.exp() + 0.5f64.exp());
    assert!((marginals[1][0] / marginals[1][1] - exact1).abs() < 1e-8);
    let exact = [0.5f64.exp(), 0.5f64.exp(), (-1.5f64).exp(), 0.5f64.exp()];
    let z: f64 = exact.iter().sum();
    let fm = factor_marginal(&fg, 0);
    let dist: f64 = fm.iter().zip(exact).map(|(a, b)| (a - b / z).powi(2)).sum::<f64>().sqrt();
    assert!(dist < 1e-8);
    let f = factor_tensor(&fg, 0);
    let dist: f64 = f.iter().zip(exact).map(|(a, b)| (a - b).powi(2)).sum::<f64>().sqrt();
    assert!(dist < 1e-8);
}

#[test]
fn frozen_spin_has_point_mass_marginal() {
    let init = uniform_initializer(rand::thread_rng(), -0.5, 0.5);
    let mut fgb = FactorGraphBuilder::<Fac, Spin>::new_with_variables(2, 2);
    fgb.add_factor(coupling(0.5, 0.5, -0.5), &[0, 1], &init).unwrap();
    let mut fg = fgb.build();
    fg.freeze_variable(&1, 1).unwrap();
    assert_eq!(fg.get_variable_degrees(), vec![1, 2]);
    assert_eq!(fg.get_factor_degrees(), vec![2, 1]);
    run(&mut fg, Rule::SumProduct, 100, 1e-10, 0.).unwrap();
    let marginals = variable_marginals(&fg);
    assert!((marginals[0][0] / marginals[0][1] - 2f64.exp()).abs() < 1e-8);
    assert!(marginals[1][1].abs() < 1e-8);
}

#[test]
fn clone_gives_identical_marginals() {
    let init = uniform_initializer(StdRng::seed_from_u64(7), -0.5, 0.5);
    let mut fgb = FactorGraphBuilder::<Fac, Spin>::new_with_variables(4, 3);
    for i in 0..3 {
        fgb.add_factor(coupling(0.5, 0.5, -0.5), &[i, 3], &init).unwrap();
    }
    let mut fg = fgb.build();
    let mut copy = fg.clone();
    run(&mut fg, Rule::SumProduct, 100, 1e-10, 0.5).unwrap();
    run(&mut copy, Rule::SumProduct, 100, 1e-10, 0.5).unwrap();
    assert_eq!(variable_marginals(&fg), variable_marginals(&copy));
}

#[test]
fn sampling_clamps_every_spin() {
    let init = uniform_initializer(rand::thread_rng(), -0.5, 0.5);
    let mut fgb = FactorGraphBuilder::<Fac, Spin>::new_with_variables(2, 3);
    fgb.add_factor(coupling(0.5, 0.5, -0.5), &[0, 1], &init).unwrap();
    let mut fg = fgb.build();
    run(&mut fg, Rule::SumProduct, 100, 1e-10, 0.).unwrap();
    let info = sample(&mut fg, Rule::SumProduct, 100, 1e-10, 0., &mut rand::thread_rng()).unwrap();
    assert_eq!(fg.get_variable_degrees(), vec![2, 2]);
    assert_eq!(fg.get_factor_degrees(), vec![2, 1, 1]);
    let marginals = variable_marginals(&fg);
    for (v, s) in info.samples.iter().enumerate() {
        assert!((marginals[v][((1 - s) / 2) as usize] - 1.).abs() < 1e-8);
    }
    assert_eq!(info.iterations_per_variable.iter().sum::<usize>(), info.total_iterations_number);
}

#[test]
fn non_convergence_is_reported() {
    let init = uniform_initializer(rand::thread_rng(), -0.5, 0.5);
    let mut fgb = FactorGraphBuilder::<Fac, Spin>::new_with_variables(2, 1);
    fgb.add_factor(coupling(0.5, 0.5, -0.5), &[0, 1], &init).unwrap();
    let mut fg = fgb.build();
    match run(&mut fg, Rule::SumProduct, 1, 0., 0.5) {
        Err(FGError::MessagePassingError { iterations_number, discrepancy_dynamics, .. }) => {
            assert_eq!(iterations_number, 1);
            assert_eq!(discrepancy_dynamics.len(), 1);
        }
        other => panic!("unexpected {:?}", other),
    }
}

fn exact_infinite_1d_ising_up_probability(coupling: f64, field: f64, error: f64) -> (f64, f64) {
    let f = |x: f64| (1. / coupling) * (coupling.tanh() * (coupling * x).tanh()).atanh();
    let mut old_u = f64::MAX;
    let mut new_u = f64::MIN;
    while (old_u - new_u).abs() > error {
        old_u = new_u;
        new_u = f(old_u + field / coupling);
    }
    let mid = 2. * coupling * new_u + field;
    let boundary = coupling * new_u + field;
    (sigmoid(2. * mid), sigmoid(2. * boundary))
}

fn exact_infinite_1d_ising_free_entropy(coupling: f64, field: f64) -> f64 {
    (coupling.exp() * field.cosh() + ((2. * coupling).exp() * field.sinh().powi(2) + (-2. * coupling).exp()).sqrt()).ln()
}

#[test]
fn ising_1d_test() {
    let n = 101;
    let (j, h, error) = (1.1f64, 0.3f64, 1e-10f64);
    let init = uniform_initializer(rand::thread_rng(), -0.5, 0.5);
    let mut fgb = FactorGraphBuilder::<Fac, Spin>::new_with_variables(n, n - 1);
    fgb.add_factor(coupling(0., 0., h), &[n - 2, n - 1], &init).unwrap();
    for i in 0..(n - 1) {
        fgb.add_factor(coupling(j, h, 0.), &[i, i + 1], &init).unwrap();
    }
    let mut fg = fgb.build();
    run(&mut fg, Rule::SumProduct, 1000, error, 0.5).unwrap();
    let marginals = variable_marginals(&fg);
    let (mid, boundary) = exact_infinite_1d_ising_up_probability(j, h, error);
    assert!((mid - marginals[n / 2 + 1][0]).abs() < error * 10., "Error amplitude: {}", (mid - marginals[n / 2 + 1][0]).abs());
    assert!((boundary - marginals[0][0]).abs() < error * 10., "Error amplitude: {}", (boundary - marginals[0][0]).abs());
    let fm = factor_marginal(&fg, n / 2);
    let f = factor_tensor(&fg, n / 2);
    let vm = marginals[n / 2];
    let bethe = -bethe_factor_term(&fm, &f) + vm.iter().map(|p| p * p.ln()).sum::<f64>();
    assert!((bethe - exact_infinite_1d_ising_free_entropy(j, h)).abs() < error * 10.);
}

fn exact_curie_weiss_up_probability(coupling: f64, field: f64, error: f64) -> f64 {
    let mut old_u = f64::MAX;
    let mut new_u = f64::MIN;
    while (old_u - new_u).abs() > error {
        old_u = new_u;
        new_u = (coupling * old_u + field).tanh();
    }
    (new_u + 1.) / 2.
}

#[test]
fn curie_weiss_test() {
    let n = 100;
    let (j, h, error) = (1.1234f64, 0.7654f64, 1e-10f64);
    let init = uniform_initializer(rand::thread_rng(), -0.5, 0.5);
    let mut fgb = FactorGraphBuilder::<Fac, Spin>::new_with_variables(n, (n - 1) * n / 2);
    for a in 0..n {
        for b in (a + 1)..n {
            fgb.add_factor(coupling(j / n as f64, h / (n - 1) as f64, h / (n - 1) as f64), &[a, b], &init).unwrap();
        }
    }
    let mut fg = fgb.build();
    run(&mut fg, Rule::SumProduct, 10000, error, 0.5).unwrap();
    let marginals = variable_marginals(&fg);
    let exact_up = exact_curie_weiss_up_probability(j, h, error);
    assert!((marginals[n / 2][0] - exact_up).abs() < 1e-2);
    let mut bethe = 0f64;
    for f in 0..fg.factors_number() {
        bethe -= bethe_factor_term(&factor_marginal(&fg, f), &factor_tensor(&fg, f));
    }
    for vm in &marginals {
        bethe += (n - 2) as f64 * vm.iter().map(|p| p * p.ln()).sum::<f64>();
    }
    let m = 2. * exact_up - 1.;
    let exact_entropy = 0.5 * j * m * m + h * m + entropy((1. + m) / 2.);
    assert!((bethe / n as f64 - exact_entropy).abs() < 1e-2);
}

#[test]
fn ising_2d_test() {
    let size = 20;
    let (j, h, error) = (-0.7123f64, 0f64, 1e-10f64);
    let init = uniform_initializer(StdRng::seed_from_u64(42), -0.5, 0.5);
    let mut fgb = FactorGraphBuilder::<Fac, Spin>::new_with_variables(size * size, 2 * size * size);
    for a in 0..size {
        for b in 0..size {
            fgb.add_factor(coupling(j, h / 4., h / 4.), &[b + a * size, (b + 1) % size + a * size], &init).unwrap();
            fgb.add_factor(coupling(j, h / 4., h / 4.), &[b + a * size, b + ((a + 1) % size) * size], &init).unwrap();
        }
    }
    let mut fg = fgb.build();
    run(&mut fg, Rule::SumProduct, 10000, error, 0.5).unwrap();
    let marginals = variable_marginals(&fg);
    let calculated = marginals[0][0].max(marginals[0][1]);
    let spin = (1. - (2. * j).sinh().powf(-4.)).powf(1. / 8.);
    let exact = (spin + 1.) / 2.;
    for a in 0..size {
        for b in 0..size {
            assert!((marginals[size * a + b][0] + marginals[size * a + (b + 1) % size][0] - 1.).abs() < 1e-5);
        }
    }
    assert!((calculated - exact).abs() < 1e-4, "{calculated}, {exact}");
}

struct RandomTree {
    edges: Vec<[usize; 2]>,
    weights: Vec<f64>,
    argmax: Vec<i8>,
}

fn energy(config: &[i8], edges: &[[usize; 2]], weights: &[f64]) -> f64 {
    edges.iter().zip(weights).map(|([a, b], w)| config[*a] as f64 * config[*b] as f64 * w).sum()
}

fn random_tree(rng: &mut impl Rng, nodes: usize, max_degree: usize) -> RandomTree {
    let mut edges = Vec::new();
    let mut weights = Vec::new();
    let mut argmax = vec![-1i8];
    let mut queue = VecDeque::from([0usize]);
    let mut max_node = 0;
    while let Some(current) = queue.pop_back() {
        if nodes <= max_node + 1 {
            break;
        }
        let children = rng.gen_range(1..max_degree).min(nodes - max_node - 1);
        let state = argmax[current];
        for i in 0..children {
            let new_node = max_node + i + 1;
            let weight = 2. * rng.gen::<f64>() - 1.;
            let mut edge = [current, new_node];
            edge.shuffle(rng);
            edges.push(edge);
            weights.push(weight);
            queue.push_front(new_node);
            argmax.push(if weight > 0. { state } else { -state });
        }
        max_node += children;
    }
    let mut order: Vec<usize> = (0..edges.len()).collect();
    order.shuffle(rng);
    RandomTree {
        edges: order.iter().map(|i| edges[*i]).collect(),
        weights: order.iter().map(|i| weights[*i]).collect(),
        argmax,
    }
}

#[test]
fn maxcut_random_tree_test() {
    let mut rng = rand::thread_rng();
    let n = 100;
    let RandomTree { edges, weights, argmax } = random_tree(&mut rng, n, 6);
    let init = uniform_initializer(rand::thread_rng(), -1., 1.);
    let mut fgb = FactorGraphBuilder::<Fac, Spin>::new_with_variables(n, n - 1);
    for (edge, weight) in edges.iter().zip(&weights) {
        fgb.add_factor(coupling(*weight, 0., 0.), edge, &init).unwrap();
    }
    let mut fg = fgb.build();
    run(&mut fg, Rule::MaxProduct, 1000, 1e-10, 0.2).unwrap();
    let mut found = 0.;
    for f in 0..fg.factors_number() {
        let fm = factor_marginal(&fg, f);
        let tensor = factor_tensor(&fg, f);
        let best = (0..4).fold(0, |b, i| if fm[i] > fm[b] { i } else { b });
        found += tensor[best].ln();
    }
    let exact = energy(&argmax, &edges, &weights);
    assert!((found - exact).abs() < 1e-10);
    let info = sample(&mut fg, Rule::MaxProduct, 1000, 1e-10, 0.2, &mut rng).unwrap();
    assert!((energy(&info.samples, &edges, &weights) - exact).abs() < 1e-10);
}
