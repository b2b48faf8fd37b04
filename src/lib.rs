//! Belief propagation on pairwise factor graphs over discrete variables.
//!
//! The library keeps the graph's wiring and message storage, checks every
//! change of topology, routes messages along edges and drives the control
//! flow of message passing and of decimation sampling. The numeric update
//! rules are supplied through the [`Factor`], [`Variable`] and [`Message`]
//! traits.
mod builder;
mod error;
mod graph;
mod ising;
mod node;
mod passing;
mod payload;
mod topology;

pub use builder::{check_factor, factor_checked, occurrences, FactorGraphBuilder};
pub use error::{FGBuilderError, FGBuilderResult, FGError, FGResult};
pub use graph::{DiscrepancyOf, FactorGraph};
pub use ising::{MaxProduct, SumProduct};
pub use node::{FactorNode, VariableNode};
pub use passing::{
    converges_at, total, Decimation, MessagePassingInfo, PassingRun, PassingStep, SamplingInfo,
};
pub use payload::{Factor, Message, Variable};
pub use topology::{
    graph_view, lemma_unique_factor_destinations, lemma_unique_variable_destinations, GraphView,
};
