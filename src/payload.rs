//! What the graph asks of the values stored on its nodes and edges.
use vstd::prelude::*;

verus! {

/// A message carried along one direction of an edge.
pub trait Message: Copy {
    /// The scalar in which the distance between two messages is measured.
    type Discrepancy: Copy;

    /// The distance between this message and `other`, used as the
    /// convergence signal of message passing.
    fn discrepancy(&self, other: &Self) -> Self::Discrepancy;
}

/// The payload of a factor node.
pub trait Factor: Sized {
    /// The messages exchanged with adjacent variables.
    type Message: Message;

    /// The number of variables this factor is attached to.
    fn degree(&self) -> usize;

    /// Builds the unit-degree clamp factor that fixes a variable by
    /// constantly sending `message`.
    fn from_message(message: &Self::Message) -> Self;
}

/// The payload of a variable node.
pub trait Variable: Sized {
    /// The messages exchanged with adjacent factors.
    type Message: Message;

    /// A value drawn for the variable.
    type Sample: Copy;

    fn new() -> Self;

    /// The message that pins the variable to `sample`.
    fn sample_to_message(sample: &Self::Sample) -> Self::Message;
}

} // verus!
