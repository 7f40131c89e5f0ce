//! Node roles, node identifiers and edges of the computation graph.

use vstd::prelude::*;
use crate::literal::Literal;
use crate::types::Operator;

verus! {

/// Identifier of a node, stable for the lifetime of the graph that issued it.
#[derive(Clone, Copy, Debug, PartialEq, Eq, Structural)]
pub struct NodeIndex(pub u32);

/// The role of a node in the graph.
#[derive(Debug)]
pub enum Node {
    /// An input of the program, with its location.
    Argument(u32),
    /// A literal materialised in the graph.
    Constant(Literal),
    /// The application of an operator to the node's ordered arguments.
    Operation(Operator),
    /// A sink of the program, with its location.
    Output(u32),
    /// The value that the program returns.
    Return,
}

/// A directed edge. The ordinal is the operand position at the target.
#[derive(Clone, Copy, Debug, PartialEq, Eq)]
pub struct Edge {
    pub source: NodeIndex,
    pub target: NodeIndex,
    pub ordinal: u32,
}

impl Node {
    /// Whether the node is one that `Graph::outputs` reports when nothing leaves it.
    pub open spec fn is_sink_kind(self) -> bool {
        self is Output || self is Return
    }

    /// Whether the node is an output or a return node.
    pub fn is_sink(&self) -> (r: bool)
        ensures
            r == self.is_sink_kind(),
    {
        match self {
            Node::Output(_) => true,
            Node::Return => true,
            _ => false,
        }
    }
}

} // verus!
