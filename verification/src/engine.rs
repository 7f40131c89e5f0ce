//! Applying a resolved operator: at once on literals, or as a new node of
//! the graph where an operand is recorded there.

use vstd::prelude::*;
use crate::dispatch::{resolve, resolve_spec};
use crate::graph::{forward, lemma_new_node_has_ordered_operands, Graph};
use crate::literal::{
    combine_components, componentwise, componentwise_defined, matrix_product, matrix_product_of,
    vector_matrix_product, vector_matrix_product_of, Literal,
};
use crate::node::{Edge, Node, NodeIndex};
use crate::order::{by_ordinal, sources};
use crate::store::{incoming, CAPACITY};
use crate::types::{Category, ElementType, LoweringRule, Operator, Resolution, TypeDescriptor};

verus! {

/// An operand or a result of an operator.
#[derive(Debug)]
pub enum Value {
    /// A value computed in the host process.
    Literal(Literal),
    /// A value recorded as a node of the graph of the given identity.
    Recorded { graph: u64, node: NodeIndex, ty: TypeDescriptor },
}

/// Why an operator application gave no value.
#[derive(Clone, Copy, Debug, PartialEq, Eq, Structural)]
pub enum EvalError {
    /// The operator is not defined on the operand shapes.
    Undefined,
    /// Literal operands of this element type are not computed here.
    UnsupportedElement,
    /// A divisor was zero or a quotient did not fit.
    Arithmetic,
    /// A recorded operand belongs to another graph.
    GraphMismatch,
    /// A recorded operand names a node that the graph does not hold.
    UnknownNode,
    /// The graph has no room for the nodes and edges to add.
    GraphFull,
}

/// Most nodes, and most edges, that a graph may hold for one more
/// operator application to fit.
pub const ROOM: usize = 0xffff_fffd;

impl Value {
    /// The shape of the value.
    pub open spec fn ty(self) -> TypeDescriptor {
        match self {
            Value::Literal(literal) => literal.ty,
            Value::Recorded { ty, .. } => ty,
        }
    }

    /// Whether the value is recorded in a graph.
    pub open spec fn is_recorded(self) -> bool {
        self is Recorded
    }

    /// The shape is well formed, and a literal has one component per position.
    pub open spec fn well_formed(self) -> bool {
        match self {
            Value::Literal(literal) => literal.well_formed(),
            Value::Recorded { ty, .. } => ty.well_formed(),
        }
    }

    /// Whether the value is recorded in a graph of another identity.
    pub open spec fn foreign_to(self, graph: Graph) -> bool {
        self is Recorded && self->graph != graph.identity()
    }

    /// Whether the value is recorded under a node that `graph` does not hold.
    pub open spec fn dangling_in(self, graph: Graph) -> bool {
        self is Recorded && !graph.holds(self->node)
    }

    /// The nodes of a graph once the value has a node there: a literal
    /// is appended as a constant node.
    pub open spec fn materialized_in(self, nodes: Seq<Node>) -> Seq<Node> {
        match self {
            Value::Literal(literal) => nodes.push(Node::Constant(literal)),
            Value::Recorded { .. } => nodes,
        }
    }

    /// The node that stands for the value once it is materialised in a
    /// graph that held `count` nodes before.
    pub open spec fn operand_node(self, count: nat) -> NodeIndex {
        match self {
            Value::Literal(_) => NodeIndex(count as u32),
            Value::Recorded { node, .. } => node,
        }
    }

    /// The shape of the value.
    pub fn descriptor(&self) -> (r: TypeDescriptor)
        ensures
            r == self.ty(),
    {
        match self {
            Value::Literal(literal) => literal.ty,
            Value::Recorded { ty, .. } => *ty,
        }
    }

    /// Whether the value is recorded in a graph.
    pub fn recorded(&self) -> (r: bool)
        ensures
            r == self.is_recorded(),
    {
        match self {
            Value::Literal(_) => false,
            Value::Recorded { .. } => true,
        }
    }
}

/// What the dispatch engine decides for two operands.
pub open spec fn resolution_of(op: Operator, left: Value, right: Value) -> Option<Resolution> {
    resolve_spec(op, left.ty(), left.is_recorded(), right.ty(), right.is_recorded())
}

/// The components that a lowering rule computes from two literals.
pub open spec fn lowered(op: Operator, resolution: Resolution, left: Literal, right: Literal) -> Option<Seq<i32>> {
    match resolution.lowering {
        LoweringRule::MatrixProduct => Some(
            matrix_product_of(left.data@, right.data@, resolution.result.size->0 as int),
        ),
        LoweringRule::VectorMatrixProduct => if left.ty.category == Category::Vector {
            Some(vector_matrix_product_of(left.data@, right.data@, resolution.result.size->0 as int))
        } else {
            Some(vector_matrix_product_of(right.data@, left.data@, resolution.result.size->0 as int))
        },
        _ => if componentwise_defined(op, left.data@, right.data@, resolution.result.component_count()) {
            Some(componentwise(op, left.data@, right.data@, resolution.result.component_count()))
        } else {
            None
        },
    }
}

/// What applying `op` to two literals gives: the shape and the
/// components of the result, or the reason why there is none.
pub open spec fn literal_outcome(op: Operator, left: Literal, right: Literal) -> Result<(TypeDescriptor, Seq<i32>), EvalError> {
    match resolve_spec(op, left.ty, false, right.ty, false) {
        None => Err(EvalError::Undefined),
        Some(resolution) => if left.ty.element != ElementType::Int {
            Err(EvalError::UnsupportedElement)
        } else {
            match lowered(op, resolution, left, right) {
                None => Err(EvalError::Arithmetic),
                Some(data) => Ok((resolution.result, data)),
            }
        },
    }
}

/// Applies `op` to two literals in the host process.
pub fn apply_to_literals(op: Operator, left: &Literal, right: &Literal) -> (r: Result<Literal, EvalError>)
    requires
        left.well_formed(),
        right.well_formed(),
    ensures
        match literal_outcome(op, *left, *right) {
            Err(e) => r == Err::<Literal, EvalError>(e),
            Ok((ty, data)) => r is Ok && r->Ok_0.ty == ty && r->Ok_0.data@ == data,
        },
        r is Ok ==> r->Ok_0.well_formed(),
{
    let resolution = match resolve(op, left.ty, false, right.ty, false) {
        Some(resolution) => resolution,
        None => {
            return Err(EvalError::Undefined);
        },
    };
    if left.ty.element != ElementType::Int {
        return Err(EvalError::UnsupportedElement);
    }
    let data = match resolution.lowering {
        LoweringRule::MatrixProduct => {
            let n = match left.ty.size {
                Some(n) => n as usize,
                None => 0,
            };
            matrix_product(&left.data, &right.data, n)
        },
        LoweringRule::VectorMatrixProduct => {
            let n = match resolution.result.size {
                Some(n) => n as usize,
                None => 0,
            };
            if left.ty.category == Category::Vector {
                vector_matrix_product(&left.data, &right.data, n)
            } else {
                vector_matrix_product(&right.data, &left.data, n)
            }
        },
        _ => {
            let count = if left.ty.category == Category::Scalar {
                right.data.len()
            } else {
                left.data.len()
            };
            match combine_components(op, &left.data, &right.data, count) {
                Some(data) => data,
                None => {
                    return Err(EvalError::Arithmetic);
                },
            }
        },
    };
    Ok(Literal { ty: resolution.result, data })
}

/// Applies `op` to two operands.
///
/// Two literals are computed at once and the graph stays as it is.
/// Otherwise a literal operand becomes a constant node, the operator
/// becomes an operation node, and two edges lead to it: from the left
/// operand at ordinal 0, from the right operand at ordinal 1. Every
/// failure leaves the graph as it is.
pub fn evaluate(op: Operator, left: Value, right: Value, graph: &mut Graph) -> (r: Result<Value, EvalError>)
    requires
        left.well_formed(),
        right.well_formed(),
    ensures
        final(graph).extends(*old(graph)),
        r is Err ==> *final(graph) == *old(graph),
        resolution_of(op, left, right) is None ==> r == Err::<Value, EvalError>(EvalError::Undefined),
        resolution_of(op, left, right) is Some && left is Literal && right is Literal ==> {
            &&& *final(graph) == *old(graph)
            &&& match literal_outcome(op, left->Literal_0, right->Literal_0) {
                Err(e) => r == Err::<Value, EvalError>(e),
                Ok((ty, data)) => r is Ok && r->Ok_0 is Literal && r->Ok_0->Literal_0.ty == ty
                    && r->Ok_0->Literal_0.data@ == data,
            }
        },
        resolution_of(op, left, right) is Some && (left is Recorded || right is Recorded) ==> {
            if left.foreign_to(*old(graph)) || right.foreign_to(*old(graph)) {
                r == Err::<Value, EvalError>(EvalError::GraphMismatch)
            } else if left.dangling_in(*old(graph)) || right.dangling_in(*old(graph)) {
                r == Err::<Value, EvalError>(EvalError::UnknownNode)
            } else if old(graph).nodes().len() > ROOM || old(graph).edges().len() > ROOM {
                r == Err::<Value, EvalError>(EvalError::GraphFull)
            } else {
                let count = old(graph).nodes().len();
                let held = right.materialized_in(left.materialized_in(old(graph).nodes()));
                let target = NodeIndex(held.len() as u32);
                &&& r == Ok::<Value, EvalError>(
                    Value::Recorded {
                        graph: old(graph).identity(),
                        node: target,
                        ty: resolution_of(op, left, right)->0.result,
                    },
                )
                &&& final(graph).nodes() == held.push(Node::Operation(op))
                &&& final(graph).edges() == old(graph).edges().push(
                    (Edge { source: left.operand_node(count), target, ordinal: 0 }),
                ).push((Edge { source: right.operand_node(count), target, ordinal: 1 }))
            }
        },
        left is Recorded && right is Recorded && left->graph != right->graph ==> r is Err,
        old(graph).closed() ==> final(graph).closed(),
        forward(old(graph).edges()) ==> forward(final(graph).edges()),
        r is Ok && r->Ok_0 is Recorded && old(graph).closed() ==> sources(
            by_ordinal(incoming(final(graph).edges(), r->Ok_0->node)),
        ) == seq![
            left.operand_node(old(graph).nodes().len()),
            right.operand_node(old(graph).nodes().len()),
        ],
{
    let resolution = match resolve(op, left.descriptor(), left.recorded(), right.descriptor(), right.recorded()) {
        Some(resolution) => resolution,
        None => {
            return Err(EvalError::Undefined);
        },
    };
    match (left, right) {
        (Value::Literal(l), Value::Literal(r)) => match apply_to_literals(op, &l, &r) {
            Ok(literal) => Ok(Value::Literal(literal)),
            Err(e) => Err(e),
        },
        (left, right) => {
            if !belongs(&left, graph) || !belongs(&right, graph) {
                return Err(EvalError::GraphMismatch);
            }
            if !anchored(&left, graph) || !anchored(&right, graph) {
                return Err(EvalError::UnknownNode);
            }
            if graph.node_count() > ROOM || graph.edge_count() > ROOM {
                return Err(EvalError::GraphFull);
            }
            proof {
                if graph.closed() {
                    let held = right.materialized_in(left.materialized_in(graph.nodes()));
                    lemma_new_node_has_ordered_operands(
                        graph.edges(),
                        graph.nodes().len(),
                        left.operand_node(graph.nodes().len()),
                        right.operand_node(graph.nodes().len()),
                        NodeIndex(held.len() as u32),
                    );
                }
            }
            let from_left = materialize(left, graph);
            let from_right = materialize(right, graph);
            let target = graph.add_node(Node::Operation(op));
            graph.add_edge(from_left, target, 0);
            graph.add_edge(from_right, target, 1);
            Ok(Value::Recorded { graph: graph.id(), node: target, ty: resolution.result })
        },
    }
}

/// Whether a value is a literal or recorded in this very graph.
pub fn belongs(value: &Value, graph: &Graph) -> (r: bool)
    ensures
        r == !value.foreign_to(*graph),
{
    match value {
        Value::Literal(_) => true,
        Value::Recorded { graph: id, .. } => *id == graph.id(),
    }
}

/// Whether a value is a literal or recorded under a node that the graph holds.
pub fn anchored(value: &Value, graph: &Graph) -> (r: bool)
    ensures
        r == !value.dangling_in(*graph),
{
    match value {
        Value::Literal(_) => true,
        Value::Recorded { node, .. } => graph.get(*node).is_some(),
    }
}

/// Gives the value a node in the graph: its own where it is recorded, a
/// new constant node where it is a literal.
pub fn materialize(value: Value, graph: &mut Graph) -> (node: NodeIndex)
    requires
        old(graph).nodes().len() < CAPACITY,
    ensures
        final(graph).nodes() == value.materialized_in(old(graph).nodes()),
        final(graph).edges() == old(graph).edges(),
        final(graph).identity() == old(graph).identity(),
        final(graph).extends(*old(graph)),
        node == value.operand_node(old(graph).nodes().len()),
        old(graph).closed() ==> final(graph).closed(),
{
    match value {
        Value::Literal(literal) => graph.add_node(Node::Constant(literal)),
        Value::Recorded { node, .. } => node,
    }
}

} // verus!
