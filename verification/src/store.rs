//! The `petgraph` graph that holds the nodes and the edges, and what is
//! taken on trust about it.
//!
//! Nothing in this file is proved. The two names below stand for what the
//! store holds; each function states, over those names, what the
//! `petgraph` function it calls does.

use vstd::prelude::*;
use crate::node::{Edge, Node, NodeIndex};

verus! {

/// The `petgraph` graph that keeps the nodes and the edges. Its field is
/// hidden from the verifier: what it holds is known by the two names
/// that follow, and only through the functions of this file.
#[derive(Debug)]
#[verifier::external_body]
pub struct Store {
    inner: petgraph::graph::Graph<Node, u32, petgraph::Directed, u32>,
}

/// The node weights that a `petgraph` graph holds, by node index.
pub uninterp spec fn stored_nodes(g: Store) -> Seq<Node>;

/// The edges that a `petgraph` graph holds, in the order of their insertion.
pub uninterp spec fn stored_edges(g: Store) -> Seq<Edge>;

/// Largest number of nodes, and of edges, that the store can index.
pub const CAPACITY: u32 = 0xffff_ffff;

/// Whether no edge of `edges` leaves `node`.
pub open spec fn is_external(edges: Seq<Edge>, node: NodeIndex) -> bool {
    forall|i: int| 0 <= i < edges.len() ==> (#[trigger] edges[i]).source != node
}

/// The identifiers of the first `count` nodes, ascending.
pub open spec fn identifiers(count: nat) -> Seq<NodeIndex> {
    Seq::new(count, |i: int| NodeIndex(i as u32))
}

/// The test that no edge of `edges` leaves a node.
pub open spec fn leaves_nothing(edges: Seq<Edge>) -> spec_fn(NodeIndex) -> bool {
    |n: NodeIndex| is_external(edges, n)
}

/// The nodes that no edge leaves, ascending.
pub open spec fn externals(count: nat, edges: Seq<Edge>) -> Seq<NodeIndex> {
    identifiers(count).filter(leaves_nothing(edges))
}

/// The test that an edge leads into `node`.
pub open spec fn enters(node: NodeIndex) -> spec_fn(Edge) -> bool {
    |e: Edge| e.target == node
}

/// The edges into `node`, the most recently inserted first.
pub open spec fn incoming(edges: Seq<Edge>, node: NodeIndex) -> Seq<Edge> {
    edges.filter(enters(node)).reverse()
}

/// Whether `walk`, a sequence of positions in `edges`, is not empty and
/// follows the edges head to tail.
pub open spec fn is_walk(edges: Seq<Edge>, walk: Seq<int>) -> bool {
    &&& walk.len() > 0
    &&& forall|i: int| 0 <= i < walk.len() ==> 0 <= #[trigger] walk[i] < edges.len()
    &&& forall|i: int|
        0 <= i < walk.len() - 1 ==> edges[#[trigger] walk[i]].target == edges[walk[i + 1]].source
}

/// Whether some walk along `edges` ends where it began.
pub open spec fn has_closed_walk(edges: Seq<Edge>) -> bool {
    exists|walk: Seq<int>|
        #[trigger] is_walk(edges, walk) && edges[walk.last()].target == edges[walk[0]].source
}

/// `petgraph::graph::Graph::new`: a graph without nodes and without edges.
#[verifier::external_body]
pub(crate) fn store_new() -> (g: Store)
    ensures
        stored_nodes(g) == Seq::<Node>::empty(),
        stored_edges(g) == Seq::<Edge>::empty(),
{
    Store { inner: petgraph::graph::Graph::new() }
}

/// `petgraph::graph::Graph::node_count`: the number of nodes held, which
/// never exceeds what the 32-bit node index can address.
#[verifier::external_body]
pub(crate) fn store_node_count(g: &Store) -> (n: usize)
    ensures
        n == stored_nodes(*g).len(),
        n <= CAPACITY,
{
    g.inner.node_count()
}

/// `petgraph::graph::Graph::edge_count`: the number of edges held.
#[verifier::external_body]
pub(crate) fn store_edge_count(g: &Store) -> (n: usize)
    ensures
        n == stored_edges(*g).len(),
{
    g.inner.edge_count()
}

/// `petgraph::graph::Graph::add_node`: appends the weight to the nodes and
/// returns its position, which is the number of nodes held before. The
/// edges stay. It panics at the index type's limit, which the
/// precondition leaves out.
#[verifier::external_body]
pub(crate) fn store_add_node(
    g: &mut Store,
    node: Node,
) -> (index: NodeIndex)
    requires
        stored_nodes(*old(g)).len() < CAPACITY,
    ensures
        stored_nodes(*final(g)) == stored_nodes(*old(g)).push(node),
        stored_edges(*final(g)) == stored_edges(*old(g)),
        index.0 == stored_nodes(*old(g)).len(),
{
    NodeIndex(g.inner.add_node(node).index() as u32)
}

/// `petgraph::graph::Graph::add_edge`: appends the edge to the edges. The
/// nodes stay. It panics on an end point that the graph does not hold and
/// at the index type's limit, which the precondition leaves out.
#[verifier::external_body]
pub(crate) fn store_add_edge(
    g: &mut Store,
    from: NodeIndex,
    to: NodeIndex,
    ordinal: u32,
)
    requires
        from.0 < stored_nodes(*old(g)).len(),
        to.0 < stored_nodes(*old(g)).len(),
        stored_edges(*old(g)).len() < CAPACITY,
    ensures
        stored_nodes(*final(g)) == stored_nodes(*old(g)),
        stored_edges(*final(g)) == stored_edges(*old(g)).push(
            (Edge { source: from, target: to, ordinal }),
        ),
{
    g.inner.add_edge(
        petgraph::graph::NodeIndex::new(from.0 as usize),
        petgraph::graph::NodeIndex::new(to.0 as usize),
        ordinal,
    );
}

/// `petgraph::graph::Graph::node_weight`: the weight at the index, where
/// the graph holds such a node.
#[verifier::external_body]
pub(crate) fn store_node_weight(
    g: &Store,
    index: NodeIndex,
) -> (r: Option<&Node>)
    ensures
        r is Some <==> index.0 < stored_nodes(*g).len(),
        r is Some ==> *r->0 == stored_nodes(*g)[index.0 as int],
{
    g.inner.node_weight(petgraph::graph::NodeIndex::new(index.0 as usize))
}

/// `petgraph::algo::is_cyclic_directed`: whether the directed graph
/// contains a cycle, a loop at one node included. The search recurses
/// along the edges, so its stack grows with the longest path.
#[verifier::external_body]
pub(crate) fn store_is_cyclic(g: &Store) -> (r: bool)
    ensures
        r == has_closed_walk(stored_edges(*g)),
{
    petgraph::algo::is_cyclic_directed(&g.inner)
}

/// `petgraph::graph::Graph::externals` with `Outgoing`: the nodes that no
/// edge leaves, in ascending order of their index.
#[verifier::external_body]
pub(crate) fn store_externals(g: &Store) -> (r: Vec<NodeIndex>)
    ensures
        r@ == externals(stored_nodes(*g).len(), stored_edges(*g)),
{
    g.inner.externals(petgraph::Direction::Outgoing).map(|n| NodeIndex(n.index() as u32)).collect()
}

/// `petgraph::graph::Graph::edges_directed` with `Incoming`: the edges
/// into the node, the most recently added first; none for a node that the
/// graph does not hold.
#[verifier::external_body]
pub(crate) fn store_incoming(
    g: &Store,
    node: NodeIndex,
) -> (r: Vec<Edge>)
    ensures
        r@ == incoming(stored_edges(*g), node),
{
    g.inner.edges_directed(petgraph::graph::NodeIndex::new(node.0 as usize), petgraph::Direction::Incoming)
        .map(|e| Edge {
            source: NodeIndex(petgraph::visit::EdgeRef::source(&e).index() as u32),
            target: NodeIndex(petgraph::visit::EdgeRef::target(&e).index() as u32),
            ordinal: *petgraph::visit::EdgeRef::weight(&e),
        })
        .collect()
}

} // verus!
