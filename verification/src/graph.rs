//! The computation graph: an append-only store of nodes and ordered edges.

use vstd::prelude::*;
use crate::node::{Edge, Node, NodeIndex};
use crate::order::{by_ordinal, insertion_point, lemma_by_ordinal_sorts, sort_by_ordinal, sources};
use crate::store::{
    enters, externals, has_closed_walk, identifiers, incoming, is_external, is_walk, leaves_nothing,
    store_add_edge, store_add_node, store_edge_count, store_externals, store_incoming,
    store_is_cyclic, store_new, store_node_count, store_node_weight, stored_edges, stored_nodes,
    Store, CAPACITY,
};

verus! {

/// The test that a node is held and is an output or a return node.
pub open spec fn is_sink_node(nodes: Seq<Node>) -> spec_fn(NodeIndex) -> bool {
    |n: NodeIndex| n.0 < nodes.len() && nodes[n.0 as int].is_sink_kind()
}

/// The output and return nodes that no edge leaves, ascending.
pub open spec fn outputs_of(nodes: Seq<Node>, edges: Seq<Edge>) -> Seq<NodeIndex> {
    externals(nodes.len(), edges).filter(is_sink_node(nodes))
}

/// Whether the identifiers grow strictly along the sequence.
pub open spec fn ascending_identifiers(s: Seq<NodeIndex>) -> bool {
    forall|i: int, j: int| 0 <= i < j < s.len() ==> (#[trigger] s[i]).0 < (#[trigger] s[j]).0
}

/// Whether every edge leads from a node to one of a greater identifier.
pub open spec fn forward(edges: Seq<Edge>) -> bool {
    forall|i: int| 0 <= i < edges.len() ==> (#[trigger] edges[i]).source.0 < edges[i].target.0
}

/// Whether every edge joins two of the first `count` nodes.
pub open spec fn closed_under(edges: Seq<Edge>, count: nat) -> bool {
    forall|i: int|
        0 <= i < edges.len() ==> (#[trigger] edges[i]).source.0 < count && edges[i].target.0 < count
}

/// Filtering keeps the order, and keeps exactly the members that pass.
pub proof fn lemma_filter_keeps_order(s: Seq<NodeIndex>, keep: spec_fn(NodeIndex) -> bool)
    requires
        ascending_identifiers(s),
    ensures
        ascending_identifiers(s.filter(keep)),
        forall|n: NodeIndex| #[trigger] s.filter(keep).contains(n) <==> s.contains(n) && keep(n),
    decreases s.len(),
{
    reveal(Seq::filter);
    if s.len() > 0 {
        let rest = s.drop_last();
        let last = s.last();
        let kept = rest.filter(keep);
        assert forall|i: int, j: int| 0 <= i < j < rest.len() implies (#[trigger] rest[i]).0
            < (#[trigger] rest[j]).0 by {
            assert(rest[i] == s[i] && rest[j] == s[j]);
        }
        lemma_filter_keeps_order(rest, keep);
        let out = s.filter(keep);
        assert forall|i: int, j: int| 0 <= i < j < out.len() implies (#[trigger] out[i]).0
            < (#[trigger] out[j]).0 by {
            if j < kept.len() {
                assert(out[i] == kept[i] && out[j] == kept[j]);
            } else {
                assert(out[i] == kept[i]);
                assert(kept.contains(kept[i]));
                assert(rest.contains(kept[i]));
                let at = choose|at: int| 0 <= at < rest.len() && rest[at] == kept[i];
                assert(s[at] == rest[at]);
                assert(s[at].0 < s[s.len() - 1].0);
            }
        }
        assert forall|n: NodeIndex| #[trigger] out.contains(n) <==> s.contains(n) && keep(n) by {
            if out.contains(n) {
                let at = choose|at: int| 0 <= at < out.len() && out[at] == n;
                if at < kept.len() {
                    assert(kept[at] == n);
                    assert(kept.contains(n));
                    let was = choose|was: int| 0 <= was < rest.len() && rest[was] == n;
                    assert(s[was] == n);
                } else {
                    assert(n == last);
                    assert(s[s.len() - 1] == n);
                }
            }
            if s.contains(n) && keep(n) {
                let at = choose|at: int| 0 <= at < s.len() && s[at] == n;
                if at < rest.len() {
                    assert(rest[at] == n);
                    assert(rest.contains(n));
                    assert(kept.contains(n));
                    let now = choose|now: int| 0 <= now < kept.len() && kept[now] == n;
                    assert(out[now] == n);
                } else {
                    assert(out[out.len() - 1] == n);
                }
            }
        }
    }
}

/// The outputs are, in ascending order and each once, exactly the nodes
/// that are held, that no edge leaves and that are output or return nodes.
pub proof fn lemma_outputs_are_the_open_sinks(nodes: Seq<Node>, edges: Seq<Edge>)
    requires
        nodes.len() <= CAPACITY,
    ensures
        ascending_identifiers(outputs_of(nodes, edges)),
        forall|n: NodeIndex| #[trigger]
            outputs_of(nodes, edges).contains(n) <==> n.0 < nodes.len() && is_external(edges, n)
                && nodes[n.0 as int].is_sink_kind(),
{
    let all = identifiers(nodes.len());
    assert forall|n: NodeIndex| #[trigger] all.contains(n) <==> n.0 < nodes.len() by {
        if n.0 < nodes.len() {
            assert(all[n.0 as int] == n);
        }
    }
    lemma_filter_keeps_order(all, leaves_nothing(edges));
    lemma_filter_keeps_order(externals(nodes.len(), edges), is_sink_node(nodes));
}

/// A graph that extends another holds every node of the other under the
/// same identifier, and every edge of the other at the same place.
pub proof fn lemma_extension_keeps_what_was_held(later: Graph, earlier: Graph)
    requires
        later.extends(earlier),
    ensures
        forall|n: NodeIndex| #[trigger]
            earlier.holds(n) ==> later.holds(n) && later.nodes()[n.0 as int] == earlier.nodes()[n.0 as int],
        forall|i: int|
            0 <= i < earlier.edges().len() ==> later.edges()[i] == #[trigger] earlier.edges()[i],
{
    assert forall|n: NodeIndex| #[trigger] earlier.holds(n) implies later.holds(n)
        && later.nodes()[n.0 as int] == earlier.nodes()[n.0 as int] by {
        assert(later.nodes().subrange(0, earlier.nodes().len() as int)[n.0 as int]
            == later.nodes()[n.0 as int]);
    }
    assert forall|i: int| 0 <= i < earlier.edges().len() implies later.edges()[i]
        == #[trigger] earlier.edges()[i] by {
        assert(later.edges().subrange(0, earlier.edges().len() as int)[i] == later.edges()[i]);
    }
}

/// Extending is reflexive and transitive: whatever sequence of additions
/// led from one graph to another, the later one extends the earlier.
pub proof fn lemma_extension_composes(last: Graph, middle: Graph, first: Graph)
    requires
        last.extends(middle),
        middle.extends(first),
    ensures
        last.extends(first),
        first.extends(first),
{
    lemma_extension_keeps_what_was_held(last, middle);
    assert(first.nodes() =~= last.nodes().subrange(0, first.nodes().len() as int));
    assert(first.edges() =~= last.edges().subrange(0, first.edges().len() as int));
    assert(first.nodes() =~= first.nodes().subrange(0, first.nodes().len() as int));
    assert(first.edges() =~= first.edges().subrange(0, first.edges().len() as int));
}

/// Along a walk over forward edges the node identifiers climb.
proof fn lemma_walk_climbs(edges: Seq<Edge>, walk: Seq<int>, k: int)
    requires
        forward(edges),
        is_walk(edges, walk),
        0 <= k < walk.len(),
    ensures
        edges[walk[0]].source.0 < edges[walk[k]].target.0,
    decreases k,
{
    if k > 0 {
        lemma_walk_climbs(edges, walk, k - 1);
        assert(edges[walk[k - 1]].target == edges[walk[k - 1 + 1]].source);
    }
}

/// A graph whose every edge leads to a greater identifier has no cycle.
pub proof fn lemma_forward_edges_never_cycle(edges: Seq<Edge>)
    requires
        forward(edges),
    ensures
        !has_closed_walk(edges),
{
    if has_closed_walk(edges) {
        let walk = choose|walk: Seq<int>|
            #[trigger] is_walk(edges, walk) && edges[walk.last()].target == edges[walk[0]].source;
        lemma_walk_climbs(edges, walk, walk.len() - 1);
    }
}

/// Two edges that lead from one node to another and back close a walk,
/// and so does an edge from a node to itself.
pub proof fn lemma_back_edge_closes_a_walk(edges: Seq<Edge>, there: int, back: int)
    requires
        0 <= there < edges.len(),
        0 <= back < edges.len(),
        edges[there].target == edges[back].source,
        edges[back].target == edges[there].source,
    ensures
        has_closed_walk(edges),
{
    let walk = seq![there, back];
    assert(is_walk(edges, walk));
    assert(edges[walk.last()].target == edges[walk[0]].source);
}

/// No edge enters a node that is not among the nodes the edges join.
pub proof fn lemma_nothing_enters_a_new_node(edges: Seq<Edge>, count: nat, node: NodeIndex)
    requires
        closed_under(edges, count),
        node.0 >= count,
    ensures
        edges.filter(enters(node)) == Seq::<Edge>::empty(),
    decreases edges.len(),
{
    reveal(Seq::filter);
    if edges.len() > 0 {
        let rest = edges.drop_last();
        assert forall|i: int| 0 <= i < rest.len() implies (#[trigger] rest[i]).source.0 < count
            && rest[i].target.0 < count by {
            assert(rest[i] == edges[i]);
        }
        lemma_nothing_enters_a_new_node(rest, count, node);
        assert(edges.last() == edges[edges.len() - 1]);
    }
}

/// Once two edges lead into a node that nothing entered before, the first
/// at ordinal 0 and the second at ordinal 1, the node's operands are the
/// two sources in that order.
pub proof fn lemma_new_node_has_ordered_operands(
    edges: Seq<Edge>,
    count: nat,
    left: NodeIndex,
    right: NodeIndex,
    target: NodeIndex,
)
    requires
        closed_under(edges, count),
        target.0 >= count,
    ensures
        sources(
            by_ordinal(
                incoming(
                    edges.push(Edge { source: left, target, ordinal: 0 }).push(
                        Edge { source: right, target, ordinal: 1 },
                    ),
                    target,
                ),
            ),
        ) == seq![left, right],
{
    let first = Edge { source: left, target, ordinal: 0 };
    let second = Edge { source: right, target, ordinal: 1 };
    let one = edges.push(first);
    let two = one.push(second);
    lemma_nothing_enters_a_new_node(edges, count, target);
    reveal(Seq::filter);
    assert(one.drop_last() =~= edges);
    assert(two.drop_last() =~= one);
    assert(one.filter(enters(target)) =~= seq![first]);
    assert(two.filter(enters(target)) =~= seq![first, second]);
    let entering = incoming(two, target);
    assert(entering =~= seq![second, first]);
    assert(entering.drop_last() =~= seq![second]);
    assert(seq![second].drop_last() =~= Seq::<Edge>::empty());
    reveal_with_fuel(by_ordinal, 3);
    reveal_with_fuel(insertion_point, 3);
    assert(by_ordinal(Seq::<Edge>::empty()) =~= Seq::<Edge>::empty());
    assert(by_ordinal(seq![second]) =~= seq![second]);
    assert(insertion_point(seq![second], 0) == 0);
    assert(by_ordinal(entering) =~= seq![first, second]);
    assert(sources(seq![first, second]) =~= seq![left, right]);
}

/// An append-only directed graph of computation nodes and ordered edges.
#[derive(Debug)]
pub struct Graph {
    id: u64,
    store: Store,
}

impl Default for Graph {
    /// Creates an empty graph of identity zero.
    fn default() -> (g: Graph)
        ensures
            g.identity() == 0,
            g.nodes() == Seq::<Node>::empty(),
            g.edges() == Seq::<Edge>::empty(),
    {
        Graph::new(0)
    }
}

impl Graph {
    /// The identity that values recorded in this graph carry.
    pub closed spec fn identity(&self) -> u64 {
        self.id
    }

    /// The nodes, by identifier.
    pub closed spec fn nodes(&self) -> Seq<Node> {
        stored_nodes(self.store)
    }

    /// The edges, in the order of their insertion.
    pub closed spec fn edges(&self) -> Seq<Edge> {
        stored_edges(self.store)
    }

    /// Whether every edge joins two nodes that the graph holds.
    pub open spec fn closed(&self) -> bool {
        closed_under(self.edges(), self.nodes().len())
    }

    /// Whether this graph is `earlier` with nodes and edges appended:
    /// the same identity, and what `earlier` held, in the same places.
    pub open spec fn extends(&self, earlier: Graph) -> bool {
        &&& self.identity() == earlier.identity()
        &&& earlier.nodes().is_prefix_of(self.nodes())
        &&& earlier.edges().is_prefix_of(self.edges())
    }

    /// Whether the graph holds a node under the identifier.
    pub open spec fn holds(&self, node: NodeIndex) -> bool {
        node.0 < self.nodes().len()
    }

    /// Creates an empty graph of the given identity.
    pub fn new(id: u64) -> (g: Graph)
        ensures
            g.identity() == id,
            g.nodes() == Seq::<Node>::empty(),
            g.edges() == Seq::<Edge>::empty(),
            g.closed(),
    {
        Graph { id, store: store_new() }
    }

    /// The identity that values recorded in this graph carry.
    pub fn id(&self) -> (r: u64)
        ensures
            r == self.identity(),
    {
        self.id
    }

    /// The number of nodes.
    pub fn node_count(&self) -> (n: usize)
        ensures
            n == self.nodes().len(),
            n <= CAPACITY,
    {
        store_node_count(&self.store)
    }

    /// The number of edges.
    pub fn edge_count(&self) -> (n: usize)
        ensures
            n == self.edges().len(),
    {
        store_edge_count(&self.store)
    }

    /// Appends a node and returns its identifier. Nodes held before keep
    /// their identifiers.
    pub fn add_node(&mut self, node: Node) -> (index: NodeIndex)
        requires
            old(self).nodes().len() < CAPACITY,
        ensures
            final(self).nodes() == old(self).nodes().push(node),
            final(self).edges() == old(self).edges(),
            final(self).identity() == old(self).identity(),
            index.0 == old(self).nodes().len(),
            old(self).closed() ==> final(self).closed(),
            final(self).extends(*old(self)),
    {
        store_add_node(&mut self.store, node)
    }

    /// Appends a node if there is room for one, and says under which
    /// identifier. A graph that is full stays as it is.
    pub fn try_add_node(&mut self, node: Node) -> (r: Option<NodeIndex>)
        ensures
            r is Some <==> old(self).nodes().len() < CAPACITY,
            r is Some ==> {
                &&& r->0 == NodeIndex(old(self).nodes().len() as u32)
                &&& final(self).nodes() == old(self).nodes().push(node)
                &&& final(self).edges() == old(self).edges()
                &&& final(self).identity() == old(self).identity()
            },
            r is None ==> *final(self) == *old(self),
            final(self).extends(*old(self)),
    {
        if self.node_count() < 0xffff_ffff {
            Some(self.add_node(node))
        } else {
            None
        }
    }

    /// Appends an edge if both ends are held and there is room for one,
    /// and says whether it did. Otherwise the graph stays as it is.
    pub fn try_add_edge(&mut self, from: NodeIndex, to: NodeIndex, index: u32) -> (added: bool)
        ensures
            added <==> old(self).holds(from) && old(self).holds(to) && old(self).edges().len()
                < CAPACITY,
            added ==> {
                &&& final(self).nodes() == old(self).nodes()
                &&& final(self).edges() == old(self).edges().push(
                    (Edge { source: from, target: to, ordinal: index }),
                )
                &&& final(self).identity() == old(self).identity()
            },
            !added ==> *final(self) == *old(self),
            final(self).extends(*old(self)),
    {
        if self.get(from).is_some() && self.get(to).is_some() && self.edge_count() < 0xffff_ffff {
            self.add_edge(from, to, index);
            true
        } else {
            false
        }
    }

    /// Appends an edge. Several edges may enter one node, and nothing
    /// keeps their ordinals apart.
    pub fn add_edge(&mut self, from: NodeIndex, to: NodeIndex, index: u32)
        requires
            old(self).holds(from),
            old(self).holds(to),
            old(self).edges().len() < CAPACITY,
        ensures
            final(self).nodes() == old(self).nodes(),
            final(self).edges() == old(self).edges().push(
                (Edge { source: from, target: to, ordinal: index }),
            ),
            final(self).identity() == old(self).identity(),
            old(self).closed() ==> final(self).closed(),
            final(self).extends(*old(self)),
    {
        store_add_edge(&mut self.store, from, to, index);
    }

    /// Whether some walk along the edges returns to its start.
    pub fn has_cycle(&self) -> (r: bool)
        ensures
            r == has_closed_walk(self.edges()),
    {
        store_is_cyclic(&self.store)
    }

    /// The node under an identifier, where the graph holds one.
    pub fn get(&self, index: NodeIndex) -> (r: Option<&Node>)
        ensures
            r is Some <==> self.holds(index),
            r is Some ==> *r->0 == self.nodes()[index.0 as int],
    {
        store_node_weight(&self.store, index)
    }

    /// The node under an identifier that this graph issued.
    pub fn index(&self, index: NodeIndex) -> (r: &Node)
        requires
            self.holds(index),
        ensures
            *r == self.nodes()[index.0 as int],
    {
        store_node_weight(&self.store, index).unwrap()
    }

    /// Every output or return node that no edge leaves, ascending.
    pub fn outputs(&self) -> (r: Vec<NodeIndex>)
        ensures
            r@ == outputs_of(self.nodes(), self.edges()),
            ascending_identifiers(r@),
            forall|n: NodeIndex| #[trigger]
                r@.contains(n) <==> self.holds(n) && is_external(self.edges(), n)
                    && self.nodes()[n.0 as int].is_sink_kind(),
    {
        let count = self.node_count();
        proof {
            assert(count <= CAPACITY);
            lemma_outputs_are_the_open_sinks(self.nodes(), self.edges());
        }
        let candidates = store_externals(&self.store);
        let ghost keep = is_sink_node(self.nodes());
        let mut found: Vec<NodeIndex> = Vec::new();
        let mut i: usize = 0;
        while i < candidates.len()
            invariant
                0 <= i <= candidates.len(),
                candidates@ == externals(self.nodes().len(), self.edges()),
                keep == is_sink_node(self.nodes()),
                found@ == candidates@.take(i as int).filter(keep),
            decreases candidates.len() - i,
        {
            let candidate = candidates[i];
            let kept = match self.get(candidate) {
                Some(node) => node.is_sink(),
                None => false,
            };
            proof {
                reveal(Seq::filter);
                assert(candidates@.take(i as int + 1).drop_last() =~= candidates@.take(i as int));
                assert(candidates@.take(i as int + 1).last() == candidate);
                assert(kept == keep(candidate));
            }
            if kept {
                found.push(candidate);
            }
            i = i + 1;
        }
        proof {
            assert(candidates@.take(candidates@.len() as int) =~= candidates@);
        }
        found
    }

    /// The sources of the edges into `node`, in ascending order of the
    /// edges' ordinals: the operands of `node`, first to last.
    pub fn arguments(&self, node: NodeIndex) -> (r: Vec<NodeIndex>)
        ensures
            r@ == sources(by_ordinal(incoming(self.edges(), node))),
            r@.len() == incoming(self.edges(), node).len(),
    {
        let entering = store_incoming(&self.store, node);
        proof {
            lemma_by_ordinal_sorts(entering@);
        }
        let sorted = sort_by_ordinal(&entering);
        let mut found: Vec<NodeIndex> = Vec::new();
        let mut i: usize = 0;
        while i < sorted.len()
            invariant
                0 <= i <= sorted.len(),
                found@ == sources(sorted@.take(i as int)),
            decreases sorted.len() - i,
        {
            found.push(sorted[i].source);
            proof {
                assert(found@ =~= sources(sorted@.take(i as int + 1)));
            }
            i = i + 1;
        }
        proof {
            assert(sorted@.take(sorted@.len() as int) =~= sorted@);
        }
        found
    }
}

} // verus!
