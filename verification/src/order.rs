//! Operand order: sorting the edges into a node by their ordinal.

use vstd::prelude::*;
use crate::node::{Edge, NodeIndex};

verus! {

/// Position at which an edge of the given ordinal enters an ascending
/// sequence: behind the last edge whose ordinal is not greater.
pub open spec fn insertion_point(sorted: Seq<Edge>, ordinal: u32) -> int
    decreases sorted.len(),
{
    if sorted.len() == 0 {
        0
    } else if sorted.last().ordinal <= ordinal {
        sorted.len() as int
    } else {
        insertion_point(sorted.drop_last(), ordinal)
    }
}

/// The edges in ascending order of their ordinal; edges of one ordinal
/// keep the order they came in.
pub open spec fn by_ordinal(edges: Seq<Edge>) -> Seq<Edge>
    decreases edges.len(),
{
    if edges.len() == 0 {
        Seq::empty()
    } else {
        let front = by_ordinal(edges.drop_last());
        front.insert(insertion_point(front, edges.last().ordinal), edges.last())
    }
}

/// The sources of the edges, in their order.
pub open spec fn sources(edges: Seq<Edge>) -> Seq<NodeIndex> {
    edges.map_values(|e: Edge| e.source)
}

/// Whether the ordinals never decrease along the sequence.
pub open spec fn ascending(edges: Seq<Edge>) -> bool {
    forall|i: int, j: int|
        0 <= i < j < edges.len() ==> (#[trigger] edges[i]).ordinal <= (#[trigger] edges[j]).ordinal
}

/// The insertion point lies within the sequence, every edge from it on
/// has a greater ordinal, and in an ascending sequence no edge before it has.
pub proof fn lemma_insertion_point_splits(sorted: Seq<Edge>, ordinal: u32)
    ensures
        0 <= insertion_point(sorted, ordinal) <= sorted.len(),
        forall|i: int|
            insertion_point(sorted, ordinal) <= i < sorted.len() ==> (#[trigger] sorted[i]).ordinal
                > ordinal,
        ascending(sorted) ==> forall|i: int|
            0 <= i < insertion_point(sorted, ordinal) ==> (#[trigger] sorted[i]).ordinal <= ordinal,
    decreases sorted.len(),
{
    if sorted.len() > 0 && sorted.last().ordinal > ordinal {
        let front = sorted.drop_last();
        lemma_insertion_point_splits(front, ordinal);
        assert forall|i: int| insertion_point(sorted, ordinal) <= i < sorted.len() implies
            (#[trigger] sorted[i]).ordinal > ordinal by {
            if i < front.len() {
                assert(sorted[i] == front[i]);
            }
        }
        if ascending(sorted) {
            assert forall|i: int, j: int| 0 <= i < j < front.len() implies (#[trigger] front[i]).ordinal
                <= (#[trigger] front[j]).ordinal by {
                assert(front[i] == sorted[i] && front[j] == sorted[j]);
            }
            assert forall|i: int| 0 <= i < insertion_point(sorted, ordinal) implies
                (#[trigger] sorted[i]).ordinal <= ordinal by {
                assert(sorted[i] == front[i]);
            }
        }
    } else if sorted.len() > 0 {
        if ascending(sorted) {
            assert forall|i: int| 0 <= i < sorted.len() implies (#[trigger] sorted[i]).ordinal
                <= ordinal by {
                if i < sorted.len() - 1 {
                    assert(sorted[i].ordinal <= sorted[sorted.len() - 1].ordinal);
                }
            }
        }
    }
}

/// Sorting by ordinal rearranges the edges and loses or adds none: the
/// result ascends by ordinal and holds each edge as often as the input.
pub proof fn lemma_by_ordinal_sorts(edges: Seq<Edge>)
    ensures
        by_ordinal(edges).len() == edges.len(),
        ascending(by_ordinal(edges)),
        by_ordinal(edges).to_multiset() == edges.to_multiset(),
    decreases edges.len(),
{
    if edges.len() > 0 {
        let rest = edges.drop_last();
        let last = edges.last();
        let front = by_ordinal(rest);
        let at = insertion_point(front, last.ordinal);
        let out = front.insert(at, last);
        lemma_by_ordinal_sorts(rest);
        lemma_insertion_point_splits(front, last.ordinal);
        assert forall|i: int, j: int| 0 <= i < j < out.len() implies (#[trigger] out[i]).ordinal
            <= (#[trigger] out[j]).ordinal by {
            if j < at {
                assert(out[i] == front[i] && out[j] == front[j]);
            } else if j == at {
                assert(out[i] == front[i]);
            } else if i < at {
                assert(out[i] == front[i] && out[j] == front[j - 1]);
            } else if i == at {
                assert(out[j] == front[j - 1]);
            } else {
                assert(out[i] == front[i - 1] && out[j] == front[j - 1]);
            }
        }
        vstd::seq_lib::to_multiset_insert(front, at, last);
        vstd::seq_lib::to_multiset_build(rest, last);
        assert(rest.push(last) =~= edges);
    } else {
        assert(by_ordinal(edges) =~= edges);
    }
}

/// Sorts edges by ordinal, keeping edges of one ordinal in their order.
pub fn sort_by_ordinal(edges: &Vec<Edge>) -> (r: Vec<Edge>)
    ensures
        r@ == by_ordinal(edges@),
{
    let mut sorted: Vec<Edge> = Vec::new();
    let mut i: usize = 0;
    while i < edges.len()
        invariant
            0 <= i <= edges.len(),
            sorted@ == by_ordinal(edges@.take(i as int)),
            sorted@.len() == i,
        decreases edges.len() - i,
    {
        let edge = edges[i];
        let mut at: usize = sorted.len();
        proof {
            assert(sorted@.take(sorted@.len() as int) =~= sorted@);
        }
        while at > 0 && sorted[at - 1].ordinal > edge.ordinal
            invariant
                0 <= at <= sorted@.len(),
                insertion_point(sorted@, edge.ordinal) == insertion_point(
                    sorted@.take(at as int),
                    edge.ordinal,
                ),
            decreases at,
        {
            proof {
                assert(sorted@.take(at as int).drop_last() =~= sorted@.take(at as int - 1));
            }
            at = at - 1;
        }
        proof {
            assert(edges@.take(i as int + 1).drop_last() =~= edges@.take(i as int));
            assert(edges@.take(i as int + 1).last() == edges@[i as int]);
        }
        sorted.insert(at, edge);
        i = i + 1;
    }
    proof {
        assert(edges@.take(edges@.len() as int) =~= edges@);
    }
    sorted
}

} // verus!
