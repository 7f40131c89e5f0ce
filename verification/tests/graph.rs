use rasen::graph::Graph;
use rasen::order::sort_by_ordinal;
use rasen::node::{Edge, Node, NodeIndex};
use rasen::types::Operator;

#[test]
fn add_node_issues_ascending_identifiers() {
    let mut g = Graph::new(7);
    assert_eq!(g.id(), 7);
    assert_eq!(g.node_count(), 0);
    let a = g.add_node(Node::Argument(0));
    let b = g.add_node(Node::Operation(Operator::Add));
    let c = g.add_node(Node::Return);
    assert_eq!((a, b, c), (NodeIndex(0), NodeIndex(1), NodeIndex(2)));
    assert_eq!(g.node_count(), 3);
    assert!(matches!(g.index(a), Node::Argument(0)));
    assert!(matches!(g.index(b), Node::Operation(Operator::Add)));
    assert!(matches!(g.get(c), Some(Node::Return)));
    assert!(g.get(NodeIndex(3)).is_none());
    let d = Graph::default();
    assert_eq!(d.id(), 0);
    assert_eq!(d.node_count(), 0);
    assert_eq!(d.edge_count(), 0);
}

#[test]
fn arguments_follow_the_ordinals() {
    let mut g = Graph::new(1);
    let n0 = g.add_node(Node::Argument(0));
    let n1 = g.add_node(Node::Argument(1));
    let n2 = g.add_node(Node::Operation(Operator::Multiply));
    g.add_edge(n0, n2, 1);
    g.add_edge(n1, n2, 0);
    assert_eq!(g.edge_count(), 2);
    assert_eq!(g.arguments(n2), vec![n1, n0]);
    assert_eq!(g.arguments(n0), Vec::<NodeIndex>::new());
    assert_eq!(g.arguments(NodeIndex(9)), Vec::<NodeIndex>::new());
}

#[test]
fn arguments_in_insertion_order_of_ordinals() {
    let mut g = Graph::new(1);
    let n0 = g.add_node(Node::Argument(0));
    let n1 = g.add_node(Node::Argument(1));
    let n2 = g.add_node(Node::Argument(2));
    let op = g.add_node(Node::Operation(Operator::Add));
    let other = g.add_node(Node::Operation(Operator::Add));
    g.add_edge(n0, op, 0);
    g.add_edge(n2, other, 0);
    g.add_edge(n1, op, 1);
    g.add_edge(n2, op, 2);
    g.add_edge(n0, other, 1);
    assert_eq!(g.arguments(op), vec![n0, n1, n2]);
    assert_eq!(g.arguments(other), vec![n2, n0]);
}

#[test]
fn sort_by_ordinal_is_stable() {
    let e = |s: u32, o: u32| Edge { source: NodeIndex(s), target: NodeIndex(9), ordinal: o };
    let sorted = sort_by_ordinal(&vec![e(0, 2), e(1, 0), e(2, 2), e(3, 1), e(4, 0)]);
    assert_eq!(sorted, vec![e(1, 0), e(4, 0), e(3, 1), e(0, 2), e(2, 2)]);
    assert_eq!(sort_by_ordinal(&Vec::new()), Vec::new());
}

#[test]
fn a_two_node_loop_is_a_cycle() {
    let mut g = Graph::new(1);
    let n0 = g.add_node(Node::Argument(0));
    let n1 = g.add_node(Node::Operation(Operator::Add));
    g.add_edge(n0, n1, 0);
    assert!(!g.has_cycle());
    g.add_edge(n1, n0, 0);
    assert!(g.has_cycle());
}

#[test]
fn acyclic_graphs_have_no_cycle() {
    let mut g = Graph::new(1);
    assert!(!g.has_cycle());
    let a = g.add_node(Node::Argument(0));
    let b = g.add_node(Node::Argument(1));
    let c = g.add_node(Node::Operation(Operator::Multiply));
    let d = g.add_node(Node::Output(0));
    g.add_edge(a, c, 0);
    g.add_edge(b, c, 1);
    g.add_edge(c, d, 0);
    g.add_edge(a, d, 1);
    assert!(!g.has_cycle());
}

#[test]
fn a_self_loop_is_a_cycle() {
    let mut g = Graph::new(1);
    let a = g.add_node(Node::Operation(Operator::Add));
    g.add_edge(a, a, 0);
    assert!(g.has_cycle());
}

#[test]
fn outputs_are_the_output_nodes_without_successors() {
    let mut g = Graph::new(1);
    let out = g.add_node(Node::Output(0));
    let _op = g.add_node(Node::Operation(Operator::Multiply));
    assert_eq!(g.outputs(), vec![out]);
}

#[test]
fn outputs_ascend_and_skip_nodes_with_successors() {
    let mut g = Graph::new(1);
    let a = g.add_node(Node::Argument(0));
    let ret = g.add_node(Node::Return);
    let fed = g.add_node(Node::Output(1));
    let out = g.add_node(Node::Output(2));
    let op = g.add_node(Node::Operation(Operator::Add));
    g.add_edge(a, op, 0);
    g.add_edge(fed, op, 1);
    g.add_edge(op, out, 0);
    assert_eq!(g.outputs(), vec![ret, out]);
    assert_eq!(Graph::new(2).outputs(), Vec::<NodeIndex>::new());
}

#[test]
fn try_add_edge_refuses_unknown_ends() {
    let mut g = Graph::new(1);
    let a = g.try_add_node(Node::Argument(0)).unwrap();
    let b = g.try_add_node(Node::Output(0)).unwrap();
    assert_eq!((a, b), (NodeIndex(0), NodeIndex(1)));
    assert!(!g.try_add_edge(a, NodeIndex(2), 0));
    assert!(!g.try_add_edge(NodeIndex(7), b, 0));
    assert_eq!(g.edge_count(), 0);
    assert!(g.try_add_edge(a, b, 0));
    assert_eq!(g.edge_count(), 1);
    assert_eq!(g.arguments(b), vec![a]);
    assert_eq!(g.outputs(), vec![b]);
}
