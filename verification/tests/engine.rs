use rasen::engine::{apply_to_literals, evaluate, EvalError, Value};
use rasen::graph::Graph;
use rasen::literal::{
    apply_scalar, combine_components, matrix_product, vector_matrix_product, Literal,
};
use rasen::node::{Node, NodeIndex};
use rasen::types::{ElementType, Operator, TypeDescriptor};

fn scalar(x: i32) -> Literal {
    Literal { ty: TypeDescriptor::scalar(ElementType::Int), data: vec![x] }
}

fn vector(data: Vec<i32>) -> Literal {
    Literal { ty: TypeDescriptor::vector(ElementType::Int, data.len() as u32).unwrap(), data }
}

fn matrix(n: u32, data: Vec<i32>) -> Literal {
    assert_eq!(data.len() as u32, n * n);
    Literal { ty: TypeDescriptor::matrix(ElementType::Int, n).unwrap(), data }
}

fn recorded(graph: u64, node: u32, ty: TypeDescriptor) -> Value {
    Value::Recorded { graph, node: NodeIndex(node), ty }
}

#[test]
fn vector_times_scalar_literal() {
    let r = apply_to_literals(Operator::Multiply, &vector(vec![1, 2, 3]), &scalar(2)).unwrap();
    assert_eq!(r.data, vec![2, 4, 6]);
    assert_eq!(r.ty, TypeDescriptor::vector(ElementType::Int, 3).unwrap());
    let r = apply_to_literals(Operator::Multiply, &scalar(2), &vector(vec![1, 2, 3])).unwrap();
    assert_eq!(r.data, vec![2, 4, 6]);
    let r = apply_to_literals(Operator::Subtract, &scalar(10), &vector(vec![1, 2, 3])).unwrap();
    assert_eq!(r.data, vec![9, 8, 7]);
    let r = apply_to_literals(Operator::Subtract, &vector(vec![1, 2, 3]), &scalar(10)).unwrap();
    assert_eq!(r.data, vec![-9, -8, -7]);
}

#[test]
fn vector_times_matrix_literal() {
    let v = vector(vec![1, 0]);
    let m = matrix(2, vec![1, 2, 3, 4]);
    let r = apply_to_literals(Operator::Multiply, &v, &m).unwrap();
    assert_eq!(r.data, vec![1, 3]);
    assert_eq!(r.ty, v.ty);
    let r = apply_to_literals(Operator::Multiply, &m, &v).unwrap();
    assert_eq!(r.data, vec![1, 3]);
    assert_eq!(vector_matrix_product(&vec![2, 3], &vec![1, 2, 3, 4], 2), vec![8, 18]);
}

#[test]
fn matrix_times_matrix_literal() {
    let l = matrix(2, vec![1, 2, 3, 4]);
    let r = matrix(2, vec![5, 6, 7, 8]);
    let p = apply_to_literals(Operator::Multiply, &l, &r).unwrap();
    assert_eq!(p.data, vec![19, 22, 43, 50]);
    assert_eq!(p.ty, l.ty);
    assert_eq!(matrix_product(&vec![1, 2, 3, 4], &vec![5, 6, 7, 8], 2), vec![19, 22, 43, 50]);
    let id = vec![1, 0, 0, 0, 1, 0, 0, 0, 1];
    let m = vec![1, 2, 3, 4, 5, 6, 7, 8, 9];
    assert_eq!(matrix_product(&id, &m, 3), m);
    assert_eq!(matrix_product(&m, &id, 3), m);
    assert_eq!(
        matrix_product(&m, &m, 3),
        vec![30, 36, 42, 66, 81, 96, 102, 126, 150]
    );
    let sum = apply_to_literals(Operator::Add, &l, &r).unwrap();
    assert_eq!(sum.data, vec![6, 8, 10, 12]);
}

#[test]
fn elementwise_literals() {
    let a = vector(vec![6, 8, -9]);
    let b = vector(vec![3, -2, 2]);
    assert_eq!(apply_to_literals(Operator::Multiply, &a, &b).unwrap().data, vec![18, -16, -18]);
    assert_eq!(apply_to_literals(Operator::Add, &a, &b).unwrap().data, vec![9, 6, -7]);
    assert_eq!(apply_to_literals(Operator::Subtract, &a, &b).unwrap().data, vec![3, 10, -11]);
    assert_eq!(apply_to_literals(Operator::Divide, &a, &b).unwrap().data, vec![2, -4, -4]);
    assert_eq!(combine_components(Operator::Add, &vec![1, 2], &vec![10], 2), Some(vec![11, 12]));
}

#[test]
fn scalar_operations_wrap_and_check_division() {
    assert_eq!(apply_scalar(Operator::Add, i32::MAX, 1), Some(i32::MIN));
    assert_eq!(apply_scalar(Operator::Subtract, i32::MIN, 1), Some(i32::MAX));
    assert_eq!(apply_scalar(Operator::Multiply, 1 << 16, 1 << 16), Some(0));
    assert_eq!(apply_scalar(Operator::Divide, 7, 2), Some(3));
    assert_eq!(apply_scalar(Operator::Divide, -7, 2), Some(-3));
    assert_eq!(apply_scalar(Operator::Divide, 7, 0), None);
    assert_eq!(apply_scalar(Operator::Divide, i32::MIN, -1), None);
}

#[test]
fn literal_errors() {
    let two = scalar(2);
    assert_eq!(
        apply_to_literals(Operator::Multiply, &two, &scalar(3)).unwrap_err(),
        EvalError::Undefined
    );
    assert_eq!(
        apply_to_literals(Operator::Divide, &vector(vec![1, 2]), &scalar(0)).unwrap_err(),
        EvalError::Arithmetic
    );
    assert_eq!(
        apply_to_literals(Operator::Divide, &vector(vec![1, 2]), &vector(vec![1, 0])).unwrap_err(),
        EvalError::Arithmetic
    );
    let f = Literal { ty: TypeDescriptor::vector(ElementType::Float, 2).unwrap(), data: vec![1, 2] };
    let g = Literal { ty: TypeDescriptor::vector(ElementType::Float, 2).unwrap(), data: vec![1, 2] };
    assert_eq!(
        apply_to_literals(Operator::Add, &f, &g).unwrap_err(),
        EvalError::UnsupportedElement
    );
    assert_eq!(
        apply_to_literals(Operator::Add, &vector(vec![1, 2]), &matrix(2, vec![1, 2, 3, 4]))
            .unwrap_err(),
        EvalError::Undefined
    );
}

#[test]
fn literals_leave_the_graph_alone() {
    let mut g = Graph::new(1);
    let r = evaluate(
        Operator::Multiply,
        Value::Literal(vector(vec![1, 2, 3])),
        Value::Literal(scalar(2)),
        &mut g,
    )
    .unwrap();
    match r {
        Value::Literal(l) => assert_eq!(l.data, vec![2, 4, 6]),
        Value::Recorded { .. } => panic!("a literal was expected"),
    }
    assert_eq!(g.node_count(), 0);
    assert_eq!(g.edge_count(), 0);
}

#[test]
fn recorded_operands_add_one_node_and_two_edges() {
    let mut g = Graph::new(5);
    let ty = TypeDescriptor::vector(ElementType::Float, 3).unwrap();
    let a = g.add_node(Node::Argument(0));
    let b = g.add_node(Node::Argument(1));
    let r = evaluate(Operator::Multiply, recorded(5, b.0, ty), recorded(5, a.0, ty), &mut g).unwrap();
    match r {
        Value::Recorded { graph, node, ty: t } => {
            assert_eq!(graph, 5);
            assert_eq!(node, NodeIndex(2));
            assert_eq!(t, ty);
        }
        Value::Literal(_) => panic!("a recorded value was expected"),
    }
    assert_eq!(g.node_count(), 3);
    assert_eq!(g.edge_count(), 2);
    assert!(matches!(g.index(NodeIndex(2)), Node::Operation(Operator::Multiply)));
    assert_eq!(g.arguments(NodeIndex(2)), vec![b, a]);
    assert!(!g.has_cycle());
}

#[test]
fn a_literal_beside_a_recorded_operand_becomes_a_constant() {
    let mut g = Graph::new(5);
    let vty = TypeDescriptor::vector(ElementType::Int, 2).unwrap();
    let a = g.add_node(Node::Argument(0));
    let r = evaluate(Operator::Subtract, Value::Literal(scalar(4)), recorded(5, a.0, vty), &mut g)
        .unwrap();
    assert!(matches!(r, Value::Recorded { graph: 5, node: NodeIndex(2), .. }));
    assert_eq!(g.node_count(), 3);
    match g.index(NodeIndex(1)) {
        Node::Constant(l) => assert_eq!(l.data, vec![4]),
        _ => panic!("a constant was expected"),
    }
    assert!(matches!(g.index(NodeIndex(2)), Node::Operation(Operator::Subtract)));
    assert_eq!(g.arguments(NodeIndex(2)), vec![NodeIndex(1), a]);

    let r = evaluate(Operator::Multiply, r, Value::Literal(scalar(3)), &mut g).unwrap();
    assert!(matches!(r, Value::Recorded { graph: 5, node: NodeIndex(4), .. }));
    assert_eq!(g.arguments(NodeIndex(4)), vec![NodeIndex(2), NodeIndex(3)]);
    assert_eq!(g.node_count(), 5);
    assert_eq!(g.edge_count(), 4);
}

#[test]
fn operands_of_different_graphs_are_rejected() {
    let mut g = Graph::new(1);
    let mut h = Graph::new(2);
    let ty = TypeDescriptor::scalar(ElementType::Float);
    let a = g.add_node(Node::Argument(0));
    let b = h.add_node(Node::Argument(0));
    let r = evaluate(Operator::Multiply, recorded(1, a.0, ty), recorded(2, b.0, ty), &mut g);
    assert_eq!(r.unwrap_err(), EvalError::GraphMismatch);
    let r = evaluate(Operator::Multiply, recorded(1, a.0, ty), recorded(2, b.0, ty), &mut h);
    assert_eq!(r.unwrap_err(), EvalError::GraphMismatch);
    let r = evaluate(Operator::Add, Value::Literal(scalar(1)), recorded(2, b.0, TypeDescriptor::scalar(ElementType::Int)), &mut g);
    assert_eq!(r.unwrap_err(), EvalError::GraphMismatch);
    assert_eq!((g.node_count(), g.edge_count()), (1, 0));
    assert_eq!((h.node_count(), h.edge_count()), (1, 0));
}

#[test]
fn unknown_nodes_and_undefined_operators_are_rejected() {
    let mut g = Graph::new(1);
    let ty = TypeDescriptor::scalar(ElementType::Float);
    let a = g.add_node(Node::Argument(0));
    let r = evaluate(Operator::Multiply, recorded(1, a.0, ty), recorded(1, 4, ty), &mut g);
    assert_eq!(r.unwrap_err(), EvalError::UnknownNode);
    let b = TypeDescriptor::scalar(ElementType::Bool);
    let r = evaluate(Operator::Multiply, recorded(1, a.0, b), recorded(1, a.0, b), &mut g);
    assert_eq!(r.unwrap_err(), EvalError::Undefined);
    let r = evaluate(Operator::Multiply, Value::Literal(scalar(1)), Value::Literal(scalar(2)), &mut g);
    assert_eq!(r.unwrap_err(), EvalError::Undefined);
    assert_eq!((g.node_count(), g.edge_count()), (1, 0));
}

#[test]
fn literals_are_checked_against_their_shape() {
    let v3 = TypeDescriptor::vector(ElementType::Int, 3).unwrap();
    let m2 = TypeDescriptor::matrix(ElementType::Int, 2).unwrap();
    let s = TypeDescriptor::scalar(ElementType::Int);
    assert!(Literal::new(v3, vec![1, 2, 3]).is_some());
    assert!(Literal::new(v3, vec![1, 2]).is_none());
    assert!(Literal::new(m2, vec![1, 2, 3, 4]).is_some());
    assert!(Literal::new(m2, vec![1, 2]).is_none());
    assert!(Literal::new(s, vec![1]).is_some());
    assert!(Literal::new(s, vec![]).is_none());
    let bad = TypeDescriptor { category: rasen::types::Category::Vector, element: ElementType::Int, size: Some(1) };
    assert!(Literal::new(bad, vec![1]).is_none());
    assert!(!Literal { ty: v3, data: vec![1] }.is_well_formed());
    assert!(Literal { ty: v3, data: vec![1, 2, 3] }.is_well_formed());
}

#[test]
fn products_do_not_depend_on_the_operand_order() {
    let v = vector(vec![3, -4, 70000]);
    let s = scalar(70000);
    let a = apply_to_literals(Operator::Multiply, &v, &s).unwrap();
    let b = apply_to_literals(Operator::Multiply, &s, &v).unwrap();
    assert_eq!(a.data, b.data);
    assert_eq!(a.data, vec![210000, -280000, 70000i32.wrapping_mul(70000)]);
    assert_eq!(a.ty, b.ty);
}

#[test]
fn values_report_their_shape() {
    let ty = TypeDescriptor::vector(ElementType::Float, 3).unwrap();
    let r = recorded(1, 0, ty);
    assert!(r.recorded());
    assert_eq!(r.descriptor(), ty);
    let l = Value::Literal(scalar(1));
    assert!(!l.recorded());
    assert_eq!(l.descriptor(), TypeDescriptor::scalar(ElementType::Int));
}

#[test]
fn graphs_built_by_operators_stay_acyclic() {
    let mut g = Graph::new(3);
    let ty = TypeDescriptor::matrix(ElementType::Float, 4).unwrap();
    let vty = TypeDescriptor::vector(ElementType::Float, 4).unwrap();
    let p = g.add_node(Node::Argument(0));
    let v = g.add_node(Node::Argument(1));
    let m = g.add_node(Node::Argument(2));
    let pv = evaluate(Operator::Multiply, recorded(3, p.0, ty), recorded(3, v.0, ty), &mut g).unwrap();
    let mvp = evaluate(Operator::Multiply, pv, recorded(3, m.0, ty), &mut g).unwrap();
    let pos = g.add_node(Node::Argument(3));
    let out = evaluate(Operator::Multiply, mvp, recorded(3, pos.0, vty), &mut g).unwrap();
    match out {
        Value::Recorded { node, ty, .. } => {
            assert_eq!(ty, vty);
            assert_eq!(g.arguments(node), vec![NodeIndex(4), pos]);
        }
        Value::Literal(_) => panic!("a recorded value was expected"),
    }
    assert_eq!(g.arguments(NodeIndex(4)), vec![NodeIndex(3), m]);
    assert_eq!(g.arguments(NodeIndex(3)), vec![p, v]);
    assert!(!g.has_cycle());
    assert_eq!(g.outputs(), Vec::<NodeIndex>::new());
}
