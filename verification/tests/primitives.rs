use rooc::error::{CompilationError, ParseError, TransformError};
use rooc::math::{Comparison, Op, OptimizationType, UnOp};
use rooc::number::Number;
use rooc::parser::iterable_utils::flatten_primitive_array_values;
use rooc::primitives::consts::ConstantValue;
use rooc::primitives::graph::{Graph, GraphEdge, GraphNode};
use rooc::primitives::kind::PrimitiveKind;
use rooc::primitives::primitive::{IterableKind, Primitive, Tuple};
use rooc::span::{InputSpan, Spanned};

fn n(v: i64) -> Number {
    Number::from_integer(v)
}

fn edge(from: &str, to: &str, weight: Option<i64>) -> GraphEdge {
    GraphEdge::new(from.to_string(), to.to_string(), weight.map(n))
}

fn sample_graph() -> Graph {
    Graph::new(vec![
        GraphNode::new("A".to_string(), vec![edge("A", "B", Some(2)), edge("A", "C", None)]),
        GraphNode::new("B".to_string(), vec![edge("B", "C", Some(5))]),
        GraphNode::new("C".to_string(), vec![]),
    ])
}

#[test]
fn operators_have_their_texts_and_precedences() {
    assert_eq!(Comparison::LowerOrEqual.to_string(), "<=");
    assert_eq!(Comparison::UpperOrEqual.to_string(), ">=");
    assert_eq!(Comparison::Equal.to_string(), "=");
    assert_eq!(Op::Add.precedence(), 1);
    assert_eq!(Op::Sub.precedence(), 1);
    assert_eq!(Op::Mul.precedence(), 2);
    assert_eq!(Op::Div.precedence(), 2);
    assert_eq!(Op::Div.to_string(), "/");
    assert_eq!(UnOp::Neg.to_string(), "-");
    assert_eq!(OptimizationType::Min.to_string(), "min");
    assert_eq!(OptimizationType::Max.to_string(), "max");
}

#[test]
fn numbers_are_told_apart_from_integers() {
    assert_eq!(Number::new(false, 250, 2).to_i64(), None);
    assert_eq!(Number::new(false, 200, 2).to_i64(), Some(2));
    assert_eq!(Number::new(true, 200, 2).to_usize(), None);
    assert_eq!(Number::new(false, 7, 0).to_usize(), Some(7));
    assert!(Number::new(true, 1, 1).is_negative());
    assert!(!Number::new(true, 0, 1).is_negative());
    assert_eq!(n(5).negate(), n(-5));
    assert_eq!(n(0).negate(), n(0));
}

#[test]
fn decimal_arithmetic_is_exact() {
    let half = Number::new(false, 5, 1);
    let quarter = Number::new(false, 25, 2);
    assert_eq!(half.checked_add(&quarter), Some(Number::new(false, 75, 2)));
    assert_eq!(quarter.checked_sub(&half), Some(Number::new(true, 25, 2)));
    assert_eq!(half.checked_mul(&quarter), Some(Number::new(false, 125, 3)));
    assert_eq!(n(6).checked_div(&n(-3)), Some(n(-2)));
    assert_eq!(n(7).checked_div(&n(2)), None);
    assert_eq!(n(1).checked_div(&n(0)), None);
    assert_eq!(Number::new(false, u64::MAX, 0).checked_add(&n(1)), None);
}

#[test]
fn kinds_have_names_and_an_operator_matrix() {
    let matrix = PrimitiveKind::Iterable(Box::new(PrimitiveKind::Iterable(Box::new(
        PrimitiveKind::Number,
    ))));
    assert_eq!(matrix.to_string(), "Number[][]");
    let tuple = PrimitiveKind::Tuple(vec![PrimitiveKind::String, PrimitiveKind::GraphNode]);
    assert_eq!(tuple.to_string(), "(String, GraphNode)");
    assert!(PrimitiveKind::Number.can_apply_binary_op(Op::Mul, PrimitiveKind::Number));
    assert!(!PrimitiveKind::Number.can_apply_binary_op(Op::Mul, PrimitiveKind::String));
    assert!(PrimitiveKind::String.can_apply_binary_op(Op::Add, PrimitiveKind::String));
    assert!(!PrimitiveKind::String.can_apply_binary_op(Op::Sub, PrimitiveKind::String));
    assert!(!PrimitiveKind::Graph.can_apply_binary_op(Op::Add, PrimitiveKind::Graph));
    assert!(PrimitiveKind::Number.can_apply_unary_op(UnOp::Neg));
    assert!(!PrimitiveKind::Boolean.can_apply_unary_op(UnOp::Neg));
    assert!(tuple.same(&tuple.clone()));
    assert!(!tuple.same(&matrix));
}

#[test]
fn value_kinds_follow_the_values() {
    let numbers = Primitive::Iterable(IterableKind::Numbers(vec![n(1), n(2)]));
    assert_eq!(numbers.get_type(), PrimitiveKind::Iterable(Box::new(PrimitiveKind::Number)));
    let nested = Primitive::Iterable(IterableKind::Iterables(vec![IterableKind::Numbers(vec![])]));
    assert_eq!(nested.get_type_string(), "Number[][]");
    let empty = IterableKind::Iterables(vec![]);
    assert_eq!(empty.get_type().to_string(), "Undefined[]");
    let tuple = Primitive::Tuple(Tuple::new(vec![Primitive::Number(n(1)), Primitive::Boolean(true)]));
    assert_eq!(tuple.get_type_string(), "(Number, Boolean)");
}

#[test]
fn iterables_are_read_along_a_path() {
    let matrix = IterableKind::Iterables(vec![
        IterableKind::Numbers(vec![n(1), n(2)]),
        IterableKind::Numbers(vec![n(3)]),
    ]);
    assert_eq!(matrix.read(vec![]).unwrap(), Primitive::Undefined);
    assert_eq!(matrix.read(vec![0, 1]).unwrap(), Primitive::Number(n(2)));
    assert_eq!(
        matrix.read(vec![1]).unwrap(),
        Primitive::Iterable(IterableKind::Numbers(vec![n(3)]))
    );
    let error = matrix.read(vec![1, 1]).unwrap_err();
    assert_eq!(error.to_string(), "[Out of bounds] cannot access index 1 of [\n[1, 2], [3]\n]");
    let error = matrix.read(vec![0, 0, 0]).unwrap_err();
    assert!(matches!(error, TransformError::OutOfBounds(_)));
    assert_eq!(matrix.len(), 2);
    assert!(!matrix.is_empty());
    assert_eq!(matrix.get_argument_name(), "iterable");
    assert_eq!(matrix.to_string_depth(1), "    [\n        [1, 2],         [3]\n]");
}

#[test]
fn accessors_refuse_other_kinds() {
    let text = Primitive::String("a".to_string());
    assert_eq!(text.as_number().unwrap_err().to_string(), "[Wrong argument] Expected Number, got String");
    assert_eq!(Primitive::Number(n(3)).as_usize().unwrap(), 3);
    assert_eq!(
        Primitive::Number(n(-3)).as_usize().unwrap_err().to_string(),
        "[Wrong argument] Expected Positive integer, got Number"
    );
    assert_eq!(
        Primitive::Number(Number::new(false, 15, 1)).as_integer().unwrap_err().to_string(),
        "[Wrong argument] Expected Integer, got Number"
    );
    assert_eq!(Primitive::Number(n(-3)).as_integer().unwrap(), -3);
    assert!(text.as_graph().is_err());
    assert!(text.as_iterator().is_err());
    assert!(text.as_tuple().is_err());
    assert!(matches!(
        Primitive::Boolean(true).to_primitive_set().unwrap_err(),
        TransformError::Unspreadable(PrimitiveKind::Boolean)
    ));
}

#[test]
fn graphs_list_edges_and_neighbours() {
    let graph = sample_graph();
    assert_eq!(graph.edges().len(), 3);
    assert_eq!(graph.to_string(), "[A: {B:2, C}\nB: {C:5}\nC: {}]");
    let neighbours = graph.neighbour_of("A").unwrap();
    assert_eq!(neighbours, vec![edge("A", "B", Some(2)), edge("A", "C", None)]);
    for e in neighbours.iter() {
        assert_eq!(e.from, "A");
        assert!(graph.edges().contains(e));
    }
    let missing = graph.neighbour_of("Z").unwrap_err();
    assert_eq!(missing.to_string(), "[Not found] node Z not found in graph");
    assert_eq!(graph.vertices().len(), 3);
}

#[test]
fn a_node_keeps_one_edge_per_target() {
    let node = GraphNode::new(
        "A".to_string(),
        vec![edge("A", "B", Some(1)), edge("A", "C", None), edge("A", "B", Some(9))],
    );
    assert_eq!(node.edges, vec![edge("A", "B", Some(9)), edge("A", "C", None)]);
    assert_eq!(node.to_string(), "A: {B:9, C}");
}

#[test]
fn values_are_gathered_by_the_sort_of_the_first() {
    assert_eq!(
        flatten_primitive_array_values(vec![]).unwrap(),
        Primitive::Iterable(IterableKind::Numbers(vec![]))
    );
    assert_eq!(
        flatten_primitive_array_values(vec![Primitive::Number(n(1)), Primitive::Number(n(2))])
            .unwrap(),
        Primitive::Iterable(IterableKind::Numbers(vec![n(1), n(2)]))
    );
    assert_eq!(
        flatten_primitive_array_values(vec![
            Primitive::Iterable(IterableKind::Numbers(vec![n(1)])),
            Primitive::Iterable(IterableKind::Numbers(vec![n(2)])),
        ])
        .unwrap(),
        Primitive::Iterable(IterableKind::Iterables(vec![
            IterableKind::Numbers(vec![n(1)]),
            IterableKind::Numbers(vec![n(2)]),
        ]))
    );
    assert_eq!(
        flatten_primitive_array_values(vec![Primitive::Number(n(1)), Primitive::Boolean(true)])
            .unwrap_err(),
        "Expected Number, got \"Boolean\""
    );
    assert_eq!(
        flatten_primitive_array_values(vec![
            Primitive::String("a".to_string()),
            Primitive::Number(n(1))
        ])
        .unwrap_err(),
        "Expected String but got Number"
    );
    assert_eq!(
        flatten_primitive_array_values(vec![Primitive::Undefined, Primitive::Number(n(1))])
            .unwrap(),
        Primitive::Iterable(IterableKind::Numbers(vec![]))
    );
}

#[test]
fn written_constants_have_texts_and_values() {
    let table = ConstantValue::TwoDimArray(vec![vec![n(1), n(2)], vec![n(3)]]);
    assert_eq!(table.to_string(), "[\n[1, 2],\n[3]\n]");
    assert_eq!(ConstantValue::String("a".to_string()).to_string(), "\"a\"");
    assert_eq!(
        table.into_primitive(),
        Primitive::Iterable(IterableKind::Iterables(vec![
            IterableKind::Numbers(vec![n(1), n(2)]),
            IterableKind::Numbers(vec![n(3)]),
        ]))
    );
}

#[test]
fn parse_errors_are_reported_with_their_place() {
    let error = CompilationError::new(
        ParseError::WrongNumberOfArguments(3, vec!["Node".to_string(), "Graph".to_string()]),
        1,
        5,
        2,
        7,
        "neighs_of(a, b, c)".to_string(),
    );
    assert_eq!(
        error.to_string(),
        "Error at 1:5 to 2:7\n\tWrong number of arguments: got 3, expected 2: (Node, Graph) neighs_of(a, b, c)"
    );
    assert_eq!(
        error.to_error_string(),
        "Wrong number of arguments: got 3, expected 2: (Node, Graph) neighs_of(a, b, c)"
    );
    assert_eq!(ParseError::UnexpectedToken("+".to_string()).to_string(), "Unexpected token: \"+\"");
    assert_eq!(ParseError::MissingToken(")".to_string()).to_string(), "Missing token: \")\"");
    assert_eq!(ParseError::SemanticError("x".to_string()).to_string(), "Semantic error: \"x\"");
}

#[test]
fn compilation_error_from_a_span_of_the_parser() {
    let source = "min x\ns.t. x >= )";
    let span = pest::Span::new(source, 16, 17).unwrap();
    let error = CompilationError::from_span(ParseError::UnexpectedToken(")".to_string()), &span, false);
    assert_eq!(error.start_line, 2);
    assert_eq!(error.start, 11);
    assert_eq!(error.end_line, 2);
    assert_eq!(error.end, 12);
    assert_eq!(error.text, ")");
    let silent = CompilationError::from_span(ParseError::MissingToken("(".to_string()), &span, true);
    assert_eq!(silent.text, "");
    let located = InputSpan::from_span(&span);
    assert_eq!(located, InputSpan::new(2, 11, 16, 1));
    assert_eq!(located.get_span_text(source), Ok(")"));
    assert_eq!(located.text_in(source), ")");
    assert_eq!(InputSpan::new(1, 1, 0, 99).text_in(source), "");
    let wide = pest::Span::new(source, 6, 10).unwrap();
    let error = CompilationError::from_span(ParseError::MissingToken("x".to_string()), &wide, false);
    assert_eq!(error.to_string(), "Error at 2:1 to 2:5\n\tMissing token: \"x\" s.t.");
    let plain =
        CompilationError::new(ParseError::MissingToken("x".to_string()), 1, 2, 3, 4, "abc".to_string());
    assert_eq!(plain.to_string(), "Error at 1:2 to 3:4\n\tMissing token: \"x\" abc");
}

#[test]
fn span_text_is_refused_outside_the_source() {
    let source = "añb";
    assert_eq!(InputSpan::new(1, 1, 0, 1).get_span_text(source), Ok("a"));
    assert_eq!(InputSpan::new(1, 2, 1, 2).get_span_text(source), Ok("ñ"));
    // In the middle of a character.
    assert_eq!(InputSpan::new(1, 2, 1, 1).get_span_text(source), Err(()));
    assert_eq!(InputSpan::new(1, 1, 4, 0).get_span_text(source), Err(()));
    assert_eq!(InputSpan::new(1, 1, 0, 9).get_span_text(source), Err(()));
}

#[test]
fn traces_run_from_the_innermost_place_outwards() {
    let inner = InputSpan::new(3, 4, 20, 2);
    let outer = InputSpan::new(1, 1, 0, 30);
    let error = TransformError::MissingVariable("x".to_string())
        .to_spanned_error(&inner)
        .to_spanned_error(&inner)
        .to_spanned_error(&outer);
    assert_eq!(error.to_string(), "[Missing variable] x");
    assert_eq!(error.get_trace(), vec![(inner, None), (outer, None)]);
    assert_eq!(error.get_traced_error(), "[Missing variable] x\n\tat 3:4\n\tat 1:1");
    let with_context = TransformError::SpannedError(
        Spanned::new(Box::new(TransformError::Other("boom".to_string())), outer),
        Some("objective".to_string()),
    );
    assert_eq!(with_context.get_traced_error(), "boom\n\tat 1:1 (objective)");
    assert!(TransformError::Other("boom".to_string()).get_trace().is_empty());
    let source = "0123456789012345678901234567890";
    assert_eq!(
        error.get_trace_from_source(source).unwrap(),
        "[Missing variable] x\n\tat 3:4 01\n\tat 1:1 012345678901234567890123456789"
    );
    assert!(error.get_trace_from_source("short").is_err());
}
