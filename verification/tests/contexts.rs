use rooc::error::TransformError;
use rooc::math::{Op, UnOp};
use rooc::number::Number;
use rooc::parser::exp::Exp;
use rooc::parser::frame::Frame;
use rooc::parser::pre_exp::{BuiltinFunction, PreExp};
use rooc::parser::reader::parse;
use rooc::parser::transformer::TransformerContext;
use rooc::primitives::kind::PrimitiveKind;
use rooc::primitives::primitive::{IterableKind, Primitive};
use rooc::solvers::external::solver_error_of;
use rooc::solvers::linear_solver::SolverError;
use rooc::span::InputSpan;
use rooc::text::{i64_to_string, join, repeat, same_text, u64_to_string, usize_to_string};
use rooc::type_checker::type_checker_context::{TypeCheckerContext, TypedToken};
use std::collections::HashMap;

fn number(n: i64) -> Primitive {
    Primitive::Number(Number::from_integer(n))
}

fn text(s: &str) -> Primitive {
    Primitive::String(s.to_string())
}

fn var(name: &str) -> Exp {
    Exp::Variable(name.to_string())
}

fn binop(op: Op, l: Exp, r: Exp) -> Exp {
    Exp::BinOp(op, Box::new(l), Box::new(r))
}

/// The objective of a model with the constants `constants`, and the scopes
/// of those constants.
fn objective_with(objective: &str, constants: &str) -> (PreExp, TransformerContext) {
    let source = format!("min {}\ns.t.\nwhere\n{}\n", objective, constants);
    let model = parse(&source).unwrap();
    let entries: Vec<(String, Primitive)> = model
        .problem
        .constants
        .into_iter()
        .map(|c| (c.name.value, c.value))
        .collect();
    (model.problem.objective.rhs, TransformerContext::new(entries))
}

fn call_with(call: &str, constants: &str) -> Result<Primitive, TransformError> {
    let (e, context) = objective_with(call, constants);
    match e {
        PreExp::FunctionCall(_, f) => f.call(&context),
        other => panic!("no call: {:?}", other),
    }
}

const GRAPH: &str = "G = Graph { A -> [B: 2, C], B -> [C: 1], C }";

#[test]
fn texts_are_put_together() {
    assert_eq!(u64_to_string(0), "0");
    assert_eq!(u64_to_string(18446744073709551615), "18446744073709551615");
    assert_eq!(usize_to_string(1234), "1234");
    assert_eq!(i64_to_string(-9223372036854775808), "-9223372036854775808");
    assert_eq!(i64_to_string(75), "75");
    assert_eq!(rooc::text::concat("ab", "cd"), "abcd");
    assert_eq!(join(&vec!["a".to_string(), "b".to_string(), "c".to_string()], ", "), "a, b, c");
    assert_eq!(join(&vec![], ", "), "");
    assert_eq!(repeat("ab", 3), "ababab");
    assert_eq!(repeat("ab", 0), "");
    assert!(same_text("x_1", "x_1"));
    assert!(!same_text("x_1", "x_2"));
}

#[test]
fn a_frame_keeps_one_value_for_each_name() {
    let mut frame: Frame<Primitive> = Frame::new();
    assert!(!frame.has_variable("a"));
    assert!(frame.declare_variable("a", number(1)).is_ok());
    assert!(frame.has_variable("a"));
    assert_eq!(frame.get_value("a"), Some(&number(1)));
    assert!(matches!(
        frame.declare_variable("a", number(2)),
        Err(TransformError::AlreadyExistingVariable(ref n)) if n == "a"
    ));
    assert_eq!(frame.get_value("a"), Some(&number(1)));
    assert!(frame.update_variable("a", number(3)).is_ok());
    assert_eq!(frame.get_value("a"), Some(&number(3)));
    assert!(matches!(
        frame.update_variable("b", number(3)),
        Err(TransformError::MissingVariable(ref n)) if n == "b"
    ));
    assert_eq!(frame.drop_variable("a").unwrap(), number(3));
    assert!(!frame.has_variable("a"));
    assert!(matches!(
        frame.drop_variable("a"),
        Err(TransformError::MissingVariable(ref n)) if n == "a"
    ));
    // Of two values given for one name the last counts.
    let frame =
        Frame::from_primitives(vec![("k".to_string(), number(1)), ("k".to_string(), number(2))]);
    assert_eq!(frame.get_value("k"), Some(&number(2)));
}

#[test]
fn names_are_found_from_the_innermost_scope_outwards() {
    let mut context = TransformerContext::new(vec![("n".to_string(), number(1))]);
    assert_eq!(context.depth(), 1);
    context.add_scope();
    assert_eq!(context.depth(), 2);
    assert_eq!(context.get_value("n"), Some(&number(1)));
    // Without `strict` a name of an outer scope may be declared again.
    assert!(context.declare_variable("n", number(2), false).is_ok());
    assert_eq!(context.get_value("n"), Some(&number(2)));
    assert!(context.exists_variable("n", false));
    assert!(matches!(
        context.declare_variable("n", number(3), false),
        Err(TransformError::AlreadyExistingVariable(ref n)) if n == "n"
    ));
    // What is declared as `_` is thrown away.
    assert!(context.declare_variable("_", number(9), true).is_ok());
    assert!(context.declare_variable("_", number(9), true).is_ok());
    assert_eq!(context.get_value("_"), None);
    assert!(context.update_variable("n", number(4)).is_ok());
    assert_eq!(context.get_value("n"), Some(&number(4)));
    let frame = context.pop_scope().unwrap();
    assert_eq!(frame.get_value("n"), Some(&number(4)));
    assert_eq!(context.depth(), 1);
    assert_eq!(context.get_value("n"), Some(&number(1)));
    // The bottom scope stays.
    assert!(context.pop_scope().is_err());
    assert_eq!(context.depth(), 1);
    assert_eq!(context.remove_variable("n").unwrap(), number(1));
    assert!(matches!(
        context.remove_variable("n"),
        Err(TransformError::MissingVariable(ref n)) if n == "n"
    ));
    assert!(!context.exists_variable("n", true));
}

#[test]
fn with_strict_a_name_of_any_scope_is_taken() {
    let mut context = TransformerContext::new(vec![("n".to_string(), number(1))]);
    context.add_scope();
    assert!(matches!(
        context.declare_variable("n", number(2), true),
        Err(TransformError::AlreadyExistingVariable(ref n)) if n == "n"
    ));
    assert_eq!(context.get_value("n"), Some(&number(1)));
    assert!(context.exists_variable("n", true));
    assert!(!context.exists_variable("n", false));
}

#[test]
fn compound_names_take_the_values_of_their_indexes() {
    let context = TransformerContext::new(vec![
        ("i".to_string(), number(3)),
        ("s".to_string(), text("north")),
        ("h".to_string(), Primitive::Number(Number::new(false, 15, 1))),
        ("b".to_string(), Primitive::Boolean(true)),
    ]);
    assert_eq!(
        context.flatten_variable_name(&["i".to_string(), "s".to_string()]).unwrap(),
        "3_north"
    );
    assert_eq!(
        context
            .flatten_compound_variable(&"x".to_string(), &["i".to_string(), "h".to_string()])
            .unwrap(),
        "x_3_1.5"
    );
    // An index is a name, and a number is the name of nothing.
    assert!(matches!(
        context.flatten_compound_variable(&"x".to_string(), &["i".to_string(), "2".to_string()]),
        Err(TransformError::MissingVariable(ref n)) if n == "2"
    ));
    assert!(matches!(
        context.flatten_variable_name(&["j".to_string()]),
        Err(TransformError::MissingVariable(ref n)) if n == "j"
    ));
    assert!(matches!(
        context.flatten_variable_name(&["b".to_string()]),
        Err(TransformError::WrongArgument(_))
    ));
    assert_eq!(context.get_numerical_constant("i").unwrap(), Number::from_integer(3));
    assert!(matches!(
        context.get_numerical_constant("s"),
        Err(TransformError::WrongArgument(_))
    ));
    assert!(matches!(
        context.get_numerical_constant("zz"),
        Err(TransformError::MissingVariable(ref n)) if n == "zz"
    ));
}

#[test]
fn built_in_functions_are_called_in_the_scopes() {
    assert_eq!(call_with("len(A)", "A = [4, 5, 6]").unwrap(), number(3));
    assert_eq!(
        call_with("range(2, 5)", "A = 1").unwrap(),
        Primitive::Iterable(IterableKind::Numbers(vec![
            Number::from_integer(2),
            Number::from_integer(3),
            Number::from_integer(4)
        ]))
    );
    assert_eq!(
        call_with("range(5, 2)", "A = 1").unwrap(),
        Primitive::Iterable(IterableKind::Numbers(vec![]))
    );
    match call_with("enumerate(A)", "A = [7, 8]").unwrap() {
        Primitive::Iterable(IterableKind::Tuples(tuples)) => {
            assert_eq!(tuples.len(), 2);
            assert_eq!(tuples[0].0, vec![number(7), number(0)]);
            assert_eq!(tuples[1].0, vec![number(8), number(1)]);
        }
        other => panic!("no tuples: {:?}", other),
    }
    match call_with("nodes(G)", GRAPH).unwrap() {
        Primitive::Iterable(IterableKind::Nodes(nodes)) => {
            let names: Vec<String> = nodes.iter().map(|n| n.get_name().clone()).collect();
            assert_eq!(names, vec!["A", "B", "C"]);
        }
        other => panic!("no nodes: {:?}", other),
    }
    assert!(matches!(call_with("len(G)", GRAPH), Err(TransformError::WrongArgument(_))));
    assert!(matches!(
        call_with("len(Z)", GRAPH),
        Err(TransformError::MissingVariable(ref n)) if n == "Z"
    ));
    assert!(matches!(call_with("range(1, G)", GRAPH), Err(TransformError::WrongArgument(_))));
}

#[test]
fn the_neighbours_of_a_node_are_edges_of_the_graph_that_leave_it() {
    let all = match call_with("edges(G)", GRAPH).unwrap() {
        Primitive::Iterable(IterableKind::Edges(edges)) => edges,
        other => panic!("no edges: {:?}", other),
    };
    assert_eq!(all.len(), 3);
    for name in ["A", "B", "C"] {
        let call = format!("neighs_of(\"{}\", G)", name);
        match call_with(&call, GRAPH).unwrap() {
            Primitive::Iterable(IterableKind::Edges(edges)) => {
                for e in &edges {
                    assert_eq!(e.from, name);
                    assert!(all.contains(e));
                }
                let leaving = all.iter().filter(|e| e.from == name).count();
                assert_eq!(edges.len(), leaving);
            }
            other => panic!("no edges: {:?}", other),
        }
    }
    assert!(matches!(
        call_with("neighs_of(\"Q\", G)", GRAPH),
        Err(TransformError::NotFound(_))
    ));
}

#[test]
fn products_are_pushed_over_sums_once_and_for_all() {
    let cases = [
        binop(Op::Mul, binop(Op::Add, var("a"), var("b")), var("c")),
        binop(Op::Mul, var("c"), binop(Op::Sub, var("a"), var("b"))),
        binop(Op::Div, binop(Op::Add, var("a"), var("b")), var("c")),
        binop(Op::Mul, Exp::UnOp(UnOp::Neg, Box::new(var("a"))), var("b")),
        binop(Op::Mul, var("a"), Exp::UnOp(UnOp::Neg, Box::new(var("b")))),
        binop(
            Op::Mul,
            binop(Op::Add, var("a"), var("b")),
            binop(Op::Sub, var("c"), var("d")),
        ),
        Exp::Mod(Box::new(binop(Op::Mul, binop(Op::Add, var("a"), var("b")), var("c")))),
    ];
    let expected = [
        "a * c + b * c",
        "c * a - c * b",
        "a / c + b / c",
        "-a * b",
        "-a * b",
        "a * c - a * d + b * c - b * d",
        "|a * c + b * c|",
    ];
    for (e, text) in cases.into_iter().zip(expected) {
        let once = e.flatten();
        assert_eq!(once.to_string(), text);
        let copy = once.duplicate();
        assert_eq!(once.flatten(), copy);
    }
}

#[test]
fn a_sum_deep_inside_products_is_pushed_out_in_one_pass() {
    let cases = [
        binop(Op::Mul, binop(Op::Mul, var("p"), binop(Op::Add, var("q"), var("r"))), var("y")),
        binop(Op::Mul, binop(Op::Mul, binop(Op::Add, var("a"), var("b")), var("c")), var("d")),
        Exp::UnOp(
            UnOp::Neg,
            Box::new(binop(Op::Mul, binop(Op::Sub, var("a"), var("b")), var("c"))),
        ),
        binop(
            Op::Div,
            binop(Op::Mul, var("k"), binop(Op::Add, var("a"), var("b"))),
            var("c"),
        ),
        binop(
            Op::Mul,
            Exp::UnOp(UnOp::Neg, Box::new(binop(Op::Add, var("a"), var("b")))),
            var("c"),
        ),
    ];
    let expected = [
        "p * q * y + p * r * y",
        "a * c * d + b * c * d",
        "-a * c - b * c",
        "k * a / c + k * b / c",
        "-a * c + b * c",
    ];
    for (e, text) in cases.into_iter().zip(expected) {
        let once = e.flatten();
        assert_eq!(once.to_string(), text);
        let copy = once.duplicate();
        assert_eq!(once.flatten(), copy);
    }
    // The expressions of a list are flattened each for itself.
    let least = Exp::Min(vec![
        binop(Op::Mul, binop(Op::Add, var("a"), var("b")), var("c")),
        var("d"),
    ])
    .flatten();
    assert_eq!(
        least,
        Exp::Min(vec![
            binop(Op::Add, binop(Op::Mul, var("a"), var("c")), binop(Op::Mul, var("b"), var("c"))),
            var("d"),
        ])
    );
    // The sum that the last case negates is one expression.
    let negated = binop(
        Op::Mul,
        Exp::UnOp(UnOp::Neg, Box::new(binop(Op::Add, var("a"), var("b")))),
        var("c"),
    )
    .flatten();
    assert_eq!(
        negated,
        Exp::UnOp(
            UnOp::Neg,
            Box::new(binop(
                Op::Add,
                binop(Op::Mul, var("a"), var("c")),
                binop(Op::Mul, var("b"), var("c"))
            ))
        )
    );
}

#[test]
fn expressions_know_their_shape() {
    let sum = binop(Op::Add, var("a"), var("b"));
    assert!(sum.is_sum());
    assert!(!binop(Op::Mul, var("a"), var("b")).is_sum());
    assert!(Exp::UnOp(UnOp::Neg, Box::new(var("a"))).is_negation());
    assert!(!var("a").is_negation());
    assert_eq!(*Exp::make_binop(Op::Sub, var("a"), var("b")), binop(Op::Sub, var("a"), var("b")));
    assert_eq!(*var("a").to_box(), var("a"));
    assert_eq!(sum.to_string_with_precedence(2), "(a + b)");
    assert_eq!(sum.to_string_with_precedence(1), "a + b");
}

#[test]
fn kinds_are_declared_in_scopes() {
    let mut context = TypeCheckerContext::new(
        vec![("n".to_string(), PrimitiveKind::Number)],
        HashMap::new(),
    );
    assert_eq!(context.get_value("n"), Some(&PrimitiveKind::Number));
    assert_eq!(context.get_value("m"), None);
    context.add_scope();
    assert!(context.declare_variable("s", PrimitiveKind::String, true).is_ok());
    assert!(matches!(
        context.declare_variable("n", PrimitiveKind::String, true),
        Err(TransformError::AlreadyExistingVariable(ref n)) if n == "n"
    ));
    assert!(context.check_compound_variable(&["n".to_string(), "s".to_string()]).is_ok());
    assert!(matches!(
        context.check_compound_variable(&["q".to_string()]),
        Err(TransformError::MissingVariable(ref n)) if n == "q"
    ));
    assert!(context.declare_variable("g", PrimitiveKind::Graph, false).is_ok());
    assert!(matches!(
        context.check_compound_variable(&["g".to_string()]),
        Err(TransformError::WrongArgument(_))
    ));
    let frame = context.pop_scope().unwrap();
    assert_eq!(frame.get_value("s"), Some(&PrimitiveKind::String));
    assert_eq!(context.get_value("s"), None);
    assert!(context.pop_scope().is_err());
}

#[test]
fn tokens_are_kept_by_the_place_where_they_start() {
    let mut context = TypeCheckerContext::new(vec![], HashMap::new());
    let span = InputSpan::new(2, 3, 14, 1);
    context.add_token_type(PrimitiveKind::Number, span, Some("x".to_string()));
    context.add_token_type(PrimitiveKind::Graph, InputSpan::new(3, 1, 20, 4), None);
    assert_eq!(context.get_value("x"), Some(&PrimitiveKind::Number));
    let map = context.into_token_map();
    assert_eq!(map.len(), 2);
    let token: &TypedToken = &map[&14];
    assert_eq!(token.span, span);
    assert_eq!(token.value, PrimitiveKind::Number);
    assert_eq!(token.identifier, Some("x".to_string()));
    assert_eq!(map[&20].value, PrimitiveKind::Graph);
    assert_eq!(map[&20].identifier, None);
}

#[test]
fn the_context_of_a_model_holds_the_kinds_of_its_constants() {
    let model = parse("min 1\ns.t.\nwhere\n A = [1, 2]\n s = \"a\"\n").unwrap();
    let context = TypeCheckerContext::new_from_constants(&model.problem.constants);
    assert_eq!(
        context.get_value("A"),
        Some(&PrimitiveKind::Iterable(Box::new(PrimitiveKind::Number)))
    );
    assert_eq!(context.get_value("s"), Some(&PrimitiveKind::String));
    let map = context.into_token_map();
    assert_eq!(map.len(), 2);
    assert_eq!(map[&model.problem.constants[0].name.span.start].identifier, Some("A".to_string()));
}

#[test]
fn errors_of_an_outside_solver_are_told_apart() {
    assert_eq!(solver_error_of(good_lp::ResolutionError::Unbounded), SolverError::Unbounded);
    assert_eq!(solver_error_of(good_lp::ResolutionError::Infeasible), SolverError::Infeasible);
    assert_eq!(
        solver_error_of(good_lp::ResolutionError::Str("no licence".to_string())),
        SolverError::Other("no licence".to_string())
    );
    assert_eq!(
        solver_error_of(good_lp::ResolutionError::Other("stopped")),
        SolverError::Other("stopped".to_string())
    );
}

#[test]
fn a_call_kept_in_the_tree_has_its_text() {
    let (e, _) = objective_with("len(neigh_edges(n))", "n = 1");
    match e {
        PreExp::FunctionCall(_, f) => {
            assert!(matches!(f, BuiltinFunction::Len(_)));
            assert_eq!(f.to_string(), "len(neigh_edges(n))");
        }
        other => panic!("no call: {:?}", other),
    }
}

#[test]
fn no_operator_applies_to_an_iterable() {
    let list = IterableKind::Numbers(vec![Number::from_integer(1)]);
    assert!(!IterableKind::can_apply_binary_op(Op::Add, &number(1)));
    assert!(!IterableKind::can_apply_unary_op(UnOp::Neg));
    assert!(list.apply_binary_op(Op::Add, &number(1)).is_err());
    assert!(list.apply_unary_op(UnOp::Neg).is_err());
    let frame: Frame<Primitive> = Frame::default();
    assert!(!frame.has_variable("a"));
}
