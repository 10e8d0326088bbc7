use rooc::error::{CompilationError, ParseError};
use rooc::math::{Comparison, Op, OptimizationType, UnOp, VariableDomain};
use rooc::number::Number;
use rooc::parser::lexer::{tokenize, Symbol, TokenKind};
use rooc::parser::pre_exp::{
    BlockFunctionKind, BlockScopedFunctionKind, BuiltinFunction, Parameter, PreExp, VariableType,
};
use rooc::parser::reader::{parse, PreModel, RoocParser};
use rooc::primitives::graph::GraphEdge;
use rooc::primitives::primitive::{IterableKind, Primitive};
use rooc::span::InputSpan;

fn model(source: &str) -> PreModel {
    match parse(source) {
        Ok(m) => m,
        Err(e) => panic!("{} does not parse: {}", source, e.to_string()),
    }
}

fn objective(source: &str) -> PreExp {
    model(&format!("min {}\ns.t.\n", source)).problem.objective.rhs
}

fn refused(source: &str) -> CompilationError {
    match parse(source) {
        Ok(_) => panic!("{} was parsed", source),
        Err(e) => e,
    }
}

fn whole(n: i64) -> Number {
    Number::from_integer(n)
}

#[test]
fn tokens_carry_their_kind_and_place() {
    let tokens = tokenize("min 3x\n  <= \"a b\"").unwrap();
    let kinds: Vec<&TokenKind> = tokens.iter().map(|t| &t.kind).collect();
    assert_eq!(
        kinds,
        vec![
            &TokenKind::Ident("min".to_string()),
            &TokenKind::Number(whole(3)),
            &TokenKind::Ident("x".to_string()),
            &TokenKind::Separator,
            &TokenKind::Symbol(Symbol::LowerOrEqual),
            &TokenKind::Text("a b".to_string()),
        ]
    );
    assert_eq!(tokens[0].span, InputSpan::new(1, 1, 0, 3));
    assert_eq!(tokens[1].span, InputSpan::new(1, 5, 4, 1));
    assert_eq!(tokens[2].span, InputSpan::new(1, 6, 5, 1));
    assert_eq!(tokens[4].span, InputSpan::new(2, 3, 9, 2));
    assert_eq!(tokens[5].span, InputSpan::new(2, 6, 12, 5));
}

#[test]
fn tokens_of_signs_and_decimals() {
    let tokens = tokenize("s.t. a_1 .. 2.50 -> >= ; |").unwrap();
    let kinds: Vec<&TokenKind> = tokens.iter().map(|t| &t.kind).collect();
    assert_eq!(
        kinds,
        vec![
            &TokenKind::Symbol(Symbol::SubjectTo),
            &TokenKind::Ident("a".to_string()),
            &TokenKind::Symbol(Symbol::Underscore),
            &TokenKind::Number(whole(1)),
            &TokenKind::Symbol(Symbol::DotDot),
            &TokenKind::Number(Number::new(false, 250, 2)),
            &TokenKind::Symbol(Symbol::Arrow),
            &TokenKind::Symbol(Symbol::UpperOrEqual),
            &TokenKind::Separator,
            &TokenKind::Symbol(Symbol::Bar),
        ]
    );
}

#[test]
fn lexer_refuses_what_is_no_token() {
    let e = tokenize("min x ?").unwrap_err();
    assert!(matches!(e.kind, ParseError::UnexpectedToken(_)));
    assert_eq!((e.start_line, e.start), (1, 7));
    let e = tokenize("a = \"open").unwrap_err();
    assert!(matches!(e.kind, ParseError::MissingToken(_)));
    assert_eq!(e.start_line, 1);
}

#[test]
fn a_whole_model_is_read() {
    let source = "
    min 3x + 4y + 6z
    s.t.
    x + 3y + 4z = 1
    define
        x, y as Real
        z as Integer
    ";
    let parsed = RoocParser::new(source.to_string()).parse().unwrap();
    let (problem, domains) = parsed.into_parts();
    assert_eq!(problem.objective.objective_type, OptimizationType::Min);
    assert_eq!(problem.objective.rhs.to_string(), "3 * x + 4 * y + 6 * z");
    assert_eq!(problem.conditions.len(), 1);
    assert_eq!(problem.conditions[0].lhs.to_string(), "x + 3 * y + 4 * z");
    assert_eq!(problem.conditions[0].condition_type, Comparison::Equal);
    assert_eq!(problem.conditions[0].rhs.to_string(), "1");
    assert!(problem.conditions[0].iteration.is_empty());
    assert_eq!(problem.conditions[0].span, InputSpan::new(4, 17, 47, 1));
    assert!(problem.constants.is_empty());
    let declared: Vec<(&str, VariableDomain)> =
        domains.iter().map(|d| (d.name.value.as_str(), d.domain)).collect();
    assert_eq!(
        declared,
        vec![
            ("x", VariableDomain::Real),
            ("y", VariableDomain::Real),
            ("z", VariableDomain::Integer)
        ]
    );
}

#[test]
fn a_model_on_one_line_is_read() {
    let m = model("min 3x + 4y + 6z s.t. x+3y+4z=1; 2x+y+3z=2");
    assert_eq!(m.problem.conditions.len(), 2);
    assert_eq!(m.problem.conditions[1].lhs.to_string(), "2 * x + y + 3 * z");
    assert_eq!(m.problem.conditions[1].rhs.to_string(), "2");
}

#[test]
fn negation_binds_tighter_than_products_and_products_than_sums() {
    // -a * b + c / d - e  is  (((-a) * b) + (c / d)) - e
    match objective("-a * b + c / d - e") {
        PreExp::BinaryOperation(minus, left, e) => {
            assert_eq!(minus.value, Op::Sub);
            assert!(matches!(*e, PreExp::Variable(ref n) if n.value == "e"));
            match *left {
                PreExp::BinaryOperation(plus, product, quotient) => {
                    assert_eq!(plus.value, Op::Add);
                    match *product {
                        PreExp::BinaryOperation(times, negated, b) => {
                            assert_eq!(times.value, Op::Mul);
                            assert!(matches!(*b, PreExp::Variable(ref n) if n.value == "b"));
                            match *negated {
                                PreExp::UnaryOperation(op, a) => {
                                    assert_eq!(op.value, UnOp::Neg);
                                    assert!(
                                        matches!(*a, PreExp::Variable(ref n) if n.value == "a")
                                    );
                                }
                                other => panic!("no negation: {:?}", other),
                            }
                        }
                        other => panic!("no product: {:?}", other),
                    }
                    match *quotient {
                        PreExp::BinaryOperation(over, _, _) => assert_eq!(over.value, Op::Div),
                        other => panic!("no quotient: {:?}", other),
                    }
                }
                other => panic!("no sum: {:?}", other),
            }
        }
        other => panic!("no difference: {:?}", other),
    }
}

#[test]
fn operators_of_one_precedence_group_to_the_left() {
    match objective("a - b - c") {
        PreExp::BinaryOperation(_, left, right) => {
            assert_eq!(left.to_string(), "a - b");
            assert_eq!(right.to_string(), "c");
        }
        other => panic!("no difference: {:?}", other),
    }
    match objective("a - (b - c)") {
        PreExp::BinaryOperation(_, left, right) => {
            assert_eq!(left.to_string(), "a");
            assert_eq!(right.to_string(), "b - c");
        }
        other => panic!("no difference: {:?}", other),
    }
}

#[test]
fn brackets_and_bars_are_read() {
    assert_eq!(objective("(a + b) * c").to_string(), "(a + b) * c");
    match objective("|x - 1| + 2") {
        PreExp::BinaryOperation(_, left, _) => match *left {
            PreExp::Mod(span, inner) => {
                assert_eq!(span, InputSpan::new(1, 5, 4, 1));
                assert_eq!(inner.to_string(), "x - 1");
            }
            other => panic!("no absolute value: {:?}", other),
        },
        other => panic!("no sum: {:?}", other),
    }
    assert_eq!(objective("2(a + b)").to_string(), "2 * (a + b)");
    assert_eq!(objective("-(a + b)").to_string(), "-(a + b)");
}

#[test]
fn a_number_in_front_of_a_word_multiplies_it() {
    match objective("3x") {
        PreExp::BinaryOperation(op, l, r) => {
            assert_eq!(op.value, Op::Mul);
            assert!(matches!(*l, PreExp::Number(ref n) if n.value == whole(3)));
            assert!(matches!(*r, PreExp::Variable(ref n) if n.value == "x"));
        }
        other => panic!("no product: {:?}", other),
    }
    // With a blank between them the two do not belong together.
    let e = refused("min 3 x\ns.t.\n");
    assert!(matches!(e.kind, ParseError::MissingToken(ref s) if s == "s.t."));
}

#[test]
fn names_with_parts_are_read() {
    match objective("x_i") {
        PreExp::CompoundVariable(c) => {
            assert_eq!(c.value.name, "x");
            assert_eq!(c.value.indexes, vec!["i".to_string()]);
        }
        other => panic!("no compound name: {:?}", other),
    }
    match objective("x_{i,j}") {
        PreExp::CompoundVariable(c) => {
            assert_eq!(c.value.name, "x");
            assert_eq!(c.value.indexes, vec!["i".to_string(), "j".to_string()]);
        }
        other => panic!("no compound name: {:?}", other),
    }
    match objective("x_i_2") {
        PreExp::CompoundVariable(c) => {
            assert_eq!(c.value.indexes, vec!["i".to_string(), "2".to_string()]);
        }
        other => panic!("no compound name: {:?}", other),
    }
    // A name whose parts are all numbers is the name of one variable.
    assert!(matches!(objective("x_1"), PreExp::Variable(ref n) if n.value == "x_1"));
    assert!(matches!(objective("x_{1,2}"), PreExp::Variable(ref n) if n.value == "x_1_2"));
    assert!(matches!(objective("x"), PreExp::Variable(ref n) if n.value == "x"));
}

#[test]
fn accesses_are_read() {
    match objective("a[i][j + 1]") {
        PreExp::ArrayAccess(a) => {
            assert_eq!(a.value.name, "a");
            assert_eq!(a.value.accesses.len(), 2);
            assert_eq!(a.value.accesses[0].to_string(), "i");
            assert_eq!(a.value.accesses[1].to_string(), "j + 1");
        }
        other => panic!("no access: {:?}", other),
    }
    let e = refused("min a[i\ns.t.\n");
    assert!(matches!(e.kind, ParseError::MissingToken(ref s) if s == "]"));
}

#[test]
fn functions_over_iteration_sets_are_read() {
    match objective("sum(i in 0..3, (a, _) in enumerate(A)) { x_i * a }") {
        PreExp::BlockScopedFunction(f) => {
            assert_eq!(f.value.kind, BlockScopedFunctionKind::Sum);
            assert_eq!(f.value.iters.len(), 2);
            assert!(matches!(f.value.iters[0].var, VariableType::Single(ref n) if n.value == "i"));
            match &f.value.iters[0].iterator.value {
                PreExp::FunctionCall(_, BuiltinFunction::Range(r)) => {
                    assert!(matches!(r.from, Parameter::Number(n) if n == whole(0)));
                    assert!(matches!(r.to, Parameter::Number(n) if n == whole(3)));
                }
                other => panic!("no range: {:?}", other),
            }
            match &f.value.iters[1].var {
                VariableType::Tuple(names) => {
                    let names: Vec<&str> = names.iter().map(|n| n.value.as_str()).collect();
                    assert_eq!(names, vec!["a", "_"]);
                }
                other => panic!("no tuple: {:?}", other),
            }
            assert!(matches!(
                f.value.iters[1].iterator.value,
                PreExp::FunctionCall(_, BuiltinFunction::Enumerate(_))
            ));
            assert_eq!(f.value.exp.to_string(), "x_i * a");
        }
        other => panic!("no sum: {:?}", other),
    }
    assert_eq!(
        objective("prod(i in 0..len(C)) { C[i] }").to_string(),
        "prod(i in 0..len(C)) { C[i] }"
    );
}

#[test]
fn functions_over_lists_are_read() {
    match objective("max { a, b + 1, 3 }") {
        PreExp::BlockFunction(f) => {
            assert_eq!(f.value.kind, BlockFunctionKind::Max);
            let items: Vec<String> = f.value.exps.iter().map(|e| e.to_string()).collect();
            assert_eq!(items, vec!["a", "b + 1", "3"]);
        }
        other => panic!("no list function: {:?}", other),
    }
    // Behind `min` the objective may itself be a minimum.
    let m = model("min min { a, b }\ns.t.\n");
    assert_eq!(m.problem.objective.rhs.to_string(), "min { a, b }");
    // A word that names a function names nothing else.
    let e = refused("min avg + 1\ns.t.\n");
    assert!(matches!(e.kind, ParseError::UnexpectedToken(ref s) if s == "avg"));
}

#[test]
fn calls_of_built_in_functions_are_read() {
    match objective("len(neighs_of(\"a\", G))") {
        PreExp::FunctionCall(span, BuiltinFunction::Len(f)) => {
            assert_eq!(span, InputSpan::new(1, 5, 4, 3));
            match f.of_iterable {
                Parameter::FunctionCall(inner) => match *inner {
                    BuiltinFunction::NeighboursOf(n) => {
                        assert!(matches!(n.of_node, Parameter::String(ref s) if s == "a"));
                        assert!(matches!(n.in_graph, Parameter::Variable(ref s) if s == "G"));
                    }
                    other => panic!("no neighs_of: {:?}", other),
                },
                other => panic!("no call: {:?}", other),
            }
        }
        other => panic!("no call: {:?}", other),
    }
    assert!(matches!(
        objective("range(1, n)"),
        PreExp::FunctionCall(_, BuiltinFunction::Range(_))
    ));
}

#[test]
fn unknown_functions_and_wrong_counts_are_refused() {
    let e = refused("min foo(1)\ns.t.\n");
    assert!(matches!(e.kind, ParseError::SemanticError(ref s) if s == "Unknown function foo"));
    assert_eq!((e.start_line, e.start, e.end), (1, 5, 8));
    assert_eq!(e.text, "foo");
    let e = refused("min neighs_of(a)\ns.t.\n");
    match e.kind {
        ParseError::WrongNumberOfArguments(got, expected) => {
            assert_eq!(got, 1);
            assert_eq!(expected, vec!["Node".to_string(), "Graph".to_string()]);
        }
        other => panic!("wrong error: {:?}", other),
    }
    let e = refused("min len()\ns.t.\n");
    match e.kind {
        ParseError::WrongNumberOfArguments(got, expected) => {
            assert_eq!(got, 0);
            assert_eq!(expected, vec!["Iterable".to_string()]);
        }
        other => panic!("wrong error: {:?}", other),
    }
    let e = refused("min len(a + b)\ns.t.\n");
    assert!(matches!(e.kind, ParseError::SemanticError(_)));
}

#[test]
fn conditions_take_iteration_sets() {
    let m = model("min 1\ns.t.\n x_i + y_j <= C[i] for i in 0..3, j in nodes(G)\n x_0 >= 1\n");
    let conditions = &m.problem.conditions;
    assert_eq!(conditions.len(), 2);
    assert_eq!(conditions[0].condition_type, Comparison::LowerOrEqual);
    assert_eq!(conditions[0].iteration.len(), 2);
    assert_eq!(conditions[0].iteration[0].to_string(), "i in 0..3");
    assert_eq!(conditions[0].iteration[1].to_string(), "j in nodes(G)");
    assert_eq!(conditions[1].condition_type, Comparison::UpperOrEqual);
    assert!(conditions[1].iteration.is_empty());
    assert_eq!(conditions[1].lhs.to_string(), "x_0");
}

#[test]
fn objectives_are_min_max_or_solve() {
    assert_eq!(model("max x\ns.t.\n").problem.objective.objective_type, OptimizationType::Max);
    let m = model("solve\ns.t.\nx >= 1");
    assert_eq!(m.problem.objective.objective_type, OptimizationType::Satisfy);
    assert_eq!(m.problem.objective.rhs.to_string(), "0");
    let e = refused("x >= 1");
    assert!(matches!(e.kind, ParseError::MissingToken(ref s) if s == "min, max or solve"));
    let e = refused("");
    assert!(matches!(e.kind, ParseError::MissingToken(ref s) if s == "min, max or solve"));
    assert_eq!((e.start_line, e.start, e.end_line, e.end), (1, 1, 1, 1));
}

#[test]
fn constants_are_read() {
    let m = model(
        "min 1\ns.t.\nwhere\n a = 3\n b = -2.5\n s = \"text\"\n t = true\n f = false\n\
         v = [1, 2, 3]\n m = [[1, 2], [3, 4]]\n w = [\"a\", \"b\"]\n e = []\n",
    );
    let constants = &m.problem.constants;
    let names: Vec<&str> = constants.iter().map(|c| c.name.value.as_str()).collect();
    assert_eq!(names, vec!["a", "b", "s", "t", "f", "v", "m", "w", "e"]);
    assert_eq!(constants[0].value, Primitive::Number(whole(3)));
    assert_eq!(constants[1].value, Primitive::Number(Number::new(true, 25, 1)));
    assert_eq!(constants[2].value, Primitive::String("text".to_string()));
    assert_eq!(constants[3].value, Primitive::Boolean(true));
    assert_eq!(constants[4].value, Primitive::Boolean(false));
    assert_eq!(
        constants[5].value,
        Primitive::Iterable(IterableKind::Numbers(vec![whole(1), whole(2), whole(3)]))
    );
    assert_eq!(
        constants[6].value,
        Primitive::Iterable(IterableKind::Iterables(vec![
            IterableKind::Numbers(vec![whole(1), whole(2)]),
            IterableKind::Numbers(vec![whole(3), whole(4)]),
        ]))
    );
    assert_eq!(
        constants[7].value,
        Primitive::Iterable(IterableKind::Strings(vec!["a".to_string(), "b".to_string()]))
    );
    assert_eq!(constants[8].value, Primitive::Iterable(IterableKind::Numbers(vec![])));
    assert_eq!(constants[0].name.span, InputSpan::new(4, 2, 18, 1));
}

#[test]
fn lists_of_mixed_values_are_refused() {
    let e = refused("min 1\ns.t.\nwhere\n a = [1, \"b\"]\n");
    assert!(matches!(e.kind, ParseError::SemanticError(_)));
    assert_eq!(e.start_line, 4);
}

#[test]
fn graphs_are_read() {
    let m = model(
        "min 1\ns.t.\nwhere\n G = Graph {\n  A -> [B: 2, C],\n  B -> [A: -1.5, A: 7]\n  C\n  D -> []\n }\n",
    );
    match &m.problem.constants[0].value {
        Primitive::Graph(g) => {
            let nodes = g.vertices();
            let names: Vec<String> = nodes.iter().map(|n| n.get_name().clone()).collect();
            assert_eq!(names, vec!["A", "B", "C", "D"]);
            let edges = g.edges();
            assert_eq!(
                edges,
                vec![
                    GraphEdge::new("A".to_string(), "B".to_string(), Some(whole(2))),
                    GraphEdge::new("A".to_string(), "C".to_string(), None),
                    // Of two edges to one node the last is kept.
                    GraphEdge::new("B".to_string(), "A".to_string(), Some(whole(7))),
                ]
            );
        }
        other => panic!("no graph: {:?}", other),
    }
    let e = refused("min 1\ns.t.\nwhere\n G = Graph { A -> [B }\n");
    assert!(matches!(e.kind, ParseError::MissingToken(ref s) if s == "]"));
    let e = refused("min 1\ns.t.\nwhere\n G = Graph { A -> [B]\n");
    assert!(matches!(e.kind, ParseError::MissingToken(ref s) if s == "}"));
}

#[test]
fn declarations_of_variables_are_read() {
    let m = model("min x\ns.t.\ndefine\n x, y_1 as NonNegativeReal\n b as Boolean; z_i as Integer\n");
    let declared: Vec<(&str, VariableDomain)> =
        m.domains.iter().map(|d| (d.name.value.as_str(), d.domain)).collect();
    assert_eq!(
        declared,
        vec![
            ("x", VariableDomain::NonNegativeReal),
            ("y_1", VariableDomain::NonNegativeReal),
            ("b", VariableDomain::Boolean),
            ("z", VariableDomain::Integer),
        ]
    );
    let e = refused("min x\ns.t.\ndefine\n x as Number\n");
    assert!(matches!(e.kind, ParseError::MissingToken(ref s) if s == "a domain"));
    let e = refused("min x\ns.t.\ndefine\n x Real\n");
    assert!(matches!(e.kind, ParseError::MissingToken(ref s) if s == "as"));
}

#[test]
fn the_first_token_that_does_not_fit_is_reported() {
    let e = refused("min x\nx >= 1");
    assert!(matches!(e.kind, ParseError::MissingToken(ref s) if s == "s.t."));
    assert_eq!((e.start_line, e.start), (2, 1));

    let e = refused("min x\ns.t.\nx + >= 1");
    assert!(matches!(e.kind, ParseError::UnexpectedToken(ref s) if s == ">="));
    assert_eq!((e.start_line, e.start, e.end_line, e.end), (3, 5, 3, 7));
    assert_eq!(e.text, ">=");
    assert_eq!(e.to_string(), "Error at 3:5 to 3:7\n\tUnexpected token: \">=\" >=");

    let e = refused("min x\ns.t.\nx + 1");
    assert!(matches!(e.kind, ParseError::MissingToken(ref s) if s == "a comparison"));

    let e = refused("min x\ns.t.\nx >= 1 y <= 2");
    assert!(matches!(e.kind, ParseError::UnexpectedToken(ref s) if s == "y"));

    let e = refused("min x\ns.t.\nx >= (1 + 2");
    assert!(matches!(e.kind, ParseError::MissingToken(ref s) if s == ")"));

    let e = refused("min sum(i of 0..3) { i }\ns.t.\n");
    assert!(matches!(e.kind, ParseError::MissingToken(ref s) if s == "in"));

    let e = refused("min sum(i in 0..3) i\ns.t.\n");
    assert!(matches!(e.kind, ParseError::MissingToken(ref s) if s == "{"));

    let e = refused("min x\ns.t.\nx >= ");
    assert!(matches!(e.kind, ParseError::MissingToken(ref s) if s == "more input"));

    let e = refused("min x\ns.t.\nx >= 1 for i in (a+b)..3");
    assert!(matches!(e.kind, ParseError::SemanticError(_)));

    // The constants stand in front of the declarations.
    assert!(parse("min x\ns.t.\nx >= 1\ndefine\n x as Real\nwhere\n a = 1\n").is_err());
    assert!(parse("min x\ns.t.\nx >= 1\nwhere\n a = 1\ndefine\n x as Real\n").is_ok());
}

#[test]
fn the_words_of_the_language_name_nothing() {
    for word in ["sum", "in", "for", "where", "Graph", "Real", "Boolean"] {
        let e = refused(&format!("min 2 * {}\ns.t.\n", word));
        assert!(matches!(e.kind, ParseError::UnexpectedToken(ref s) if s == word), "{}", word);
        assert!(parse(&format!("min 1\ns.t.\nwhere\n {} = 1\n", word)).is_err(), "{}", word);
        assert!(
            parse(&format!("min sum({} in 0..3) {{ 1 }}\ns.t.\n", word)).is_err(),
            "{}",
            word
        );
        assert!(parse(&format!("min 1\ns.t.\ndefine\n {} as Real\n", word)).is_err(), "{}", word);
    }
    // Other words are free, also those that begin like one of them.
    assert!(parse("min summit + inner\ns.t.\ndefine\n summit, inner as Real\n").is_ok());
}

#[test]
fn the_text_of_an_expression_keeps_its_shape() {
    assert_eq!(objective("a - (b - c)").to_string(), "a - (b - c)");
    assert_eq!(objective("a - b - c").to_string(), "a - b - c");
    assert_eq!(objective("a / (b * c)").to_string(), "a / (b * c)");
    assert_eq!(objective("a + (b + c)").to_string(), "a + (b + c)");
    assert_eq!(objective("a + b * c").to_string(), "a + b * c");
    assert_eq!(objective("(a + b) * c").to_string(), "(a + b) * c");
    assert_eq!(objective("neighs_of(\"a\", G)").to_string(), "neighs_of(\"a\",G)");
}

fn printed(m: &PreModel) -> String {
    let mut out = String::new();
    out.push_str(match m.problem.objective.objective_type {
        OptimizationType::Min => "min ",
        OptimizationType::Max => "max ",
        OptimizationType::Satisfy => "solve",
    });
    if m.problem.objective.objective_type != OptimizationType::Satisfy {
        out.push_str(&m.problem.objective.rhs.to_string());
    }
    out.push_str("\ns.t.\n");
    for c in &m.problem.conditions {
        out.push_str(&c.lhs.to_string());
        out.push(' ');
        out.push_str(&c.condition_type.to_string());
        out.push(' ');
        out.push_str(&c.rhs.to_string());
        if !c.iteration.is_empty() {
            let sets: Vec<String> = c.iteration.iter().map(|s| s.to_string()).collect();
            out.push_str(" for ");
            out.push_str(&sets.join(", "));
        }
        out.push('\n');
    }
    out
}

#[test]
fn printing_and_parsing_again_gives_the_same_tree() {
    let sources = [
        "min 3x + 4y + 6z s.t. x+3y+4z=1; 2x+y+3z=2",
        "max   (a+b)*c - -d / 2\ns.t.\n |x - y| <= 3.50\n",
        "min sum(i in 0..len(C), (u, v) in edges(G)) { C[i] * X_i_u + w[i][0] }\ns.t.\n \
         avg { x, y, 2z } >= min(j in enumerate(A)) { j } for k in neigh_edges(n), t in 1..k\n",
        "solve\ns.t.\n x_1 + x_{2,3} = len(neighs_of(a, G))",
        "min a - (b - c) - d / (e / f) + (g + h)\ns.t.\n a * (b * c) >= -(d + e) * -f\n",
        "max len(neighs_of(\"a\", G)) + |-(a - (b + c))|\ns.t.\n",
    ];
    for source in sources {
        let first = model(source);
        let text = printed(&first);
        let second = model(&text);
        assert_eq!(printed(&second), text, "for {}", source);
        assert_eq!(first.problem.conditions.len(), second.problem.conditions.len());
        assert_eq!(
            format!("{:?}", strip(&first.problem.objective.rhs)),
            format!("{:?}", strip(&second.problem.objective.rhs)),
            "for {}",
            source
        );
    }
}

/// The shape of an expression without the places of its nodes.
fn strip(e: &PreExp) -> String {
    match e {
        PreExp::Number(n) => format!("N({})", n.value.to_string()),
        PreExp::Mod(_, x) => format!("Mod({})", strip(x)),
        PreExp::BlockFunction(f) => {
            let items: Vec<String> = f.value.exps.iter().map(strip).collect();
            format!("{:?}[{}]", f.value.kind, items.join(";"))
        }
        PreExp::Variable(n) => format!("V({})", n.value),
        PreExp::CompoundVariable(c) => format!("C({},{:?})", c.value.name, c.value.indexes),
        PreExp::BinaryOperation(op, l, r) => {
            format!("B({:?},{},{})", op.value, strip(l), strip(r))
        }
        PreExp::UnaryOperation(op, x) => format!("U({:?},{})", op.value, strip(x)),
        PreExp::ArrayAccess(a) => {
            let items: Vec<String> = a.value.accesses.iter().map(strip).collect();
            format!("A({},{})", a.value.name, items.join(";"))
        }
        PreExp::BlockScopedFunction(f) => {
            let sets: Vec<String> = f
                .value
                .iters
                .iter()
                .map(|s| format!("{}:{}", s.var.to_string(), strip(&s.iterator.value)))
                .collect();
            format!("{:?}<{}>({})", f.value.kind, sets.join(";"), strip(&f.value.exp))
        }
        PreExp::FunctionCall(_, f) => format!("F({})", f.to_string()),
    }
}
