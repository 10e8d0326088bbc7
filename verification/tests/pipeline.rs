use rooc::error::{ParseError, TransformError};
use rooc::fraction::Fraction;
use rooc::math::{Comparison, VariableDomain};
use rooc::parser::reader::parse;
use rooc::parser::transformer::transform_parsed_problem;
use rooc::pipeline::{begins_with_stem, compile, compile_source, find_domain, CompileError};
use rooc::solvers::linear_solver::{solve_linear_model, LpSolution, SolverError};
use rooc::span::InputSpan;
use rooc::transformers::linearizer::LinearizationError;
use rooc::primitives::kind::PrimitiveKind;
use rooc::type_checker::checker::type_check_problem;
use rooc::type_checker::tokens::typed_tokens;

fn f(n: i32) -> Fraction {
    Fraction::from_integer(n)
}

fn q(n: i64, d: i64) -> Fraction {
    Fraction::new(n, d).unwrap()
}

fn solved(source: &str) -> LpSolution {
    let model = match compile_source(source) {
        Ok(m) => m,
        Err(e) => panic!("{} does not compile: {:?}", source, e),
    };
    solve_linear_model(&model, 1000).unwrap()
}

fn value_of(solution: &LpSolution, name: &str) -> Fraction {
    solution
        .assignment
        .iter()
        .find(|a| a.name == name)
        .unwrap_or_else(|| panic!("no value for {}", name))
        .value
}

/// The places that an error passed on its way up, and the error itself.
fn unwrapped(e: &TransformError) -> (Vec<InputSpan>, &TransformError) {
    let mut spans = Vec::new();
    let mut at = e;
    while let TransformError::SpannedError(inner, _) = at {
        spans.push(inner.span);
        at = &inner.value;
    }
    (spans, at)
}

#[test]
fn two_equalities_are_solved_from_the_source() {
    let solution = solved(
        "min 3x + 4y + 6z s.t. x+3y+4z=1; 2x+y+3z=2 define x, y, z as NonNegativeReal",
    );
    // With no variable below zero the two equalities leave one point.
    assert_eq!(solution.value, f(3));
    assert_eq!(value_of(&solution, "x"), f(1));
    assert_eq!(value_of(&solution, "y"), f(0));
    assert_eq!(value_of(&solution, "z"), f(0));
}

#[test]
fn a_maximum_is_found_at_a_vertex_from_the_source() {
    let solution = solved("max x + y\ns.t.\n x + y <= 2\n x >= 0\n y >= 0\ndefine\n x, y as NonNegativeReal");
    assert_eq!(solution.value, f(2));
    let x = value_of(&solution, "x");
    let y = value_of(&solution, "y");
    assert_eq!(x.add(&y), Some(f(2)));
    assert!(x == f(0) || y == f(0));
}

#[test]
fn a_sum_over_a_range_is_unrolled() {
    let parsed = parse("min sum(i in 0..3) { i }\ns.t.\n").unwrap();
    let problem = transform_parsed_problem(&parsed.problem).unwrap();
    assert_eq!(problem.objective.rhs.to_string(), "0 + 0 + 1 + 2");
    let model = compile(&parsed.problem, &parsed.domains).unwrap();
    assert_eq!(model.get_objective_offset(), f(3));
    assert!(model.get_variables().is_empty());
}

#[test]
fn a_condition_repeated_over_a_list_that_cannot_hold_is_infeasible() {
    let source = "min 1 s.t. sum(i in 0..5){ i } <= 1 for j in enumerate(A) where A=[1,2]";
    let parsed = parse(source).unwrap();
    let problem = transform_parsed_problem(&parsed.problem).unwrap();
    assert_eq!(problem.conditions.len(), 2);
    let model = compile_source(source).unwrap();
    let constraints = model.get_constraints();
    assert_eq!(constraints.len(), 2);
    for c in constraints {
        assert_eq!(*c.get_constraint_type(), Comparison::LowerOrEqual);
        // 10 <= 1, with the ten brought to the right.
        assert_eq!(c.get_rhs(), f(-9));
        assert!(c.get_coefficients().iter().all(|x| x.is_zero()));
    }
    assert_eq!(solve_linear_model(&model, 1000).unwrap_err(), SolverError::Infeasible);
}

#[test]
fn compound_names_become_variables() {
    let source = "min sum(i in 0..len(C)) { C[i] * X_i }\ns.t.\n X_0 + X_1 = 1\nwhere\n C = [3, 4]\n\
                  define\n X_0, X_1, X_i as NonNegativeReal";
    let solution = solved(source);
    assert_eq!(solution.value, f(3));
    assert_eq!(value_of(&solution, "X_0"), f(1));
    assert_eq!(value_of(&solution, "X_1"), f(0));
}

#[test]
fn a_name_that_is_not_declared_is_missing() {
    let parsed = parse("min x\ns.t.\n").unwrap();
    let e = type_check_problem(&parsed.problem, &parsed.domains).unwrap_err();
    let (spans, inner) = unwrapped(&e);
    assert!(matches!(inner, TransformError::MissingVariable(name) if name == "x"));
    assert_eq!(spans.last(), Some(&InputSpan::new(1, 5, 4, 1)));
    match compile_source("min x\ns.t.\n") {
        Err(CompileError::TypeCheck(e)) => {
            assert!(matches!(unwrapped(&e).1, TransformError::MissingVariable(n) if n == "x"));
        }
        other => panic!("expected a missing variable, got {:?}", other),
    }
}

#[test]
fn a_source_that_is_no_model_gives_the_parsers_error() {
    match compile_source("min x\ns.t.\n x >= ") {
        Err(CompileError::Parse(e)) => {
            assert!(matches!(e.kind, ParseError::MissingToken(_)));
            assert_eq!(e.start_line, 3);
        }
        other => panic!("expected a parser's error, got {:?}", other),
    }
}

#[test]
fn kinds_are_checked_before_the_model_is_expanded() {
    // A text cannot be multiplied.
    match compile_source("min S * 2\ns.t.\nwhere\n S = \"a\"\n") {
        Err(CompileError::TypeCheck(e)) => {
            assert!(matches!(unwrapped(&e).1, TransformError::OperatorError(_)));
        }
        other => panic!("expected an operator error, got {:?}", other),
    }
    // An access has an index for every level of the list.
    match compile_source("min M[0]\ns.t.\nwhere\n M = [[1, 2], [3, 4]]\n") {
        Err(CompileError::TypeCheck(e)) => {
            assert!(matches!(unwrapped(&e).1, TransformError::OutOfBounds(_)));
        }
        other => panic!("expected out of bounds, got {:?}", other),
    }
    // A number has no parts to give to two names.
    match compile_source("min sum((a, b) in 0..3) { a }\ns.t.\n") {
        Err(CompileError::TypeCheck(e)) => {
            assert!(matches!(unwrapped(&e).1, TransformError::Unspreadable(_)));
        }
        other => panic!("expected unspreadable, got {:?}", other),
    }
}

#[test]
fn an_index_behind_the_end_is_found_while_expanding() {
    for source in ["min A[5]\ns.t.\nwhere\n A = [1, 2]\n", "min A[0][1]\ns.t.\nwhere\n A = [1, 2]\n"]
    {
        match compile_source(source) {
            Err(CompileError::Transform(e)) => {
                assert!(matches!(unwrapped(&e).1, TransformError::OutOfBounds(_)));
            }
            other => panic!("expected out of bounds, got {:?}", other),
        }
    }
}

#[test]
fn a_product_of_variables_is_not_linear() {
    match compile_source("min x * y\ns.t.\ndefine\n x, y as NonNegativeReal") {
        Err(CompileError::Linearization(LinearizationError::NonLinear(_))) => {}
        other => panic!("expected a model that is not linear, got {:?}", other),
    }
}

#[test]
fn a_model_with_a_graph_is_compiled() {
    let source = "min sum((u, w, v) in edges(G)) { w * x_u_v }\n\
                  s.t.\n  sum((u, w, v) in neighs_of(\"A\", G)) { x_u_v } >= 1\n\
                  where\n  G = Graph { A -> [B: 2, C: 5], B -> [C: 1], C }\n\
                  define\n  x_u_v as NonNegativeReal";
    let model = compile_source(source).unwrap();
    assert_eq!(
        model.get_variables(),
        &vec!["x_A_B".to_string(), "x_A_C".to_string(), "x_B_C".to_string()]
    );
    assert_eq!(model.get_objective(), &vec![f(2), f(5), f(1)]);
    let solution = solve_linear_model(&model, 1000).unwrap();
    assert_eq!(solution.value, f(2));
    assert_eq!(value_of(&solution, "x_A_B"), f(1));
}

#[test]
fn decimal_coefficients_are_kept_exact() {
    let solution = solved("max 0.5x\ns.t.\n 1.5x <= 1\ndefine\n x as NonNegativeReal");
    assert_eq!(value_of(&solution, "x"), q(2, 3));
    assert_eq!(solution.value, q(1, 3));
}

#[test]
fn every_token_is_noted_with_its_kind() {
    let source = "min sum(i in 0..len(C)) { C[i] * x }\ns.t.\n x >= t for t in C\n G = G\n\
                  where\n C = [3, 4]\n G = Graph { A -> [B] }\ndefine\n x as Real\n";
    let parsed = parse(source).unwrap();
    let tokens = typed_tokens(&parsed.problem, &parsed.domains).unwrap();
    let at = |text: &str| source.find(text).unwrap();

    // The names that blocks bind have the kind of what they are bound to.
    let i = &tokens[&at("i in")];
    assert_eq!(i.identifier, Some("i".to_string()));
    assert_eq!(i.value, PrimitiveKind::Number);
    assert_eq!(i.span, InputSpan::new(1, 9, 8, 1));
    let t = &tokens[&at("t in")];
    assert_eq!(t.identifier, Some("t".to_string()));
    assert_eq!(t.value, PrimitiveKind::Number);

    // Expressions have the kind of their value.
    assert_eq!(tokens[&at("sum")].value, PrimitiveKind::Number);
    assert_eq!(tokens[&at("sum")].identifier, None);
    assert_eq!(
        tokens[&at("..")].value,
        PrimitiveKind::Iterable(Box::new(PrimitiveKind::Number))
    );
    assert_eq!(tokens[&at("C[i]")].value, PrimitiveKind::Number);
    assert_eq!(tokens[&at("i]")].identifier, Some("i".to_string()));
    assert_eq!(tokens[&at("* x")].value, PrimitiveKind::Number);
    let x = &tokens[&at("x }")];
    assert_eq!(x.identifier, Some("x".to_string()));
    assert_eq!(x.value, PrimitiveKind::Number);
    assert_eq!(tokens[&at("G = G")].value, PrimitiveKind::Graph);
    assert_eq!(
        tokens[&at("C\n G")].value,
        PrimitiveKind::Iterable(Box::new(PrimitiveKind::Number))
    );

    // So have the names of the constants and of the variables.
    let c = &tokens[&at("C = [")];
    assert_eq!(c.identifier, Some("C".to_string()));
    assert_eq!(c.value, PrimitiveKind::Iterable(Box::new(PrimitiveKind::Number)));
    assert_eq!(tokens[&at("G = Graph")].value, PrimitiveKind::Graph);
    assert_eq!(tokens[&at("x as")].identifier, Some("x".to_string()));
    assert_eq!(tokens[&at("x as")].value, PrimitiveKind::Number);

    // A name that nothing declares is noted as of no kind.
    let parsed = parse("min y\ns.t.\n").unwrap();
    let tokens = typed_tokens(&parsed.problem, &parsed.domains).unwrap();
    assert_eq!(tokens.len(), 1);
    assert_eq!(tokens[&4].value, PrimitiveKind::Undefined);

    // A variable of the name of a constant cannot be declared.
    let parsed = parse("min 1\ns.t.\nwhere\n a = 1\ndefine\n a as Real\n").unwrap();
    assert!(matches!(
        typed_tokens(&parsed.problem, &parsed.domains),
        Err(TransformError::AlreadyExistingVariable(ref n)) if n == "a"
    ));
}

#[test]
fn variables_keep_the_domains_that_they_are_declared_with() {
    let source = "min x + y_1 + sum((u, w, v) in edges(G)) { z_u_v } + zeta\n\
                  s.t.\n  x >= 1\n\
                  where\n  G = Graph { A -> [B], B -> [A] }\n\
                  define\n  x as Integer\n  y_1 as Real\n  z_u_v as Boolean\n  zeta as NonNegativeReal";
    let model = compile_source(source).unwrap();
    assert_eq!(
        model.get_variables(),
        &vec![
            "x".to_string(),
            "y_1".to_string(),
            "z_A_B".to_string(),
            "z_B_A".to_string(),
            "zeta".to_string()
        ]
    );
    assert_eq!(
        model.get_domain(),
        &vec![
            VariableDomain::Integer,
            VariableDomain::Real,
            VariableDomain::Boolean,
            VariableDomain::Boolean,
            VariableDomain::NonNegativeReal,
        ]
    );
    // The simplex takes real numbers that are not below zero only.
    match solve_linear_model(&model, 100) {
        Err(SolverError::InvalidDomain { expected, got }) => {
            assert_eq!(expected, vec![VariableDomain::NonNegativeReal]);
            let names: Vec<&str> = got.iter().map(|(n, _)| n.as_str()).collect();
            assert_eq!(names, vec!["x", "y_1", "z_A_B", "z_B_A"]);
        }
        other => panic!("expected an invalid domain, got {:?}", other),
    }
    assert_eq!(find_domain(&Vec::new(), "x"), VariableDomain::NonNegativeReal);
    assert!(begins_with_stem("z", "z_top"));
    assert!(!begins_with_stem("z", "zeta_1"));
    assert!(!begins_with_stem("z_top", "z"));
}
