use rooc::error::TransformError;
use rooc::math::{Comparison, Op, OptimizationType};
use rooc::number::Number;
use rooc::parser::exp::Exp;
use rooc::parser::pre_exp::{
    AddressableAccess, BlockScopedFunction, BlockScopedFunctionKind, BuiltinFunction,
    CompoundVariable, Constant, EnumerateArray, IterableSet, LenOfIterableFn, NumericRange,
    Parameter, PreCondition, PreExp, PreObjective, PreProblem, VariableType,
};
use rooc::parser::transformer::{transform_parsed_problem, transform_problem, TransformerContext};
use rooc::primitives::primitive::{IterableKind, Primitive};
use rooc::span::{InputSpan, Spanned};

fn at(start: usize, len: usize) -> InputSpan {
    InputSpan::new(1, start + 1, start, len)
}

fn num(n: i64) -> PreExp {
    PreExp::Number(Spanned::new(Number::from_integer(n), at(0, 1)))
}

fn var(name: &str) -> PreExp {
    PreExp::Variable(Spanned::new(name.to_string(), at(0, name.len())))
}

fn range(from: i64, to: Parameter) -> PreExp {
    PreExp::FunctionCall(
        at(0, 4),
        BuiltinFunction::Range(NumericRange {
            from: Parameter::Number(Number::from_integer(from)),
            to,
        }),
    )
}

fn set(name: &str, producer: PreExp) -> IterableSet {
    IterableSet::new(
        VariableType::Single(Spanned::new(name.to_string(), at(0, 1))),
        Spanned::new(producer, at(0, 4)),
        at(0, 9),
    )
}

fn sum_over(sets: Vec<IterableSet>, body: PreExp) -> PreExp {
    PreExp::BlockScopedFunction(Spanned::new(
        BlockScopedFunction::new(BlockScopedFunctionKind::Sum, sets, Box::new(body)),
        at(0, 20),
    ))
}

fn n(v: i64) -> Exp {
    Exp::Number(Number::from_integer(v))
}

fn add(l: Exp, r: Exp) -> Exp {
    Exp::BinOp(Op::Add, Box::new(l), Box::new(r))
}

fn mul(l: Exp, r: Exp) -> Exp {
    Exp::BinOp(Op::Mul, Box::new(l), Box::new(r))
}

#[test]
fn sum_over_a_range_unrolls_into_a_left_fold() {
    let exp = sum_over(
        vec![set("i", range(0, Parameter::Number(Number::from_integer(3))))],
        var("i"),
    );
    let mut context = TransformerContext::new(vec![]);
    let result = exp.into_exp(&mut context).unwrap();
    assert_eq!(result, add(add(add(n(0), n(0)), n(1)), n(2)));
    assert_eq!(result.to_string(), "0 + 0 + 1 + 2");
    assert_eq!(context.depth(), 1);
}

#[test]
fn condition_with_iteration_gives_one_condition_per_element() {
    let a = Primitive::Iterable(IterableKind::Numbers(vec![
        Number::from_integer(1),
        Number::from_integer(2),
    ]));
    let lhs = sum_over(
        vec![set("i", range(0, Parameter::Number(Number::from_integer(5))))],
        var("i"),
    );
    let producer = PreExp::FunctionCall(
        at(0, 12),
        BuiltinFunction::Enumerate(EnumerateArray { array: Parameter::Variable("A".to_string()) }),
    );
    let condition = PreCondition::new(
        lhs,
        Comparison::LowerOrEqual,
        num(1),
        vec![set("j", producer)],
        at(0, 40),
    );
    let problem = PreProblem::new(
        PreObjective::new(OptimizationType::Min, num(1)),
        vec![condition],
        vec![Constant::new(Spanned::new("A".to_string(), at(50, 1)), a)],
    );
    let expanded = transform_parsed_problem(&problem).unwrap();
    assert_eq!(expanded.conditions.len(), 2);
    let expected = add(add(add(add(add(n(0), n(0)), n(1)), n(2)), n(3)), n(4));
    for condition in expanded.conditions.iter() {
        assert_eq!(condition.lhs, expected);
        assert_eq!(condition.condition_type, Comparison::LowerOrEqual);
        assert_eq!(condition.rhs, n(1));
    }
    assert_eq!(
        expanded.to_string(),
        "min 1\ns.t\n    0 + 0 + 1 + 2 + 3 + 4 <= 1\n    0 + 0 + 1 + 2 + 3 + 4 <= 1"
    );
}

#[test]
fn compound_variables_are_flattened_with_their_index_values() {
    let c = Primitive::Iterable(IterableKind::Numbers(vec![
        Number::from_integer(3),
        Number::from_integer(4),
    ]));
    let body = PreExp::BinaryOperation(
        Spanned::new(Op::Mul, at(0, 1)),
        Box::new(PreExp::ArrayAccess(Spanned::new(
            AddressableAccess::new("C".to_string(), vec![var("i")]),
            at(0, 4),
        ))),
        Box::new(PreExp::CompoundVariable(Spanned::new(
            CompoundVariable::new("X".to_string(), vec!["i".to_string()]),
            at(0, 3),
        ))),
    );
    let upper = Parameter::FunctionCall(Box::new(BuiltinFunction::Len(LenOfIterableFn {
        of_iterable: Parameter::Variable("C".to_string()),
    })));
    let objective = sum_over(vec![set("i", range(0, upper))], body);
    let condition = PreCondition::new(
        PreExp::BinaryOperation(
            Spanned::new(Op::Add, at(0, 1)),
            Box::new(var("X_0")),
            Box::new(var("X_1")),
        ),
        Comparison::Equal,
        num(1),
        vec![],
        at(0, 13),
    );
    let problem = PreProblem::new(
        PreObjective::new(OptimizationType::Min, objective),
        vec![condition],
        vec![Constant::new(Spanned::new("C".to_string(), at(50, 1)), c)],
    );
    let expanded = transform_parsed_problem(&problem).unwrap();
    let x0 = Exp::Variable("X_0".to_string());
    let x1 = Exp::Variable("X_1".to_string());
    assert_eq!(
        expanded.objective.rhs,
        add(add(n(0), mul(n(3), x0)), mul(n(4), x1))
    );
    assert_eq!(expanded.objective.to_string(), "min 0 + 3 * X_0 + 4 * X_1");
    assert_eq!(expanded.conditions.len(), 1);
    assert_eq!(expanded.conditions[0].to_string(), "X_0 + X_1 = 1");
}

#[test]
fn empty_iteration_produces_no_condition() {
    let condition = PreCondition::new(
        var("x"),
        Comparison::UpperOrEqual,
        num(0),
        vec![set("j", range(0, Parameter::Number(Number::from_integer(0))))],
        at(0, 20),
    );
    let problem =
        PreProblem::new(PreObjective::new(OptimizationType::Max, var("x")), vec![condition], vec![]);
    let expanded = transform_parsed_problem(&problem).unwrap();
    assert_eq!(expanded.conditions.len(), 0);
}

#[test]
fn scopes_are_restored_when_the_expansion_fails() {
    // The body indexes past the end of the constant, inside two nested sets.
    let c = Primitive::Iterable(IterableKind::Numbers(vec![Number::from_integer(3)]));
    let body = PreExp::ArrayAccess(Spanned::new(
        AddressableAccess::new("C".to_string(), vec![var("j")]),
        at(7, 4),
    ));
    let exp = sum_over(
        vec![
            set("i", range(0, Parameter::Number(Number::from_integer(2)))),
            set("j", range(0, Parameter::Number(Number::from_integer(2)))),
        ],
        body,
    );
    let problem = PreProblem::new(PreObjective::new(OptimizationType::Min, exp), vec![], vec![]);
    let mut context = TransformerContext::new(vec![("C".to_string(), c)]);
    let before = context.depth();
    let result = transform_problem(&problem, &mut context);
    assert!(result.is_err());
    assert_eq!(context.depth(), before);
    let error = result.unwrap_err();
    assert_eq!(error.to_string(), "[Out of bounds] cannot access index 1 of [3]");
    assert!(!error.get_trace().is_empty());
}

#[test]
fn a_name_bound_twice_is_refused() {
    let exp = sum_over(
        vec![
            set("i", range(0, Parameter::Number(Number::from_integer(2)))),
            set("i", range(0, Parameter::Number(Number::from_integer(2)))),
        ],
        var("i"),
    );
    let mut context = TransformerContext::new(vec![]);
    let error = exp.into_exp(&mut context).unwrap_err();
    assert_eq!(error.to_string(), "Variable i was already declared");
    assert_eq!(context.depth(), 1);
    match error {
        TransformError::SpannedError(_, _) => {}
        other => panic!("expected a located error, got {:?}", other),
    }
}

#[test]
fn products_are_pushed_over_sums_while_expanding() {
    // 2 * (x + y) becomes 2 * x + 2 * y.
    let exp = PreExp::BinaryOperation(
        Spanned::new(Op::Mul, at(0, 1)),
        Box::new(num(2)),
        Box::new(PreExp::BinaryOperation(
            Spanned::new(Op::Add, at(0, 1)),
            Box::new(var("x")),
            Box::new(var("y")),
        )),
    );
    let mut context = TransformerContext::new(vec![]);
    let result = exp.into_exp(&mut context).unwrap();
    assert_eq!(result.to_string(), "2 * x + 2 * y");
}
