use rooc::fraction::Fraction;
use rooc::math::{create_variable_names, Comparison, OptimizationType, VariableDomain};
use rooc::solvers::linear_solver::{
    check_real_lp_problem, solve_linear_model, ObjectiveDirection, SolverError,
};
use rooc::solvers::simplex::SimplexError;
use rooc::solvers::tableau::Tableau;
use rooc::transformers::linear_model::{LinearConstraint, LinearModel};
use rooc::transformers::standardizer::{to_standard_form, ColumnKind};

fn f(n: i32) -> Fraction {
    Fraction::from_integer(n)
}

fn q(n: i64, d: i64) -> Fraction {
    Fraction::new(n, d).unwrap()
}

fn row(values: &[i32]) -> Vec<Fraction> {
    values.iter().map(|v| f(*v)).collect()
}

#[test]
fn fraction_arithmetic_is_exact_and_reduced() {
    assert_eq!(q(1, 2).add(&q(1, 3)), Some(q(5, 6)));
    assert_eq!(q(1, 2).sub(&q(1, 2)), Some(q(0, 1)));
    assert_eq!(q(2, 3).mul(&q(3, 4)), Some(q(1, 2)));
    assert_eq!(q(1, 2).div(&q(-1, 4)), Some(q(-2, 1)));
    assert_eq!(q(1, 2).div(&q(0, 1)), None);
    assert_eq!(q(i64::MAX, 1).add(&q(1, 1)), None);
    assert!(q(1, 3).less_than(&q(1, 2)));
    assert_eq!(q(-3, 5).to_string(), "-3/5");
    assert_eq!(q(4, 1).to_string(), "4");
}

#[test]
fn standard_form_adds_one_auxiliary_per_inequality() {
    let model = LinearModel::new(
        row(&[1, 1]),
        OptimizationType::Max,
        f(0),
        vec![
            LinearConstraint::new(row(&[1, 1]), Comparison::LowerOrEqual, f(2)),
            LinearConstraint::new(row(&[1]), Comparison::UpperOrEqual, f(-1)),
            LinearConstraint::new(row(&[1, -1]), Comparison::Equal, f(0)),
        ],
        create_variable_names(2),
    );
    let standard = to_standard_form(model).unwrap();
    assert_eq!(standard.variables, vec!["x0", "x1", "$s_0", "$s_1", "$a_2"]);
    assert_eq!(
        standard.columns,
        vec![
            ColumnKind::Decision,
            ColumnKind::Decision,
            ColumnKind::Slack(0),
            ColumnKind::Slack(1),
            ColumnKind::Artificial(2)
        ]
    );
    assert!(standard.flip_objective);
    assert_eq!(standard.objective, row(&[-1, -1, 0, 0, 0]));
    assert_eq!(standard.constraints[0].coefficients, row(&[1, 1, 1, 0, 0]));
    assert_eq!(standard.constraints[0].rhs, f(2));
    // The second row had a negative right-hand side: it was negated and its
    // comparison turned round.
    assert_eq!(standard.constraints[1].coefficients, row(&[-1, 0, 0, 1, 0]));
    assert_eq!(standard.constraints[1].rhs, f(1));
    assert_eq!(standard.constraints[2].coefficients, row(&[1, -1, 0, 0, 1]));
    for constraint in standard.constraints.iter() {
        assert!(constraint.rhs.num >= 0);
    }
}

#[test]
fn standard_form_refuses_rows_longer_than_the_variables() {
    let model = LinearModel::new(
        row(&[1]),
        OptimizationType::Min,
        f(0),
        vec![LinearConstraint::new(row(&[1, 1]), Comparison::Equal, f(2))],
        create_variable_names(1),
    );
    assert!(to_standard_form(model).is_err());
}

#[test]
fn tableau_with_slack_basis_is_solved() {
    // min -3a - 4b - 7c with two rows and the slacks in the basis.
    let mut tableau = Tableau::new(
        row(&[-3, -4, -7, 0, 0]),
        vec![row(&[1, 3, 4, 1, 0]), row(&[2, 1, 3, 0, 1])],
        row(&[1, 2]),
        vec![3, 4],
        f(0),
        f(0),
        create_variable_names(5),
    );
    assert!(tableau.is_valid());
    let optimum = tableau.solve(1000).unwrap();
    assert_eq!(optimum.get_optimal_value(), q(-3, 1));
    assert_eq!(optimum.get_variables_values(), &row(&[1, 0, 0, 0, 0]));
    // The basic columns still form an identity.
    assert!(tableau.is_valid());
}

#[test]
fn tableau_that_is_not_canonical_is_not_valid() {
    let tableau = Tableau::new(
        row(&[1, 1]),
        vec![row(&[2, 1])],
        row(&[1]),
        vec![0],
        f(0),
        f(0),
        create_variable_names(2),
    );
    assert!(!tableau.is_valid());
}

#[test]
fn iteration_limit_is_reported() {
    let mut tableau = Tableau::new(
        row(&[-3, -4, -7, 0, 0]),
        vec![row(&[1, 3, 4, 1, 0]), row(&[2, 1, 3, 0, 1])],
        row(&[1, 2]),
        vec![3, 4],
        f(0),
        f(0),
        create_variable_names(5),
    );
    assert_eq!(tableau.solve(0).unwrap_err(), SimplexError::IterationLimitExceeded);
}

#[test]
fn unbounded_tableau_is_reported() {
    // min -x with x - y = 0 leaves x free to grow.
    let mut tableau = Tableau::new(
        row(&[-1, 0, 0]),
        vec![row(&[-1, 1, 1])],
        row(&[1]),
        vec![2],
        f(0),
        f(0),
        create_variable_names(3),
    );
    assert!(tableau.is_valid());
    assert_eq!(tableau.solve(100).unwrap_err(), SimplexError::Unbounded);
}

#[test]
fn equalities_are_solved_through_artificial_variables() {
    // min 3x + 4y + 6z with x + 3y + 4z = 1 and 2x + y + 3z = 2, all at
    // least zero: the only point that meets both is x = 1.
    let model = LinearModel::new(
        row(&[3, 4, 6]),
        OptimizationType::Min,
        f(0),
        vec![
            LinearConstraint::new(row(&[1, 3, 4]), Comparison::Equal, f(1)),
            LinearConstraint::new(row(&[2, 1, 3]), Comparison::Equal, f(2)),
        ],
        vec!["x".to_string(), "y".to_string(), "z".to_string()],
    );
    let solution = solve_linear_model(&model, 1000).unwrap();
    assert_eq!(solution.value, f(3));
    let values: Vec<Fraction> = solution.assignment.iter().map(|a| a.value).collect();
    assert_eq!(values, row(&[1, 0, 0]));
    assert_eq!(solution.assignment[0].name, "x");
}

#[test]
fn fractional_optimum_is_exact() {
    // min -x - y with 2x + y <= 4 and x + 3y <= 6: the optimum is at
    // x = 6/5, y = 8/5.
    let model = LinearModel::new(
        row(&[-1, -1]),
        OptimizationType::Min,
        f(0),
        vec![
            LinearConstraint::new(row(&[2, 1]), Comparison::LowerOrEqual, f(4)),
            LinearConstraint::new(row(&[1, 3]), Comparison::LowerOrEqual, f(6)),
        ],
        create_variable_names(2),
    );
    let solution = solve_linear_model(&model, 1000).unwrap();
    assert_eq!(solution.value, q(-14, 5));
    assert_eq!(solution.assignment[0].value, q(6, 5));
    assert_eq!(solution.assignment[1].value, q(8, 5));
}

#[test]
fn maximum_is_found_at_a_vertex() {
    let model = LinearModel::new(
        row(&[1, 1]),
        OptimizationType::Max,
        f(0),
        vec![LinearConstraint::new(row(&[1, 1]), Comparison::LowerOrEqual, f(2))],
        create_variable_names(2),
    );
    let solution = solve_linear_model(&model, 1000).unwrap();
    assert_eq!(solution.value, f(2));
    let x = solution.assignment[0].value;
    let y = solution.assignment[1].value;
    assert_eq!(x.add(&y), Some(f(2)));
    assert!(x == f(0) || y == f(0));
}

#[test]
fn contradictory_constraints_are_infeasible() {
    // Two times 10 <= 1, with no variable at all.
    let model = LinearModel::new(
        vec![],
        OptimizationType::Min,
        f(1),
        vec![
            LinearConstraint::new(vec![], Comparison::LowerOrEqual, f(-9)),
            LinearConstraint::new(vec![], Comparison::LowerOrEqual, f(-9)),
        ],
        vec![],
    );
    assert_eq!(solve_linear_model(&model, 1000).unwrap_err(), SolverError::Infeasible);
}

#[test]
fn lower_bounds_need_a_surplus_and_an_artificial_variable() {
    // min 2x + 3y with x + y >= 4 and x <= 3.
    let model = LinearModel::new(
        row(&[2, 3]),
        OptimizationType::Min,
        f(0),
        vec![
            LinearConstraint::new(row(&[1, 1]), Comparison::UpperOrEqual, f(4)),
            LinearConstraint::new(row(&[1]), Comparison::LowerOrEqual, f(3)),
        ],
        create_variable_names(2),
    );
    let solution = solve_linear_model(&model, 1000).unwrap();
    assert_eq!(solution.value, f(9));
    assert_eq!(solution.assignment[0].value, f(3));
    assert_eq!(solution.assignment[1].value, f(1));
}

#[test]
fn unbounded_model_is_reported() {
    let model = LinearModel::new(
        row(&[1]),
        OptimizationType::Max,
        f(0),
        vec![LinearConstraint::new(row(&[1]), Comparison::UpperOrEqual, f(1))],
        create_variable_names(1),
    );
    assert_eq!(solve_linear_model(&model, 1000).unwrap_err(), SolverError::Unbounded);
}

#[test]
fn variables_of_other_domains_are_refused() {
    let model = LinearModel::new(
        row(&[1]),
        OptimizationType::Min,
        f(0),
        vec![],
        create_variable_names(1),
    )
    .with_domain(vec![VariableDomain::Integer]);
    match solve_linear_model(&model, 10) {
        Err(SolverError::InvalidDomain { expected, got }) => {
            assert_eq!(expected, vec![VariableDomain::NonNegativeReal]);
            assert_eq!(got, vec![("x0".to_string(), VariableDomain::Integer)]);
        }
        other => panic!("expected an invalid domain, got {:?}", other),
    }
}

#[test]
fn linear_model_text_lists_the_constraints() {
    let model = LinearModel::new(
        row(&[3, -1, 0]),
        OptimizationType::Min,
        q(1, 2),
        vec![LinearConstraint::new(row(&[1, 0, -2]), Comparison::LowerOrEqual, f(4))],
        create_variable_names(3),
    );
    assert_eq!(model.to_string(), "min 3x0 - x1 + 1/2\ns.t.\n    x0 - 2x2 <= 4");
}

#[test]
fn a_solver_for_real_numbers_is_asked_for_a_direction() {
    let model = |direction: OptimizationType, domain: VariableDomain| {
        LinearModel::new(row(&[1]), direction, f(0), vec![], create_variable_names(1))
            .with_domain(vec![domain])
    };
    assert_eq!(
        check_real_lp_problem(&model(OptimizationType::Min, VariableDomain::Real)),
        Ok(ObjectiveDirection::Minimisation)
    );
    assert_eq!(
        check_real_lp_problem(&model(OptimizationType::Max, VariableDomain::NonNegativeReal)),
        Ok(ObjectiveDirection::Maximisation)
    );
    match check_real_lp_problem(&model(OptimizationType::Satisfy, VariableDomain::Real)) {
        Err(SolverError::UnimplementedOptimizationType { expected, got }) => {
            assert_eq!(expected, vec![OptimizationType::Min, OptimizationType::Max]);
            assert_eq!(got, OptimizationType::Satisfy);
        }
        other => panic!("expected an objective that is not taken, got {:?}", other),
    }
    // The domains are looked at first.
    match check_real_lp_problem(&model(OptimizationType::Satisfy, VariableDomain::Boolean)) {
        Err(SolverError::InvalidDomain { expected, got }) => {
            assert_eq!(expected, vec![VariableDomain::Real, VariableDomain::NonNegativeReal]);
            assert_eq!(got, vec![("x0".to_string(), VariableDomain::Boolean)]);
        }
        other => panic!("expected an invalid domain, got {:?}", other),
    }
}

#[test]
fn numbers_that_do_not_fit_are_reported() {
    let big = Fraction::new(i64::MAX, 1).unwrap();
    // The objective at the point (1, 1) would be twice the largest number.
    let model = LinearModel::new(
        vec![big, big],
        OptimizationType::Min,
        f(0),
        vec![LinearConstraint::new(row(&[1, 1]), Comparison::LowerOrEqual, f(2))],
        create_variable_names(2),
    );
    assert!(model.is_well_formed());
    let point = vec![f(1), f(1)];
    assert_eq!(rooc::solvers::linear_solver::satisfies(&model, &point), Some(true));
    assert_eq!(rooc::solvers::linear_solver::solution_of(&model, &point), None);
    assert_eq!(rooc::solvers::linear_solver::evaluate(&vec![big, big], &point), None);
    // A fraction with a denominator that is not above zero is no number.
    let broken = LinearModel::new(
        vec![Fraction { num: 1, den: 0 }],
        OptimizationType::Min,
        f(0),
        vec![],
        create_variable_names(1),
    );
    assert!(!broken.is_well_formed());
    assert_eq!(Fraction::new(1, 0), None);
    assert_eq!(big.add(&big), None);
    assert_eq!(big.mul(&big), None);
}

#[test]
fn the_optimum_is_no_worse_than_other_feasible_points() {
    // min 2x + 3y with x + y >= 4 and x <= 3: at the optimum x = 3, y = 1
    // the objective is 9, and at the feasible points around it it is more.
    let model = LinearModel::new(
        row(&[2, 3]),
        OptimizationType::Min,
        f(0),
        vec![
            LinearConstraint::new(row(&[1, 1]), Comparison::UpperOrEqual, f(4)),
            LinearConstraint::new(row(&[1]), Comparison::LowerOrEqual, f(3)),
        ],
        create_variable_names(2),
    );
    let solution = solve_linear_model(&model, 1000).unwrap();
    let best = solution.value;
    for (x, y) in [(0, 4), (3, 1), (2, 2), (1, 5), (3, 3)] {
        let point = vec![f(x), f(y)];
        assert_eq!(rooc::solvers::linear_solver::satisfies(&model, &point), Some(true));
        let value = rooc::solvers::linear_solver::solution_of(&model, &point).unwrap().value;
        assert!(!value.less_than(&best), "{} {}", x, y);
    }
    assert_eq!(
        rooc::solvers::linear_solver::satisfies(&model, &vec![f(4), f(0)]),
        Some(false)
    );
}

#[test]
fn the_solver_says_why_it_gives_no_solution() {
    // min -x - y with 2x + y <= 4 and x + 3y <= 6 needs two pivots.
    let model = LinearModel::new(
        row(&[-1, -1]),
        OptimizationType::Min,
        f(0),
        vec![
            LinearConstraint::new(row(&[2, 1]), Comparison::LowerOrEqual, f(4)),
            LinearConstraint::new(row(&[1, 3]), Comparison::LowerOrEqual, f(6)),
        ],
        create_variable_names(2),
    );
    assert_eq!(solve_linear_model(&model, 0).unwrap_err(), SolverError::IterationLimitExceeded);
    assert_eq!(solve_linear_model(&model, 1).unwrap_err(), SolverError::IterationLimitExceeded);
    assert!(solve_linear_model(&model, 2).is_ok());
    // A row with more coefficients than the model has variables.
    let long = LinearModel::new(
        row(&[1]),
        OptimizationType::Min,
        f(0),
        vec![LinearConstraint::new(row(&[1, 1]), Comparison::LowerOrEqual, f(4))],
        create_variable_names(1),
    );
    assert!(matches!(solve_linear_model(&long, 10), Err(SolverError::Other(_))));
    // A maximum without end, along a variable that no constraint holds.
    let open = LinearModel::new(
        row(&[1, 1]),
        OptimizationType::Max,
        f(0),
        vec![LinearConstraint::new(row(&[1, 0]), Comparison::Equal, f(1))],
        create_variable_names(2),
    );
    assert_eq!(solve_linear_model(&open, 10).unwrap_err(), SolverError::Unbounded);
    // A constraint that says the same twice leaves an artificial variable
    // in the basis, at zero.
    let twice = LinearModel::new(
        row(&[1, 2]),
        OptimizationType::Min,
        f(0),
        vec![
            LinearConstraint::new(row(&[1, 1]), Comparison::Equal, f(2)),
            LinearConstraint::new(row(&[2, 2]), Comparison::Equal, f(4)),
        ],
        create_variable_names(2),
    );
    let solution = solve_linear_model(&twice, 10).unwrap();
    assert_eq!(solution.value, f(2));
    assert_eq!(solution.assignment[0].value, f(2));
    assert_eq!(solution.assignment[1].value, f(0));
}
