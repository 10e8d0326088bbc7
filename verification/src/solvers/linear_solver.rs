//! Solving a linear model with the simplex, in two phases.
//!
//! The model is brought into standard form. The first phase minimises the
//! sum of the artificial variables, from the basis of slack and artificial
//! variables; the model is infeasible where that sum stays above zero. The
//! second phase minimises the objective of the model from the basis that the
//! first phase ended at.
//!
//! What [`solve_linear_model`] hands back is stated step by step in
//! [`model_outcome`]. A solution that it hands back is proved to be an
//! optimum of the model, and `Infeasible` to be handed back only for a model
//! without a feasible point.
use vstd::prelude::*;
use vstd::string::*;
use crate::fraction::{lemma_product_value, lemma_sum_value, Fraction};
use crate::math::{Comparison, OptimizationType, VariableDomain};
use crate::solvers::extension::{
    artificials_zero, extended, lemma_extended_is_feasible, lemma_restricted_is_feasible,
    lemma_standard_objective, lemma_zero_value,
};
use crate::solvers::phases::{
    artificial_costs, carries, cleared_row, has_rows_of, is_cleared, lemma_carries_transitive,
    lemma_cleared_carries, lemma_first_phase_decides, lemma_rows_solved, lemma_same_carries,
    lemma_first_phase_is_bounded, lemma_solved_same_solutions, lemma_solved_value,
    lemma_unbounded_end,
};
use crate::solvers::rays::{
    far_enough, has_falling, is_clear, is_falling, lemma_far_enough, lemma_ray_artificials,
    lemma_ray_objective, lemma_ray_solves, ray_point,
};
use crate::solvers::simplex::{solved, OptimalTableau, SimplexError};
use crate::solvers::two_phase::{
    cleared, driven_out, first_index, first_replacement, first_tableau, has_stuck, is_stuck,
    is_usable, lemma_driven_out_fails, lemma_second_tableau_error, phase, row_driven,
    second_tableau, start_of, starts, two_phase,
};
use crate::solvers::tableau::{dot, non_negative, rows_view, values, zero, Tableau, TableauView};
use crate::solvers::tidy::theorem_two_phase_runs;
use crate::solvers::theorems::lemma_pivot_same_solutions;
use crate::text::owned;
use crate::transformers::linear_model::{
    all_well_formed, copy_fractions, LinearConstraint, LinearModel,
};
use crate::transformers::standardizer::{
    lemma_standard_view, standard_form_of, standard_rows, standard_sides, standard_view_of,
    ColumnKind, StandardLinearModel,
};

verus! {

/// The value that a solution gives to a variable.
#[derive(Debug, PartialEq)]
pub struct Assignment {
    pub name: String,
    pub value: Fraction,
}

/// A solution of a linear model: a value for each variable, and the value
/// of the objective.
#[derive(Debug, PartialEq)]
pub struct LpSolution {
    pub assignment: Vec<Assignment>,
    pub value: Fraction,
}

/// Why a model was not solved.
#[derive(Debug, PartialEq)]
#[allow(inconsistent_fields)]
pub enum SolverError {
    /// The objective can be improved without end.
    Unbounded,
    /// The constraints cannot all be met.
    Infeasible,
    /// The optimum was not reached within the pivots allowed.
    IterationLimitExceeded,
    /// A number does not fit into a fraction of 64 bits.
    Overflow,
    /// The model has variables of domains that the solver does not take: the
    /// domains that it takes, and the variables with their domains.
    InvalidDomain { expected: Vec<VariableDomain>, got: Vec<(String, VariableDomain)> },
    /// The solver does not take what is asked of the objective.
    UnimplementedOptimizationType { expected: Vec<OptimizationType>, got: OptimizationType },
    /// Anything else.
    Other(String),
}

/// The kinds of reasons for which a model is not solved.
pub enum SolverErrorKind {
    Unbounded,
    Infeasible,
    IterationLimitExceeded,
    Overflow,
    InvalidDomain,
    UnimplementedOptimizationType,
    Other,
}

impl SolverError {
    /// The kind of the error.
    pub open spec fn kind(&self) -> SolverErrorKind {
        match self {
            SolverError::Unbounded => SolverErrorKind::Unbounded,
            SolverError::Infeasible => SolverErrorKind::Infeasible,
            SolverError::IterationLimitExceeded => SolverErrorKind::IterationLimitExceeded,
            SolverError::Overflow => SolverErrorKind::Overflow,
            SolverError::InvalidDomain { .. } => SolverErrorKind::InvalidDomain,
            SolverError::UnimplementedOptimizationType { .. } => SolverErrorKind::UnimplementedOptimizationType,
            SolverError::Other(_) => SolverErrorKind::Other,
        }
    }
}

/// The kind of the error of the solver for an error of the simplex.
pub open spec fn kind_of(e: SimplexError) -> SolverErrorKind {
    match e {
        SimplexError::Unbounded => SolverErrorKind::Unbounded,
        SimplexError::Infeasible => SolverErrorKind::Infeasible,
        SimplexError::IterationLimitExceeded => SolverErrorKind::IterationLimitExceeded,
        SimplexError::Overflow => SolverErrorKind::Overflow,
        SimplexError::InvalidTableau => SolverErrorKind::Other,
    }
}

/// The values that the assignments give.
pub open spec fn assigned_values(items: Seq<Assignment>) -> Seq<Fraction> {
    Seq::new(items.len(), |i: int| items[i].value)
}

impl LpSolution {
    pub fn new(assignment: Vec<Assignment>, value: Fraction) -> (r: LpSolution)
        ensures
            r.assignment == assignment,
            r.value == value,
    {
        LpSolution { assignment, value }
    }

    pub fn get_assignment(&self) -> (r: &Vec<Assignment>)
        ensures
            r@ == self.assignment@,
    {
        &self.assignment
    }

    pub fn get_value(&self) -> (r: Fraction)
        ensures
            r == self.value,
    {
        self.value
    }
}

/// Whether the values `x` meet the constraint: the sum of the products of
/// its coefficients and the values compares with its right-hand side as the
/// constraint asks.
pub open spec fn constraint_holds(c: LinearConstraint, x: Seq<real>) -> bool {
    let lhs = dot(c.coefficients@, x, c.coefficients.len() as int);
    match c.constraint_type {
        Comparison::LowerOrEqual => lhs <= c.rhs.value(),
        Comparison::UpperOrEqual => lhs >= c.rhs.value(),
        Comparison::Equal => lhs == c.rhs.value(),
    }
}

impl LinearModel {
    /// The values `x` meet every constraint of the model.
    pub open spec fn satisfied_by(&self, x: Seq<real>) -> bool {
        forall|i: int|
            0 <= i < self.constraints.len() ==> constraint_holds(#[trigger] self.constraints[i], x)
    }

    /// The objective of the model at the values `x`.
    pub open spec fn objective_at(&self, x: Seq<real>) -> real {
        self.objective_offset.value() + dot(self.objective@, x, self.objective.len() as int)
    }
}

/// The sum of the first `n` products of a coefficient and the fraction at
/// its place; `None` where a product or a sum does not fit.
pub open spec fn evaluated(a: Seq<Fraction>, x: Seq<Fraction>, n: int) -> Option<Fraction>
    decreases n,
{
    if n <= 0 {
        Some(zero())
    } else {
        match evaluated(a, x, n - 1) {
            None => None,
            Some(s) => match a[n - 1].product(x[n - 1]) {
                None => None,
                Some(p) => s.sum(p),
            },
        }
    }
}

/// What `evaluated` gives stands for the sum of the products of the values.
pub proof fn lemma_evaluated(a: Seq<Fraction>, x: Seq<Fraction>, n: int)
    requires
        0 <= n <= a.len(),
        n <= x.len(),
        all_well_formed(a),
        all_well_formed(x),
        evaluated(a, x, n) is Some,
    ensures
        evaluated(a, x, n)->Some_0.well_formed(),
        evaluated(a, x, n)->Some_0.value() == dot(a, values(x), n),
    decreases n,
{
    crate::fraction::lemma_over_one(0);
    if n > 0 {
        lemma_evaluated(a, x, n - 1);
        let s = evaluated(a, x, n - 1)->Some_0;
        assert(a[n - 1].well_formed());
        assert(x[n - 1].well_formed());
        lemma_product_value(a[n - 1], x[n - 1]);
        lemma_sum_value(s, a[n - 1].product(x[n - 1])->Some_0);
    }
}

/// The sum of the products of the coefficients and the fractions at their
/// places.
pub fn evaluate(coefficients: &Vec<Fraction>, x: &Vec<Fraction>) -> (r: Option<Fraction>)
    requires
        all_well_formed(coefficients@),
        all_well_formed(x@),
        coefficients.len() <= x.len(),
    ensures
        r == evaluated(coefficients@, x@, coefficients.len() as int),
        r is Some ==> r->Some_0.well_formed() && r->Some_0.value() == dot(
            coefficients@,
            values(x@),
            coefficients.len() as int,
        ),
{
    let mut sum = Fraction::zero();
    let mut i: usize = 0;
    while i < coefficients.len()
        invariant
            i <= coefficients.len(),
            coefficients.len() <= x.len(),
            all_well_formed(coefficients@),
            all_well_formed(x@),
            sum.well_formed(),
            evaluated(coefficients@, x@, i as int) == Some(sum),
        decreases coefficients.len() - i,
    {
        assert(coefficients[i as int].well_formed());
        assert(x[i as int].well_formed());
        let product = match coefficients[i].mul(&x[i]) {
            Some(p) => p,
            None => {
                proof {
                    lemma_evaluated_fails(coefficients@, x@, i + 1, coefficients.len() as int);
                }
                return None;
            },
        };
        sum = match sum.add(&product) {
            Some(s) => s,
            None => {
                proof {
                    lemma_evaluated_fails(coefficients@, x@, i + 1, coefficients.len() as int);
                }
                return None;
            },
        };
        i = i + 1;
    }
    proof {
        lemma_evaluated(coefficients@, x@, coefficients.len() as int);
    }
    Some(sum)
}

/// Where the sum of some products does not fit, the sum of more does not.
pub proof fn lemma_evaluated_fails(a: Seq<Fraction>, x: Seq<Fraction>, upto: int, n: int)
    requires
        0 <= upto <= n,
        evaluated(a, x, upto) is None,
    ensures
        evaluated(a, x, n) is None,
    decreases n - upto,
{
    if upto < n {
        lemma_evaluated_fails(a, x, upto + 1, n);
    }
}

/// Whether the fractions `x` meet the constraint; `None` where the sum of the
/// products does not fit.
pub fn holds(c: &LinearConstraint, x: &Vec<Fraction>) -> (r: Option<bool>)
    requires
        c.well_formed(),
        all_well_formed(x@),
        c.coefficients.len() <= x.len(),
    ensures
        r is Some <==> evaluated(c.coefficients@, x@, c.coefficients.len() as int) is Some,
        r is Some ==> r->Some_0 == constraint_holds(*c, values(x@)),
{
    match evaluate(&c.coefficients, x) {
        None => None,
        Some(lhs) => Some(
            match c.constraint_type {
                Comparison::LowerOrEqual => !c.rhs.less_than(&lhs),
                Comparison::UpperOrEqual => !lhs.less_than(&c.rhs),
                Comparison::Equal => lhs.same_value(&c.rhs),
            },
        ),
    }
}

/// The left-hand side of the constraint at the fractions `x` fits into a
/// fraction, and so does every sum on the way to it.
pub open spec fn side_fits(c: LinearConstraint, x: Seq<Fraction>) -> bool {
    evaluated(c.coefficients@, x, c.coefficients.len() as int) is Some
}

/// The left-hand side of every constraint of the model fits at the
/// fractions `x`.
pub open spec fn every_side_fits(model: &LinearModel, x: Seq<Fraction>) -> bool {
    forall|i: int| 0 <= i < model.constraints.len() ==> side_fits(#[trigger] model.constraints[i], x)
}

/// Whether the fractions `x` meet the constraints of the model from the
/// place `from` on: the constraints are looked at in turn, up to the first
/// that is not met; `None` where a left-hand side on the way does not fit.
pub open spec fn met(model: &LinearModel, x: Seq<Fraction>, from: int) -> Option<bool>
    decreases model.constraints.len() - from,
{
    if from < 0 || from >= model.constraints.len() {
        Some(true)
    } else if !side_fits(model.constraints[from], x) {
        None
    } else if !constraint_holds(model.constraints[from], values(x)) {
        Some(false)
    } else {
        met(model, x, from + 1)
    }
}

/// Whether the values of the list meet every constraint of the model. The
/// constraints are looked at in turn, up to the first that is not met;
/// `None` where a left-hand side on the way does not fit, which does not
/// happen where all of them fit.
pub fn satisfies(model: &LinearModel, x: &Vec<Fraction>) -> (r: Option<bool>)
    requires
        model.well_formed(),
        model.fits_variables(),
        all_well_formed(x@),
        x.len() == model.variables.len(),
    ensures
        r == met(model, x@, 0),
        r is Some ==> r->Some_0 == model.satisfied_by(values(x@)),
        every_side_fits(model, x@) ==> r is Some,
{
    let mut i: usize = 0;
    while i < model.constraints.len()
        invariant
            i <= model.constraints.len(),
            model.well_formed(),
            model.fits_variables(),
            all_well_formed(x@),
            x.len() == model.variables.len(),
            met(model, x@, 0) == met(model, x@, i as int),
            forall|k: int|
                0 <= k < i ==> constraint_holds(#[trigger] model.constraints[k], values(x@)),
        decreases model.constraints.len() - i,
    {
        let c = &model.constraints[i];
        assert(c.well_formed());
        assert(c.coefficients.len() <= model.variables.len());
        match holds(c, x) {
            None => {
                assert(!side_fits(model.constraints[i as int], x@));
                return None;
            },
            Some(false) => {
                return Some(false);
            },
            Some(true) => {},
        }
        i = i + 1;
    }
    Some(true)
}

/// The variables of the model whose domain is not among `allowed`.
pub open spec fn invalid_variables(
    names: Seq<Seq<char>>,
    domain: Seq<VariableDomain>,
    allowed: Seq<VariableDomain>,
    upto: int,
) -> Seq<(Seq<char>, VariableDomain)>
    decreases upto,
{
    if upto <= 0 || upto > domain.len() || upto > names.len() {
        Seq::<(Seq<char>, VariableDomain)>::empty()
    } else if allowed.contains(domain[upto - 1]) {
        invalid_variables(names, domain, allowed, upto - 1)
    } else {
        invalid_variables(names, domain, allowed, upto - 1).push(
            (names[upto - 1], domain[upto - 1]),
        )
    }
}

/// The views of a list of variables with their domains.
pub open spec fn domain_views(items: Seq<(String, VariableDomain)>) -> Seq<
    (Seq<char>, VariableDomain),
> {
    Seq::new(items.len(), |i: int| (items[i].0@, items[i].1))
}

/// Whether `domain` is among `allowed`.
fn is_allowed(domain: VariableDomain, allowed: &Vec<VariableDomain>) -> (r: bool)
    ensures
        r == allowed@.contains(domain),
{
    let mut i: usize = 0;
    while i < allowed.len()
        invariant
            i <= allowed.len(),
            forall|k: int| 0 <= k < i ==> allowed[k] != domain,
        decreases allowed.len() - i,
    {
        if allowed[i] == domain {
            return true;
        }
        i = i + 1;
    }
    false
}

/// The variables of the model whose domain is not among `allowed`, each with
/// its domain.
pub fn find_invalid_variables(model: &LinearModel, allowed: &Vec<VariableDomain>) -> (r: Vec<
    (String, VariableDomain),
>)
    ensures
        domain_views(r@) == invalid_variables(
            model.variables.deep_view(),
            model.domain@,
            allowed@,
            if model.domain.len() <= model.variables.len() {
                model.domain.len() as int
            } else {
                model.variables.len() as int
            },
        ),
{
    let ghost names = model.variables.deep_view();
    let n = if model.domain.len() <= model.variables.len() {
        model.domain.len()
    } else {
        model.variables.len()
    };
    let mut out: Vec<(String, VariableDomain)> = Vec::new();
    let mut i: usize = 0;
    assert(domain_views(out@) =~= invalid_variables(names, model.domain@, allowed@, 0));
    while i < n
        invariant
            i <= n,
            n <= model.domain.len(),
            n <= model.variables.len(),
            names == model.variables.deep_view(),
            domain_views(out@) == invalid_variables(names, model.domain@, allowed@, i as int),
        decreases n - i,
    {
        assert(names[i as int] == model.variables[i as int]@);
        if !is_allowed(model.domain[i], allowed) {
            let ghost before = domain_views(out@);
            out.push((model.variables[i].clone(), model.domain[i]));
            assert(domain_views(out@) =~= before.push((names[i as int], model.domain[i as int])));
        }
        i = i + 1;
    }
    out
}

/// The error for a model with variables whose domain is not among
/// `allowed`, and nothing for a model without such variables.
pub fn check_domain(model: &LinearModel, allowed: Vec<VariableDomain>) -> (r: Result<
    (),
    SolverError,
>)
    ensures
        match r {
            Ok(_) => invalid_variables(
                model.variables.deep_view(),
                model.domain@,
                allowed@,
                if model.domain.len() <= model.variables.len() {
                    model.domain.len() as int
                } else {
                    model.variables.len() as int
                },
            ).len() == 0,
            Err(e) => {
                &&& e matches SolverError::InvalidDomain { expected, got }
                &&& expected@ == allowed@
                &&& got.len() > 0
                &&& domain_views(got@) == invalid_variables(
                    model.variables.deep_view(),
                    model.domain@,
                    allowed@,
                    if model.domain.len() <= model.variables.len() {
                        model.domain.len() as int
                    } else {
                        model.variables.len() as int
                    },
                )
            },
        },
{
    let invalid = find_invalid_variables(model, &allowed);
    if invalid.len() > 0 {
        Err(SolverError::InvalidDomain { expected: allowed, got: invalid })
    } else {
        Ok(())
    }
}

/// The direction in which a solver that only optimises takes the objective.
#[derive(Clone, Copy, Debug, PartialEq, Eq, Structural)]
pub enum ObjectiveDirection {
    Minimisation,
    Maximisation,
}

/// The direction that the model asks for; the error
/// `UnimplementedOptimizationType` for a model that asks for any feasible
/// point.
pub fn objective_direction(model: &LinearModel) -> (r: Result<ObjectiveDirection, SolverError>)
    ensures
        match r {
            Ok(d) => match model.optimization_type {
                OptimizationType::Min => d == ObjectiveDirection::Minimisation,
                OptimizationType::Max => d == ObjectiveDirection::Maximisation,
                OptimizationType::Satisfy => false,
            },
            Err(e) => {
                &&& model.optimization_type == OptimizationType::Satisfy
                &&& e matches SolverError::UnimplementedOptimizationType { expected, got }
                &&& got == OptimizationType::Satisfy
                &&& expected@ == seq![OptimizationType::Min, OptimizationType::Max]
            },
        },
{
    match model.optimization_type {
        OptimizationType::Min => Ok(ObjectiveDirection::Minimisation),
        OptimizationType::Max => Ok(ObjectiveDirection::Maximisation),
        OptimizationType::Satisfy => {
            let mut expected: Vec<OptimizationType> = Vec::new();
            expected.push(OptimizationType::Min);
            expected.push(OptimizationType::Max);
            assert(expected@ =~= seq![OptimizationType::Min, OptimizationType::Max]);
            Err(
                SolverError::UnimplementedOptimizationType {
                    expected,
                    got: OptimizationType::Satisfy,
                },
            )
        },
    }
}

/// The domains that a solver for real numbers takes.
pub open spec fn real_domains() -> Seq<VariableDomain> {
    seq![VariableDomain::Real, VariableDomain::NonNegativeReal]
}

/// The variables of the model that are no real numbers, each with its
/// domain.
pub open spec fn unreal_variables(model: &LinearModel) -> Seq<(Seq<char>, VariableDomain)> {
    invalid_variables(
        model.variables.deep_view(),
        model.domain@,
        real_domains(),
        if model.domain.len() <= model.variables.len() {
            model.domain.len() as int
        } else {
            model.variables.len() as int
        },
    )
}

/// What a real-valued solver has to be asked before it is given the model:
/// every variable must be a real number, and the objective must be minimised
/// or maximised. The check of the domains comes first: a model with other
/// variables is refused with `InvalidDomain` and those variables, and a
/// model that only asks for a feasible point with
/// `UnimplementedOptimizationType`.
pub fn check_real_lp_problem(model: &LinearModel) -> (r: Result<ObjectiveDirection, SolverError>)
    ensures
        match r {
            Ok(d) => unreal_variables(model).len() == 0 && match model.optimization_type {
                OptimizationType::Min => d == ObjectiveDirection::Minimisation,
                OptimizationType::Max => d == ObjectiveDirection::Maximisation,
                OptimizationType::Satisfy => false,
            },
            Err(e) => if unreal_variables(model).len() > 0 {
                &&& e matches SolverError::InvalidDomain { expected, got }
                &&& expected@ == real_domains()
                &&& domain_views(got@) == unreal_variables(model)
            } else {
                &&& model.optimization_type == OptimizationType::Satisfy
                &&& e matches SolverError::UnimplementedOptimizationType { expected, got }
                &&& got == OptimizationType::Satisfy
                &&& expected@ == seq![OptimizationType::Min, OptimizationType::Max]
            },
        },
{
    let mut allowed: Vec<VariableDomain> = Vec::new();
    allowed.push(VariableDomain::Real);
    allowed.push(VariableDomain::NonNegativeReal);
    assert(allowed@ =~= real_domains());
    check_domain(model, allowed)?;
    objective_direction(model)
}

/// The solution that assigns the values `values` to the variables of the
/// model, with the value that the objective has there; `None` where that
/// value does not fit.
pub fn solution_of(model: &LinearModel, x: &Vec<Fraction>) -> (r: Option<LpSolution>)
    requires
        model.well_formed(),
        model.fits_variables(),
        all_well_formed(x@),
        x.len() == model.variables.len(),
    ensures
        r is Some <==> evaluated(model.objective@, x@, model.objective.len() as int) is Some
            && model.objective_offset.sum(
            evaluated(model.objective@, x@, model.objective.len() as int)->Some_0,
        ) is Some,
        r is Some ==> {
            &&& assigned_values(r->Some_0.assignment@) == x@
            &&& r->Some_0.assignment.len() == model.variables.len()
            &&& forall|i: int|
                0 <= i < model.variables.len() ==> (#[trigger] r->Some_0.assignment[i]).name@
                    == model.variables[i]@
            &&& r->Some_0.value.well_formed()
            &&& r->Some_0.value.value() == model.objective_at(values(x@))
            &&& Some(r->Some_0.value) == model.objective_offset.sum(
                evaluated(model.objective@, x@, model.objective.len() as int)->Some_0,
            )
        },
{
    let sum = evaluate(&model.objective, x)?;
    let value = model.objective_offset.add(&sum)?;
    let mut assignment: Vec<Assignment> = Vec::new();
    let mut i: usize = 0;
    while i < x.len()
        invariant
            i <= x.len(),
            x.len() == model.variables.len(),
            assignment.len() == i,
            forall|k: int|
                0 <= k < i ==> (#[trigger] assignment[k]).name@ == model.variables[k]@
                    && assignment[k].value == x[k],
        decreases x.len() - i,
    {
        assignment.push(Assignment { name: model.variables[i].clone(), value: x[i] });
        i = i + 1;
    }
    assert(assigned_values(assignment@) =~= x@);
    Some(LpSolution { assignment, value })
}

/// Whether a column is an artificial variable.
pub fn is_artificial(kind: ColumnKind) -> (r: bool)
    ensures
        r == (kind is Artificial),
{
    match kind {
        ColumnKind::Artificial(_) => true,
        _ => false,
    }
}

/// The first column, from the start, that is `kind`.
fn find_column(columns: &Vec<ColumnKind>, kind: ColumnKind) -> (r: Option<usize>)
    ensures
        match r {
            Some(k) => first_index(columns@, kind, 0) == Some(k as int) && k < columns.len()
                && columns[k as int] == kind,
            None => first_index(columns@, kind, 0) is None && forall|j: int|
                0 <= j < columns.len() ==> columns[j] != kind,
        },
{
    let mut k: usize = 0;
    while k < columns.len()
        invariant
            k <= columns.len(),
            first_index(columns@, kind, 0) == first_index(columns@, kind, k as int),
            forall|j: int| 0 <= j < k ==> columns[j] != kind,
        decreases columns.len() - k,
    {
        if columns[k] == kind {
            return Some(k);
        }
        k = k + 1;
    }
    None
}

/// The column from which the row `row` starts in the basis: the first
/// column that is its slack, or, where it has no slack, the first that is
/// its artificial variable; `None` where it has neither.
pub fn starting_column(columns: &Vec<ColumnKind>, row: usize) -> (r: Option<usize>)
    ensures
        match r {
            Some(k) => start_of(columns@, row) == Some(k as int) && k < columns.len() && (
            columns[k as int] == ColumnKind::Slack(row) || columns[k as int]
                == ColumnKind::Artificial(row)),
            None => start_of(columns@, row) is None,
        },
{
    match find_column(columns, ColumnKind::Slack(row)) {
        Some(k) => Some(k),
        None => find_column(columns, ColumnKind::Artificial(row)),
    }
}

/// The rows of the constraints of a model in standard form.
fn rows_of(standard: &StandardLinearModel) -> (r: (Vec<Vec<Fraction>>, Vec<Fraction>))
    ensures
        r.0.len() == standard.constraints.len(),
        r.1.len() == standard.constraints.len(),
        forall|i: int|
            0 <= i < r.0.len() ==> (#[trigger] r.0[i])@ == standard.constraints[i].coefficients@
                && r.1[i] == standard.constraints[i].rhs,
{
    let mut rows: Vec<Vec<Fraction>> = Vec::new();
    let mut sides: Vec<Fraction> = Vec::new();
    let mut i: usize = 0;
    while i < standard.constraints.len()
        invariant
            i <= standard.constraints.len(),
            rows.len() == i,
            sides.len() == i,
            forall|k: int|
                0 <= k < i ==> (#[trigger] rows[k])@ == standard.constraints[k].coefficients@
                    && sides[k] == standard.constraints[k].rhs,
        decreases standard.constraints.len() - i,
    {
        rows.push(copy_fractions(&standard.constraints[i].coefficients));
        sides.push(standard.constraints[i].rhs);
        i = i + 1;
    }
    (rows, sides)
}

/// Where the first rows have no starting columns, more rows have none.
pub proof fn lemma_starts_fails(columns: Seq<ColumnKind>, upto: int, m: int)
    requires
        0 <= upto <= m,
        starts(columns, upto) is None,
    ensures
        starts(columns, m) is None,
    decreases m - upto,
{
    if upto < m {
        lemma_starts_fails(columns, upto, m - 1);
    }
}

/// The tableau from which the first phase starts: see [`first_tableau`].
/// Its value is shown without an offset, and it has the names of the
/// variables of the model.
pub fn first_phase_tableau(standard: &StandardLinearModel) -> (r: Option<Tableau>)
    ensures
        match r {
            Some(t) => {
                &&& first_tableau(standard@) == Some(t@)
                &&& t.value_offset == zero()
                &&& t.variables.deep_view() == standard.variables.deep_view()
                &&& has_rows_of(t@, standard)
                &&& t@.c == artificial_costs(standard.columns@)
                &&& t@.value == zero()
            },
            None => first_tableau(standard@) is None,
        },
{
    let (rows, sides) = rows_of(standard);
    let ghost columns = standard.columns@;
    let m = standard.constraints.len();
    let mut basis: Vec<usize> = Vec::new();
    let mut i: usize = 0;
    while i < m
        invariant
            i <= m,
            m == standard.constraints.len(),
            columns == standard.columns@,
            starts(columns, i as int) == Some(basis@),
        decreases m - i,
    {
        match starting_column(&standard.columns, i) {
            Some(k) => {
                basis.push(k);
            },
            None => {
                proof {
                    assert(starts(columns, i + 1) is None);
                    lemma_starts_fails(columns, i + 1, m as int);
                    assert(standard@.rows.len() == m);
                }
                return None;
            },
        }
        i = i + 1;
    }
    let mut objective: Vec<Fraction> = Vec::new();
    let mut k: usize = 0;
    while k < standard.columns.len()
        invariant
            k <= standard.columns.len(),
            objective.len() == k,
            forall|j: int|
                0 <= j < k ==> (#[trigger] objective[j]) == artificial_costs(standard.columns@)[j],
        decreases standard.columns.len() - k,
    {
        objective.push(
            if is_artificial(standard.columns[k]) {
                Fraction::one()
            } else {
                Fraction::zero()
            },
        );
        k = k + 1;
    }
    assert(objective@ =~= artificial_costs(standard.columns@));
    assert(rows_view(rows@) =~= standard_rows(standard.constraints@));
    assert forall|i: int| 0 <= i < sides.len() implies sides[i]
        == standard.constraints[i].rhs by {
        assert(rows[i]@ == standard.constraints[i].coefficients@);
    }
    assert(sides@ =~= standard_sides(standard.constraints@));
    assert(standard@.rows.len() == m);
    Some(
        Tableau::new(
            objective,
            rows,
            sides,
            basis,
            Fraction::zero(),
            Fraction::zero(),
            crate::primitives::primitive::duplicate_strings(&standard.variables),
        ),
    )
}

/// Whether the column `col` is basic in some row.
fn is_basic(basis: &Vec<usize>, col: usize) -> (r: bool)
    ensures
        r == basis@.contains(col),
{
    let mut i: usize = 0;
    while i < basis.len()
        invariant
            i <= basis.len(),
            forall|k: int| 0 <= k < i ==> basis[k] != col,
        decreases basis.len() - i,
    {
        if basis[i] == col {
            return true;
        }
        i = i + 1;
    }
    false
}

/// The first column of the row that is no artificial variable and has an
/// entry that is not zero; `None` where the row has no such column.
fn replacement_column(row: &Vec<Fraction>, columns: &Vec<ColumnKind>) -> (r: Option<usize>)
    ensures
        match r {
            Some(k) => can_replace(row@, columns@, k as int) && forall|j: int|
                0 <= j < k ==> !#[trigger] can_replace(row@, columns@, j),
            None => forall|j: int| !#[trigger] can_replace(row@, columns@, j),
        },
        match r {
            Some(k) => first_replacement(row@, columns@, 0) == Some(k as int),
            None => first_replacement(row@, columns@, 0) is None,
        },
{
    let mut k: usize = 0;
    while k < row.len() && k < columns.len()
        invariant
            k <= row.len(),
            k <= columns.len(),
            forall|j: int| 0 <= j < k ==> !#[trigger] can_replace(row@, columns@, j),
            first_replacement(row@, columns@, 0) == first_replacement(row@, columns@, k as int),
        decreases row.len() - k,
    {
        if !is_artificial(columns[k]) && row[k].num != 0 {
            return Some(k);
        }
        k = k + 1;
    }
    None
}

/// The column `k` can take the place of an artificial variable in the
/// basis of the row: it is a column of the row, it is no artificial
/// variable, and the row has an entry in it that is not zero.
pub open spec fn can_replace(row: Seq<Fraction>, columns: Seq<ColumnKind>, k: int) -> bool {
    0 <= k < row.len() && k < columns.len() && !(columns[k] is Artificial) && row[k].num != 0
}

/// Drives the basic variable of the row `r` out of the basis where it is
/// artificial: see [`row_driven`]. Where nothing comes of it, the tableau
/// is left as the pivot left it.
fn drive_out_row(tableau: &mut Tableau, columns: &Vec<ColumnKind>, r: usize) -> (out: Result<
    (),
    SimplexError,
>)
    requires
        old(tableau).well_formed(),
        old(tableau)@.is_canonical(),
        old(tableau)@.is_feasible(),
        old(tableau).c.len() == columns.len(),
        r < old(tableau).a.len(),
    ensures
        final(tableau).value_offset == old(tableau).value_offset,
        final(tableau).variables == old(tableau).variables,
        match out {
            Ok(_) => {
                &&& row_driven(old(tableau)@, columns@, r as int, old(tableau).a.len() as nat)
                    == Ok::<TableauView, SimplexError>(final(tableau)@)
                &&& final(tableau).well_formed()
                &&& final(tableau)@.is_canonical()
                &&& final(tableau)@.is_feasible()
                &&& final(tableau).c.len() == columns.len()
                &&& final(tableau).a.len() == old(tableau).a.len()
                &&& carries(old(tableau)@, final(tableau)@, columns@)
            },
            Err(e) => row_driven(old(tableau)@, columns@, r as int, old(tableau).a.len() as nat)
                == Err::<TableauView, SimplexError>(e),
        },
{
    let ghost before = tableau@;
    let m = tableau.a.len();
    proof {
        assert(before.same_solutions(before));
        lemma_same_carries(before, before, columns@);
    }
    assert(tableau@.basis[r as int] < tableau@.width());
    if !is_artificial(columns[tableau.in_basis[r]]) {
        return Ok(());
    }
    assert(tableau@.a[r as int] == tableau.a[r as int]@);
    match replacement_column(&tableau.a[r], columns) {
        None => Ok(()),
        Some(col) => {
            match tableau.pivot(r, col) {
                Ok(_) => {},
                Err(e) => {
                    return Err(e);
                },
            }
            proof {
                lemma_pivot_same_solutions(before, r as int, col);
                lemma_same_carries(before, tableau@, columns@);
            }
            if !tableau.is_valid() || tableau.c.len() != columns.len() || tableau.a.len() != m {
                return Err(SimplexError::InvalidTableau);
            }
            Ok(())
        },
    }
}

/// The tableau from which the second phase starts, made of the tableau at
/// which the first phase ended: every artificial variable that is basic is
/// taken out of the basis where its row has an entry for another variable,
/// the columns of the artificial variables that are not basic are cleared,
/// and the objective is that of the model.
///
/// Every solution of the first tableau in which the artificial variables
/// are zero solves the second. The error is `InvalidTableau` where the first
/// tableau, or one that is made of it, is not what the simplex asks for,
/// and `Overflow` where a number does not fit.
pub fn second_phase_tableau(first: Tableau, standard: &StandardLinearModel) -> (r: Result<
    Tableau,
    SimplexError,
>)
    ensures
        match r {
            Ok(second) => {
                &&& second_tableau(
                    first@,
                    first.value_offset,
                    first.variables.len() as nat,
                    standard@,
                ) == Ok::<TableauView, SimplexError>(second@)
                &&& second.well_formed()
                &&& second@.is_canonical()
                &&& second@.is_feasible()
                &&& second.c.len() == standard.columns.len()
                &&& second@.c == standard.objective@
                &&& second@.value == zero()
                &&& second.value_offset == standard.objective_offset
                &&& second.variables == first.variables
                &&& carries(first@, second@, standard.columns@)
            },
            Err(e) => second_tableau(
                first@,
                first.value_offset,
                first.variables.len() as nat,
                standard@,
            ) == Err::<TableauView, SimplexError>(e),
        },
{
    let ghost start = first@;
    let ghost columns = standard.columns@;
    let ghost offset = first.value_offset;
    let ghost names = first.variables;
    let mut tableau = first;
    if !tableau.is_valid() || tableau.c.len() != standard.columns.len() {
        return Err(SimplexError::InvalidTableau);
    }
    proof {
        assert(start.same_solutions(start));
        lemma_same_carries(start, start, columns);
    }
    let m = tableau.a.len();
    let mut r: usize = 0;
    while r < m
        invariant
            r <= m,
            m == tableau.a.len(),
            m == start.a.len(),
            start == first@,
            offset == first.value_offset,
            names == first.variables,
            is_usable(start),
            offset.well_formed(),
            names.len() == start.c.len(),
            start.c.len() == standard.columns.len(),
            tableau.well_formed(),
            tableau@.is_canonical(),
            tableau@.is_feasible(),
            tableau.c.len() == standard.columns.len(),
            tableau.value_offset == offset,
            tableau.variables == names,
            columns == standard.columns@,
            carries(start, tableau@, columns),
            driven_out(start, columns, r as int) == Ok::<TableauView, SimplexError>(tableau@),
        decreases m - r,
    {
        let ghost before = tableau@;
        match drive_out_row(&mut tableau, &standard.columns, r) {
            Ok(_) => {
                proof {
                    lemma_carries_transitive(start, before, tableau@, columns);
                }
            },
            Err(e) => {
                proof {
                    assert(before.a.len() == start.a.len());
                    assert(driven_out(start, columns, r + 1) == row_driven(
                        before,
                        columns,
                        r as int,
                        start.a.len(),
                    ));
                    lemma_driven_out_fails(start, columns, r + 1, m as int);
                    assert(driven_out(start, columns, start.a.len() as int) == Err::<
                        TableauView,
                        SimplexError,
                    >(e));
                }
                return Err(e);
            },
        }
        assert(driven_out(start, columns, r + 1) == row_driven(
            before,
            columns,
            r as int,
            start.a.len(),
        ));
        r = r + 1;
    }
    // The columns of the artificial variables that are not basic are
    // cleared, so that none of them enters the basis again.
    let ghost mid = tableau@;
    let n = tableau.c.len();
    let mut rows: Vec<Vec<Fraction>> = Vec::new();
    let mut i: usize = 0;
    while i < m
        invariant
            i <= m,
            m == tableau.a.len(),
            n == tableau.c.len(),
            n == standard.columns.len(),
            tableau.well_formed(),
            tableau@ == mid,
            columns == standard.columns@,
            rows.len() == i,
            forall|p: int|
                0 <= p < i ==> (#[trigger] rows[p])@ == cleared_row(mid.a[p], columns, mid.basis),
        decreases m - i,
    {
        assert(tableau@.a[i as int] == tableau.a[i as int]@);
        assert(tableau@.a[i as int].len() == n);
        let ghost goal = cleared_row(mid.a[i as int], columns, mid.basis);
        let mut row: Vec<Fraction> = Vec::new();
        let mut k: usize = 0;
        while k < n
            invariant
                k <= n,
                i < m,
                m == tableau.a.len(),
                n == tableau.c.len(),
                n == standard.columns.len(),
                tableau.a[i as int].len() == n,
                tableau@ == mid,
                mid.a[i as int] == tableau.a[i as int]@,
                columns == standard.columns@,
                goal == cleared_row(mid.a[i as int], columns, mid.basis),
                row.len() == k,
                forall|j: int| 0 <= j < k ==> (#[trigger] row[j]) == goal[j],
            decreases n - k,
        {
            if is_artificial(standard.columns[k]) && !is_basic(&tableau.in_basis, k) {
                row.push(Fraction::zero());
            } else {
                row.push(tableau.a[i][k]);
            }
            k = k + 1;
        }
        assert(row@ =~= goal);
        rows.push(row);
        i = i + 1;
    }
    let second = Tableau::new(
        copy_fractions(&standard.objective),
        rows,
        tableau.b,
        tableau.in_basis,
        Fraction::zero(),
        standard.objective_offset,
        tableau.variables,
    );
    proof {
        assert(second@.a =~= cleared(mid, columns, standard.objective@).a);
        assert(second@ == cleared(mid, columns, standard.objective@));
    }
    if !second.is_valid() || second.c.len() != standard.columns.len() {
        return Err(SimplexError::InvalidTableau);
    }
    proof {
        assert(is_cleared(mid, second@, columns));
        lemma_cleared_carries(mid, second@, columns);
        lemma_carries_transitive(start, mid, second@, columns);
    }
    Ok(second)
}

/// Whether the column `col` is clear of the artificial variables, and no
/// row has an entry above zero in it.
fn column_is_clear(tableau: &Tableau, columns: &Vec<ColumnKind>, col: usize) -> (r: bool)
    requires
        tableau.well_formed(),
        columns.len() == tableau.c.len(),
        col < tableau.c.len(),
    ensures
        r == is_clear(tableau@, columns@, col as int),
{
    if is_artificial(columns[col]) {
        return false;
    }
    let ghost t = tableau@;
    let mut i: usize = 0;
    while i < tableau.a.len()
        invariant
            i <= tableau.a.len(),
            t == tableau@,
            tableau.well_formed(),
            columns.len() == tableau.c.len(),
            col < tableau.c.len(),
            forall|k: int| 0 <= k < i ==> (#[trigger] t.a[k])[col as int].num <= 0,
            forall|k: int|
                0 <= k < i && columns[(#[trigger] t.basis[k]) as int] is Artificial ==> t.b[k].num
                    == 0 && t.a[k][col as int].num == 0,
        decreases tableau.a.len() - i,
    {
        assert(t.a[i as int] == tableau.a[i as int]@);
        assert(t.a[i as int].len() == tableau.c.len());
        assert(t.basis[i as int] < t.width());
        let entry = tableau.a[i][col];
        if entry.num > 0 {
            assert(!(t.a[i as int][col as int].num <= 0));
            return false;
        }
        if is_artificial(columns[tableau.in_basis[i]]) && (tableau.b[i].num != 0 || entry.num
            != 0) {
            assert(columns[t.basis[i as int] as int] is Artificial);
            return false;
        }
        i = i + 1;
    }
    true
}

/// The first column along which the objective of the tableau falls without
/// end while the artificial variables stay zero.
fn falling_column(tableau: &Tableau, columns: &Vec<ColumnKind>) -> (r: Option<usize>)
    requires
        tableau.well_formed(),
        columns.len() == tableau.c.len(),
    ensures
        match r {
            Some(col) => is_falling(tableau@, columns@, col as int) && forall|j: int|
                0 <= j < col ==> !#[trigger] is_falling(tableau@, columns@, j),
            None => !has_falling(tableau@, columns@),
        },
{
    let mut col: usize = 0;
    while col < tableau.c.len()
        invariant
            col <= tableau.c.len(),
            tableau.well_formed(),
            columns.len() == tableau.c.len(),
            forall|j: int| 0 <= j < col ==> !#[trigger] is_falling(tableau@, columns@, j),
        decreases tableau.c.len() - col,
    {
        if tableau.c[col].num < 0 && column_is_clear(tableau, columns, col) {
            return Some(col);
        }
        col = col + 1;
    }
    assert forall|j: int| !#[trigger] is_falling(tableau@, columns@, j) by {}
    None
}

/// The values `z` are a feasible point of the model at which its objective
/// is below `bound`.
pub open spec fn is_below(standard: &StandardLinearModel, z: Seq<real>, bound: real) -> bool {
    standard.feasible_at(z) && standard.objective_offset.value() + dot(
        standard.objective@,
        z,
        standard.columns.len() as int,
    ) < bound
}

/// The model has a feasible point at which its objective is below `bound`.
pub open spec fn has_below(standard: &StandardLinearModel, bound: real) -> bool {
    exists|z: Seq<real>| #[trigger] is_below(standard, z, bound)
}

/// Solves a model in standard form in two phases, with at most `limit`
/// pivots in each: what comes back is what [`two_phase`] says, the optimum
/// or the error of the step at which the solve ends.
///
/// Where an optimum comes back, its values are a feasible point of the
/// model, the objective of the model has its value at them, and at every
/// feasible point of the model the objective is at least that value. The
/// error `Infeasible` comes back only for a model without a feasible point,
/// and the error `Unbounded` only for a model that has, below any bound, a
/// feasible point at which its objective is below the bound.
pub fn solve_standard(standard: &StandardLinearModel, limit: usize) -> (r: Result<
    OptimalTableau,
    SimplexError,
>)
    ensures
        match r {
            Ok(optimum) => {
                &&& two_phase(standard@, limit as nat) == Ok::<
                    (Seq<Fraction>, Fraction),
                    SimplexError,
                >((optimum.values@, optimum.optimal_value))
                &&& optimum.values.len() == standard.columns.len()
                &&& all_well_formed(optimum.values@)
                &&& forall|i: int|
                    0 <= i < optimum.values.len() ==> (#[trigger] optimum.values[i]).num >= 0
                &&& optimum.optimal_value.well_formed()
                &&& standard.feasible_at(values(optimum.values@))
                &&& standard.objective_offset.value() + dot(
                    standard.objective@,
                    values(optimum.values@),
                    standard.columns.len() as int,
                ) == optimum.optimal_value.value()
                &&& forall|z: Seq<real>| #[trigger]
                    standard.feasible_at(z) ==> standard.objective_offset.value() + dot(
                        standard.objective@,
                        z,
                        standard.columns.len() as int,
                    ) >= optimum.optimal_value.value()
            },
            Err(e) => {
                &&& two_phase(standard@, limit as nat) == Err::<
                    (Seq<Fraction>, Fraction),
                    SimplexError,
                >(e)
                &&& e == SimplexError::Infeasible ==> forall|z: Seq<real>|
                    !(#[trigger] standard.feasible_at(z))
                &&& e == SimplexError::Unbounded ==> forall|bound: real| #[trigger]
                    has_below(standard, bound)
            },
        },
{
    let mut first = match first_phase_tableau(standard) {
        Some(t) => t,
        None => {
            return Err(SimplexError::InvalidTableau);
        },
    };
    proof {
        assert(first.variables.deep_view().len() == first.variables.len());
        assert(standard.variables.deep_view().len() == standard.variables.len());
    }
    if !first.is_valid() {
        return Err(SimplexError::InvalidTableau);
    }
    let ghost t1 = first@;
    let feasible = match first.solve(limit) {
        Ok(f) => f,
        Err(e) => {
            assert(phase(t1, zero(), limit as nat) == Err::<(TableauView, Fraction), SimplexError>(
                e,
            ));
            proof {
                lemma_first_phase_is_bounded(t1, standard.columns@, limit as nat);
            }
            return Err(e);
        },
    };
    let ghost ended = first@;
    assert(phase(t1, zero(), limit as nat) == Ok::<(TableauView, Fraction), SimplexError>(
        (ended, feasible.optimal_value),
    ));
    if feasible.optimal_value.num != 0 {
        proof {
            assert forall|z: Seq<real>| !(#[trigger] standard.feasible_at(z)) by {
                lemma_first_phase_decides(t1, standard, limit as nat, feasible.optimal_value, z);
            }
        }
        return Err(SimplexError::Infeasible);
    }
    let mut second = match second_phase_tableau(first, standard) {
        Ok(t) => t,
        Err(e) => {
            proof {
                lemma_second_tableau_error(ended, zero(), standard@.names, standard@);
            }
            return Err(e);
        },
    };
    let ghost t2 = second@;
    let ghost offset = second.value_offset;
    let optimum = match second.solve(limit) {
        Ok(o) => o,
        Err(e) => {
            assert(phase(t2, standard@.offset, limit as nat) == Err::<
                (TableauView, Fraction),
                SimplexError,
            >(e));
            assert(e != SimplexError::Infeasible);
            match e {
                SimplexError::Unbounded => {
                    let ghost end = second@;
                    proof {
                        lemma_unbounded_end(t2, limit as nat);
                        lemma_solved_same_solutions(t1, limit as nat);
                    }
                    let col = match falling_column(&second, &standard.columns) {
                        Some(col) => col,
                        None => {
                            return Err(SimplexError::InvalidTableau);
                        },
                    };
                    proof {
                        let columns = standard.columns@;
                        let cost = end.c[col as int].value();
                        assert(end.c[col as int].well_formed());
                        crate::solvers::algebra::lemma_value_sign(end.c[col as int]);
                        lemma_zero_value();
                        assert forall|bound: real| #[trigger] has_below(standard, bound) by {
                            let goal = bound - offset.value();
                            let s = far_enough(end.value.value(), cost, goal);
                            lemma_far_enough(end.value.value(), cost, goal);
                            let z = ray_point(end, col as int, s);
                            lemma_ray_solves(end, col as int, s);
                            lemma_ray_objective(end, col as int, s);
                            lemma_ray_artificials(end, columns, col as int, s);
                            assert(t2.solved_by(z) <==> end.solved_by(z));
                            assert(t2.solved_by(z));
                            assert(t2.objective_at(z) == end.objective_at(z));
                            assert(ended.solved_by(z) <==> t2.solved_by(z));
                            assert(t1.solved_by(z) <==> ended.solved_by(z));
                            lemma_rows_solved(t1, standard, z);
                            assert(is_below(standard, z, bound));
                        }
                    }
                    return Err(SimplexError::Unbounded);
                },
                other => {
                    return Err(other);
                },
            }
        },
    };
    let ghost last = second@;
    assert(phase(t2, standard@.offset, limit as nat) == Ok::<(TableauView, Fraction), SimplexError>(
        (last, optimum.optimal_value),
    ));
    proof {
        crate::solvers::theorems::theorem_solve_keeps_identity(t2, limit as nat);
        crate::solvers::theorems::lemma_basic_values(second@, second@.height() as int);
    }
    assert(has_stuck(last, standard.columns@) ==> two_phase(standard@, limit as nat) == Err::<
        (Seq<Fraction>, Fraction),
        SimplexError,
    >(SimplexError::InvalidTableau));
    // An artificial variable that is still basic must be zero.
    let m = second.a.len();
    let mut r: usize = 0;
    while r < m
        invariant
            r <= m,
            m == second.a.len(),
            second@ == last,
            has_stuck(last, standard.columns@) ==> two_phase(standard@, limit as nat) == Err::<
                (Seq<Fraction>, Fraction),
                SimplexError,
            >(SimplexError::InvalidTableau),
            second@.well_formed(),
            second.c.len() == standard.columns.len(),
            forall|k: int| 0 <= k < r ==> !#[trigger] is_stuck(last, standard.columns@, k),
        decreases m - r,
    {
        assert(second@.basis[r as int] < second@.width());
        if is_artificial(standard.columns[second.in_basis[r]]) && second.b[r].num != 0 {
            assert(is_stuck(last, standard.columns@, r as int));
            return Err(SimplexError::InvalidTableau);
        }
        r = r + 1;
    }
    assert(!has_stuck(last, standard.columns@));
    proof {
        let n = standard.columns.len() as int;
        assert(last.value.well_formed());
        lemma_sum_value(last.value, offset);
        crate::solvers::theorems::lemma_basic_values(last, last.height() as int);
        assert forall|j: int| 0 <= j < optimum.values.len() implies (#[trigger] optimum.values[j]).well_formed() by {
            if exists|r: int| 0 <= r < last.height() && last.basis[r] == j {
                let r = choose|r: int| 0 <= r < last.height() && last.basis[r] == j;
                assert(last.basic_solution()[last.basis[r] as int] == last.b[r]);
                assert(last.b[r].well_formed());
            } else {
                assert forall|r: int| 0 <= r < last.height() implies (#[trigger] last.basis[r])
                    != j by {}
                assert(last.basic_solution()[j] == zero());
            }
        }
        lemma_zero_value();
        lemma_solved_value(t2, limit as nat);
        lemma_solved_same_solutions(t1, limit as nat);
        assert forall|i: int| 0 <= i < optimum.values.len() implies (#[trigger] optimum.values[i]).num
            >= 0 by {
            assert(optimum.values[i].well_formed());
            assert(values(optimum.values@)[i] >= 0real);
            crate::solvers::algebra::lemma_value_sign(optimum.values[i]);
        }
        let best = values(optimum.values@);
        let columns = standard.columns@;
        crate::solvers::theorems::lemma_basic_values(last, last.height() as int);
        assert forall|k: int| 0 <= k < columns.len() && columns[k] is Artificial implies #[trigger] best[k]
            == 0real by {
            if exists|r: int| 0 <= r < last.height() && last.basis[r] == k {
                let r = choose|r: int| 0 <= r < last.height() && last.basis[r] == k;
                assert(!is_stuck(last, columns, r));
                assert(last.basic_solution()[last.basis[r] as int] == last.b[r]);
                assert(last.b[r].well_formed());
                crate::solvers::algebra::lemma_value_sign(last.b[r]);
            } else {
                assert forall|r: int| 0 <= r < last.height() implies (#[trigger] last.basis[r])
                    != k by {}
                assert(last.basic_solution()[k] == zero());
            }
        }
        assert(artificials_zero(columns, best));
        assert(t2.solved_by(best));
        assert(ended.solved_by(best) <==> t2.solved_by(best));
        assert(t1.solved_by(best) <==> ended.solved_by(best));
        lemma_rows_solved(t1, standard, best);
        assert(standard.feasible_at(best));
        assert forall|z: Seq<real>| #[trigger] standard.feasible_at(z) implies offset.value() + dot(
            standard.objective@,
            z,
            n,
        ) >= optimum.optimal_value.value() by {
            lemma_rows_solved(t1, standard, z);
            assert(t1.solved_by(z) <==> ended.solved_by(z));
            assert(ended.solved_by(z));
            assert(t2.solved_by(z));
            crate::solvers::theorems::theorem_simplex_optimum(t2, limit as nat, z);
        }
    }
    Ok(optimum)
}

/// The error of the solver for an error of the simplex.
pub fn solver_error(e: SimplexError) -> (r: SolverError)
    ensures
        r.kind() == kind_of(e),
        match e {
            SimplexError::Unbounded => r is Unbounded,
            SimplexError::Infeasible => r is Infeasible,
            SimplexError::IterationLimitExceeded => r is IterationLimitExceeded,
            SimplexError::Overflow => r is Overflow,
            SimplexError::InvalidTableau => r is Other,
        },
{
    match e {
        SimplexError::Unbounded => SolverError::Unbounded,
        SimplexError::Infeasible => SolverError::Infeasible,
        SimplexError::IterationLimitExceeded => SolverError::IterationLimitExceeded,
        SimplexError::Overflow => SolverError::Overflow,
        SimplexError::InvalidTableau => SolverError::Other(
            owned("The model has no tableau to start from"),
        ),
    }
}

/// The values `x` are no worse for the model than the values `y`: the
/// objective at them is not above that at `y` where the minimum is asked
/// for, and not below it where the maximum is.
pub open spec fn is_no_worse(model: &LinearModel, x: Seq<real>, y: Seq<real>) -> bool {
    match model.optimization_type {
        OptimizationType::Min => model.objective_at(x) <= model.objective_at(y),
        OptimizationType::Max => model.objective_at(x) >= model.objective_at(y),
        OptimizationType::Satisfy => true,
    }
}

/// The variables of the model that are no real numbers that are not below
/// zero, each with its domain.
pub open spec fn unfit_variables(model: &LinearModel) -> Seq<(Seq<char>, VariableDomain)> {
    invalid_variables(
        model.variables.deep_view(),
        model.domain@,
        seq![VariableDomain::NonNegativeReal],
        if model.domain.len() <= model.variables.len() {
            model.domain.len() as int
        } else {
            model.variables.len() as int
        },
    )
}

/// What solving a linear model with at most `limit` pivots in each phase of
/// the simplex gives: a value for each variable of the model with the value
/// of the objective at them, or the kind of the error.
///
/// - `InvalidDomain`: the model has a variable that is no real number that
///   is not below zero. This is looked at first.
/// - `Other`: the objective or a constraint of the model has more
///   coefficients than the model has variables. The solve of the standard
///   form of a model never ends with `InvalidTableau`.
/// - `Infeasible`, `Unbounded`, `IterationLimitExceeded`: the solve of the
///   standard form of the model ends so (see [`two_phase`]).
/// - `Overflow`: a number of a pivot, or the value of the objective, does
///   not fit into a fraction.
///
/// The values are those of the variables of the model in the optimum of its
/// standard form.
pub open spec fn model_outcome(model: &LinearModel, limit: nat) -> Result<
    (Seq<Fraction>, Fraction),
    SolverErrorKind,
> {
    if unfit_variables(model).len() > 0 {
        Err(SolverErrorKind::InvalidDomain)
    } else if !model.fits_variables() {
        Err(SolverErrorKind::Other)
    } else {
        match two_phase(standard_view_of(model), limit) {
            Err(e) => Err(kind_of(e)),
            Ok((all, _)) => {
                let x = all.take(model.variables.len() as int);
                match evaluated(model.objective@, x, model.objective.len() as int) {
                    None => Err(SolverErrorKind::Overflow),
                    Some(sum) => match model.objective_offset.sum(sum) {
                        None => Err(SolverErrorKind::Overflow),
                        Some(value) => Ok((x, value)),
                    },
                }
            },
        }
    }
}

/// The values `y` are not below zero, meet every constraint of the model,
/// and give its objective a value beyond `bound`: below it where the
/// minimum is asked for, above it where the maximum is.
pub open spec fn is_beyond(model: &LinearModel, y: Seq<real>, bound: real) -> bool {
    &&& y.len() == model.variables.len()
    &&& non_negative(y)
    &&& model.satisfied_by(y)
    &&& match model.optimization_type {
        OptimizationType::Min => model.objective_at(y) < bound,
        OptimizationType::Max => model.objective_at(y) > bound,
        OptimizationType::Satisfy => false,
    }
}

/// The model has values that are not below zero, meet every constraint, and
/// give its objective a value beyond `bound`.
pub open spec fn has_beyond(model: &LinearModel, bound: real) -> bool {
    exists|y: Seq<real>| #[trigger] is_beyond(model, y, bound)
}

/// Solves a linear model whose variables are real numbers that are not below
/// zero, with at most `limit` pivots in each phase of the simplex: what
/// comes back is what [`model_outcome`] says.
///
/// A solution that is handed back is an optimum of the model: its values
/// are not below zero and meet every constraint of the model, its value is
/// that of the objective of the model at them, and no values that are not
/// below zero and meet every constraint are better. `Infeasible` is handed
/// back only for a model whose constraints no such values meet, and
/// `Unbounded` only for a model whose objective such values take beyond any
/// bound. A model with a variable of another domain is refused with
/// `InvalidDomain` and those variables, before anything else is looked at,
/// and `Other` is handed back only for a model with a row that has more
/// coefficients than the model has variables.
pub fn solve_linear_model(model: &LinearModel, limit: usize) -> (r: Result<LpSolution, SolverError>)
    requires
        model.well_formed(),
    ensures
        match r {
            Ok(solution) => {
                let x = values(assigned_values(solution.assignment@));
                &&& model_outcome(model, limit as nat) == Ok::<
                    (Seq<Fraction>, Fraction),
                    SolverErrorKind,
                >((assigned_values(solution.assignment@), solution.value))
                &&& solution.assignment.len() == model.variables.len()
                &&& forall|i: int|
                    0 <= i < model.variables.len() ==> (#[trigger] solution.assignment[i]).name@
                        == model.variables[i]@
                &&& non_negative(x)
                &&& model.satisfied_by(x)
                &&& solution.value.value() == model.objective_at(x)
                &&& forall|y: Seq<real>|
                    y.len() == model.variables.len() && non_negative(y)
                        && #[trigger] model.satisfied_by(y) ==> is_no_worse(model, x, y)
            },
            Err(e) => {
                &&& model_outcome(model, limit as nat) == Err::<
                    (Seq<Fraction>, Fraction),
                    SolverErrorKind,
                >(e.kind())
                &&& e matches SolverError::InvalidDomain { expected, got } ==> expected@
                    == seq![VariableDomain::NonNegativeReal] && domain_views(got@)
                    == unfit_variables(model)
                &&& e is Infeasible ==> forall|y: Seq<real>|
                    !(y.len() == model.variables.len() && non_negative(y)
                        && #[trigger] model.satisfied_by(y))
                &&& e is Unbounded ==> forall|bound: real| #[trigger] has_beyond(model, bound)
                &&& e is Other <==> unfit_variables(model).len() == 0 && !model.fits_variables()
            },
        },
{
    let mut allowed: Vec<VariableDomain> = Vec::new();
    allowed.push(VariableDomain::NonNegativeReal);
    assert(allowed@ =~= seq![VariableDomain::NonNegativeReal]);
    match check_domain(model, allowed) {
        Ok(_) => {},
        Err(e) => {
            return Err(e);
        },
    }
    let standard = match standard_form_of(model) {
        Ok(s) => s,
        Err(_) => {
            return Err(
                SolverError::Other(owned("A row of the model has more coefficients than variables")),
            );
        },
    };
    proof {
        lemma_standard_view(&standard, model);
    }
    let optimum = match solve_standard(&standard, limit) {
        Ok(o) => o,
        Err(e) => {
            proof {
                theorem_two_phase_runs(&standard, model, limit as nat);
                if e == SimplexError::Infeasible {
                    assert forall|y: Seq<real>|
                        !(y.len() == model.variables.len() && non_negative(y)
                            && #[trigger] model.satisfied_by(y)) by {
                        if y.len() == model.variables.len() && non_negative(y)
                            && model.satisfied_by(y) {
                            lemma_extended_is_feasible(&standard, model, y);
                        }
                    }
                }
                if e == SimplexError::Unbounded {
                    assert forall|bound: real| #[trigger] has_beyond(model, bound) by {
                        let target = match model.optimization_type {
                            OptimizationType::Min => bound,
                            OptimizationType::Max => -bound,
                            OptimizationType::Satisfy => 0real,
                        };
                        assert(has_below(&standard, target));
                        let z = choose|z: Seq<real>| is_below(&standard, z, target);
                        lemma_restricted_is_feasible(&standard, model, z);
                        lemma_standard_objective(&standard, model, z);
                        assert(is_beyond(model, z.take(model.variables.len() as int), bound));
                    }
                }
            }
            let error = solver_error(e);
            return Err(error);
        },
    };
    let n = model.variables.len();
    assert(standard.columns@.len() >= n);
    let mut x: Vec<Fraction> = Vec::new();
    let mut i: usize = 0;
    while i < n
        invariant
            i <= n,
            n <= optimum.values.len(),
            all_well_formed(optimum.values@),
            x.len() == i,
            forall|k: int| 0 <= k < i ==> (#[trigger] x[k]) == optimum.values[k],
        decreases n - i,
    {
        x.push(optimum.values[i]);
        i = i + 1;
    }
    assert(x@ =~= optimum.values@.take(n as int));
    assert(all_well_formed(x@)) by {
        assert forall|k: int| 0 <= k < x.len() implies (#[trigger] x[k]).well_formed() by {
            assert(optimum.values[k].well_formed());
        }
    }
    let solution = match solution_of(model, &x) {
        Some(s) => s,
        None => {
            return Err(SolverError::Overflow);
        },
    };
    proof {
        let reals = values(x@);
        assert forall|j: int| 0 <= j < reals.len() implies (#[trigger] reals[j]) >= 0real by {
            assert(x[j].well_formed());
            assert(optimum.values[j].num >= 0);
            crate::solvers::algebra::lemma_value_sign(x[j]);
        }
        let all = values(optimum.values@);
        assert(all.take(n as int) =~= reals);
        lemma_restricted_is_feasible(&standard, model, all);
        lemma_standard_objective(&standard, model, all);
        assert forall|y: Seq<real>|
            y.len() == model.variables.len() && non_negative(y) && #[trigger] model.satisfied_by(
                y,
            ) implies is_no_worse(model, reals, y) by {
            let z = extended(model, y);
            lemma_extended_is_feasible(&standard, model, y);
            assert(standard.feasible_at(z));
            lemma_standard_objective(&standard, model, z);
            assert(z.take(n as int) =~= y);
        }
    }
    Ok(solution)
}

} // verus!
