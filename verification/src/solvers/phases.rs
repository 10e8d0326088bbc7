//! What links the two phases of the simplex to the model in standard form:
//! the tableau of the first phase has the solutions of the model, and the
//! tableau of the second phase keeps those of them in which every
//! artificial variable is zero.
use vstd::prelude::*;
use crate::fraction::{lemma_sum_value, Fraction};
use crate::solvers::algebra::{lemma_dot_non_negative, lemma_value_sign};
use crate::solvers::extension::{artificials_zero, lemma_dot_zero_tail, lemma_zero_value};
use crate::solvers::simplex::{priced_out, run, solved, Outcome};
use crate::solvers::tableau::{dot, non_negative, one, values, zero, TableauView};
use crate::solvers::rays::{
    far_enough, is_open, lemma_far_enough, lemma_ray_objective, lemma_ray_solves, ray_point,
};
use crate::solvers::theorems::{
    has_ray, is_ray, lemma_basic_solution, lemma_priced_out, lemma_run,
    lemma_same_solutions_transitive, theorem_simplex_optimum,
};
use crate::transformers::standardizer::{
    standard_rows, standard_sides, ColumnKind, StandardLinearModel,
};

verus! {

/// The objective of the first phase: the sum of the artificial variables.
pub open spec fn artificial_costs(columns: Seq<ColumnKind>) -> Seq<Fraction> {
    Seq::new(
        columns.len(),
        |k: int|
            if columns[k] is Artificial {
                one()
            } else {
                zero()
            },
    )
}

/// The tableau `t` has the rows and the right-hand sides of the model.
pub open spec fn has_rows_of(t: TableauView, standard: &StandardLinearModel) -> bool {
    &&& t.width() == standard.columns.len()
    &&& t.a == standard_rows(standard.constraints@)
    &&& t.b == standard_sides(standard.constraints@)
}

/// A tableau with the rows of a model has the solutions of the model.
pub proof fn lemma_rows_solved(t: TableauView, standard: &StandardLinearModel, z: Seq<real>)
    requires
        has_rows_of(t, standard),
    ensures
        t.solved_by(z) == standard.solved_by(z),
{
    if standard.solved_by(z) {
        assert forall|i: int| 0 <= i < t.height() implies dot(
            #[trigger] t.a[i],
            z,
            t.width() as int,
        ) == t.b[i].value() by {
            assert(t.a[i] == standard.constraints[i].coefficients@);
        }
    }
    if t.solved_by(z) {
        assert forall|i: int| 0 <= i < standard.constraints.len() implies dot(
            (#[trigger] standard.constraints[i]).coefficients@,
            z,
            standard.columns.len() as int,
        ) == standard.constraints[i].rhs.value() by {
            assert(t.a[i] == standard.constraints[i].coefficients@);
            assert(t.b[i] == standard.constraints[i].rhs);
        }
    }
}

/// Among the values in which the artificial variables are zero, the two
/// tableaux have the same solutions.
pub open spec fn carries(a: TableauView, b: TableauView, columns: Seq<ColumnKind>) -> bool {
    &&& a.width() == b.width()
    &&& forall|z: Seq<real>|
        z.len() == a.width() && artificials_zero(columns, z) ==> (#[trigger] a.solved_by(z)
            <==> b.solved_by(z))
}

/// Tableaux with the same solutions carry them over.
pub proof fn lemma_same_carries(a: TableauView, b: TableauView, columns: Seq<ColumnKind>)
    requires
        a.same_solutions(b),
    ensures
        carries(a, b, columns),
{
    assert forall|z: Seq<real>|
        z.len() == a.width() && artificials_zero(columns, z) implies (#[trigger] a.solved_by(z)
        <==> b.solved_by(z)) by {
        assert(a.solved_by(z) <==> b.solved_by(z));
    }
}

/// Carrying solutions over carries over.
pub proof fn lemma_carries_transitive(
    a: TableauView,
    b: TableauView,
    c: TableauView,
    columns: Seq<ColumnKind>,
)
    requires
        carries(a, b, columns),
        carries(b, c, columns),
    ensures
        carries(a, c, columns),
{
    assert forall|z: Seq<real>|
        z.len() == a.width() && artificials_zero(columns, z) implies (#[trigger] a.solved_by(z)
        <==> c.solved_by(z)) by {
        assert(a.solved_by(z) <==> b.solved_by(z));
        assert(b.solved_by(z) <==> c.solved_by(z));
    }
}

/// The row `row` with zeros in the columns of the artificial variables that
/// are not basic.
pub open spec fn cleared_row(row: Seq<Fraction>, columns: Seq<ColumnKind>, basis: Seq<usize>) -> Seq<
    Fraction,
> {
    Seq::new(
        row.len(),
        |k: int|
            if k < columns.len() && columns[k] is Artificial && !basis.contains(k as usize) {
                zero()
            } else {
                row[k]
            },
    )
}

/// Sums of products whose products agree place by place agree.
pub proof fn lemma_dot_products(a: Seq<Fraction>, b: Seq<Fraction>, x: Seq<real>, n: int)
    requires
        0 <= n <= a.len(),
        n <= b.len(),
        n <= x.len(),
        forall|j: int| 0 <= j < n ==> (#[trigger] a[j]).value() * x[j] == b[j].value() * x[j],
    ensures
        dot(a, x, n) == dot(b, x, n),
    decreases n,
{
    if n > 0 {
        lemma_dot_products(a, b, x, n - 1);
        assert(a[n - 1].value() * x[n - 1] == b[n - 1].value() * x[n - 1]);
    }
}

/// Where the artificial variables are zero, clearing their columns does not
/// change the sum of products of a row.
pub proof fn lemma_cleared_dot(
    row: Seq<Fraction>,
    columns: Seq<ColumnKind>,
    basis: Seq<usize>,
    z: Seq<real>,
)
    requires
        row.len() == columns.len(),
        z.len() == row.len(),
        artificials_zero(columns, z),
    ensures
        dot(cleared_row(row, columns, basis), z, row.len() as int) == dot(
            row,
            z,
            row.len() as int,
        ),
{
    let cleared = cleared_row(row, columns, basis);
    lemma_zero_value();
    assert forall|j: int| 0 <= j < row.len() implies (#[trigger] cleared[j]).value() * z[j]
        == row[j].value() * z[j] by {
        if columns[j] is Artificial {
            assert(z[j] == 0real);
            let u = cleared[j].value();
            let v = row[j].value();
            assert(u * 0real == v * 0real) by (nonlinear_arith);
        }
    }
    lemma_dot_products(cleared, row, z, row.len() as int);
}

/// The tableau `second` is what the second phase starts from, made of the
/// tableau `first`: the same right-hand sides, and the rows with the columns
/// of the artificial variables that are not basic cleared.
pub open spec fn is_cleared(first: TableauView, second: TableauView, columns: Seq<ColumnKind>)
    -> bool {
    &&& second.width() == first.width()
    &&& second.b == first.b
    &&& second.a.len() == first.a.len()
    &&& forall|i: int|
        0 <= i < first.a.len() ==> (#[trigger] second.a[i]) == cleared_row(
            first.a[i],
            columns,
            first.basis,
        )
}

/// Clearing the columns of the artificial variables that are not basic
/// keeps the solutions in which the artificial variables are zero.
pub proof fn lemma_cleared_carries(first: TableauView, second: TableauView, columns: Seq<ColumnKind>)
    requires
        first.well_formed(),
        first.width() == columns.len(),
        is_cleared(first, second, columns),
    ensures
        carries(first, second, columns),
{
    assert forall|z: Seq<real>|
        z.len() == first.width() && artificials_zero(columns, z) implies (#[trigger] first.solved_by(
        z,
    ) <==> second.solved_by(z)) by {
        assert forall|i: int| 0 <= i < first.height() implies dot(
            #[trigger] second.a[i],
            z,
            second.width() as int,
        ) == dot(first.a[i], z, first.width() as int) by {
            assert(first.a[i].len() == first.width());
            lemma_cleared_dot(first.a[i], columns, first.basis, z);
        }
        if first.solved_by(z) {
            assert forall|i: int| 0 <= i < second.height() implies dot(
                #[trigger] second.a[i],
                z,
                second.width() as int,
            ) == second.b[i].value() by {
                assert(dot(first.a[i], z, first.width() as int) == first.b[i].value());
            }
        }
        if second.solved_by(z) {
            assert forall|i: int| 0 <= i < first.height() implies dot(
                #[trigger] first.a[i],
                z,
                first.width() as int,
            ) == first.b[i].value() by {
                assert(dot(second.a[i], z, second.width() as int) == second.b[i].value());
            }
        }
    }
}

/// The solve of a tableau that ends as optimal keeps the solutions of the
/// tableau.
pub proof fn lemma_solved_same_solutions(t: TableauView, limit: nat)
    requires
        t.well_formed(),
        t.is_canonical(),
        solved(t, limit).0 == Outcome::Optimal,
    ensures
        t.same_solutions(solved(t, limit).1),
{
    let m = t.height() as int;
    lemma_priced_out(t, m);
    let p = priced_out(t, m)->Some_0;
    assert(p.is_reduced());
    lemma_run(p, false, limit);
    lemma_same_solutions_transitive(t, p, run(p, false, limit).1);
}

/// The solve of a tableau, whose basic columns form an identity and whose
/// right-hand sides are not below zero, that ends as unbounded ends at a
/// tableau of the same kind with the same solutions, whose objective has a
/// zero in every basic column.
pub proof fn lemma_unbounded_end(t: TableauView, limit: nat)
    requires
        t.well_formed(),
        t.is_canonical(),
        t.is_feasible(),
        solved(t, limit).0 == Outcome::Unbounded,
    ensures
        solved(t, limit).1.well_formed(),
        solved(t, limit).1.is_canonical(),
        solved(t, limit).1.is_feasible(),
        solved(t, limit).1.is_reduced(),
        solved(t, limit).1.width() == t.width(),
        t.same_solutions(solved(t, limit).1),
        has_ray(solved(t, limit).1),
{
    let m = t.height() as int;
    lemma_priced_out(t, m);
    let p = priced_out(t, m)->Some_0;
    assert(p.is_reduced());
    lemma_run(p, false, limit);
    lemma_same_solutions_transitive(t, p, run(p, false, limit).1);
}

/// The first phase does not end as unbounded: the sum of the artificial
/// variables is nowhere below zero.
pub proof fn lemma_first_phase_is_bounded(t: TableauView, columns: Seq<ColumnKind>, limit: nat)
    requires
        t.well_formed(),
        t.is_canonical(),
        t.is_feasible(),
        t.width() == columns.len(),
        t.c == artificial_costs(columns),
        t.value == zero(),
    ensures
        solved(t, limit).0 != Outcome::Unbounded,
{
    if solved(t, limit).0 == Outcome::Unbounded {
        lemma_unbounded_end(t, limit);
        let end = solved(t, limit).1;
        let col = choose|col: int| 0 <= col < end.width() && #[trigger] is_ray(end, col);
        assert(is_open(end, col));
        assert(end.c[col].well_formed());
        lemma_value_sign(end.c[col]);
        let cost = end.c[col].value();
        let s = far_enough(end.value.value(), cost, 0real);
        lemma_far_enough(end.value.value(), cost, 0real);
        let z = ray_point(end, col, s);
        lemma_ray_solves(end, col, s);
        lemma_ray_objective(end, col, s);
        assert(t.solved_by(z) <==> end.solved_by(z));
        assert(t.solved_by(z));
        assert(t.objective_at(z) == end.objective_at(z));
        lemma_artificial_costs(columns, z);
        lemma_zero_value();
        assert(false);
    }
}

/// Where the solve of a tableau, whose basic columns form an identity and
/// whose right-hand sides are not below zero, ends as optimal, the basic
/// solution at its end has no value below zero and gives the objective of
/// the tableau the value at which the solve ended.
pub proof fn lemma_solved_value(t: TableauView, limit: nat)
    requires
        t.well_formed(),
        t.is_canonical(),
        t.is_feasible(),
        solved(t, limit).0 == Outcome::Optimal,
    ensures
        non_negative(values(solved(t, limit).1.basic_solution())),
        values(solved(t, limit).1.basic_solution()).len() == t.width(),
        t.solved_by(values(solved(t, limit).1.basic_solution())),
        t.objective_at(values(solved(t, limit).1.basic_solution())) == solved(
            t,
            limit,
        ).1.value.value(),
{
    let m = t.height() as int;
    lemma_priced_out(t, m);
    let p = priced_out(t, m)->Some_0;
    assert(p.is_reduced());
    lemma_run(p, false, limit);
    let last = run(p, false, limit).1;
    lemma_same_solutions_transitive(t, p, last);
    lemma_basic_solution(last);
    let best = values(last.basic_solution());
    assert(best.len() == t.width());
    assert(t.solved_by(best) <==> last.solved_by(best));
    assert(t.solved_by(best));
    assert(t.objective_at(best) == last.objective_at(best));
}

/// The sum of the artificial variables is zero where each of them is, and
/// not below zero where none of the values is.
pub proof fn lemma_artificial_costs(columns: Seq<ColumnKind>, z: Seq<real>)
    requires
        z.len() == columns.len(),
    ensures
        artificials_zero(columns, z) ==> dot(artificial_costs(columns), z, columns.len() as int)
            == 0real,
        non_negative(z) ==> dot(artificial_costs(columns), z, columns.len() as int) >= 0real,
{
    let costs = artificial_costs(columns);
    lemma_zero_value();
    if artificials_zero(columns, z) {
        assert forall|j: int| 0 <= j < columns.len() implies (#[trigger] costs[j]).value() * z[j]
            == 0real by {
            let v = z[j];
            if columns[j] is Artificial {
                assert(v == 0real);
                assert(1real * 0real == 0real) by (nonlinear_arith);
            } else {
                assert(0real * v == 0real) by (nonlinear_arith);
            }
        }
        lemma_dot_zero_tail(costs, z, 0, columns.len() as int);
    }
    if non_negative(z) {
        assert forall|j: int| 0 <= j < columns.len() implies (#[trigger] costs[j]).value()
            >= 0real by {}
        lemma_dot_non_negative(costs, z, columns.len() as int);
    }
}

/// The model in standard form has no feasible point where the first phase,
/// started from a tableau with the rows of the model and the sum of the
/// artificial variables as its objective, ends above zero.
pub proof fn lemma_first_phase_decides(
    t: TableauView,
    standard: &StandardLinearModel,
    limit: nat,
    optimum: Fraction,
    z: Seq<real>,
)
    requires
        t.well_formed(),
        t.is_canonical(),
        t.is_feasible(),
        has_rows_of(t, standard),
        t.c == artificial_costs(standard.columns@),
        t.value == zero(),
        solved(t, limit).0 == Outcome::Optimal,
        solved(t, limit).1.value.sum(zero()) == Some(optimum),
        optimum.num != 0,
    ensures
        !standard.feasible_at(z),
{
    if standard.feasible_at(z) {
        let last = solved(t, limit).1;
        lemma_rows_solved(t, standard, z);
        theorem_simplex_optimum(t, limit, z);
        lemma_solved_value(t, limit);
        let best = values(last.basic_solution());
        lemma_artificial_costs(standard.columns@, z);
        lemma_artificial_costs(standard.columns@, best);
        lemma_zero_value();
        crate::solvers::theorems::theorem_solve_keeps_identity(t, limit);
        assert(last.value.well_formed());
        lemma_sum_value(last.value, zero());
        lemma_value_sign(optimum);
        assert(false);
    }
}

} // verus!
