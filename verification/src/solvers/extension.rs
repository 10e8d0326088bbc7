//! From the solutions of a model to those of its standard form: values that
//! meet the constraints of a model, none of them below zero, are extended by
//! the values of the slack and surplus variables, and by zeros for the
//! artificial variables, to values that solve every row of the standard
//! form.
use vstd::prelude::*;
use crate::fraction::{lemma_over_one, Fraction};
use crate::math::{Comparison, OptimizationType};
use crate::solvers::linear_solver::constraint_holds;
use crate::solvers::tableau::{dot, non_negative};
use crate::transformers::linear_model::{sized, LinearConstraint, LinearModel};
use crate::transformers::standardizer::{
    added_coefficients, added_columns, negated, normal_coefficients, normal_comparison,
    normal_rhs, zeros, ColumnKind, StandardLinearModel,
};

verus! {

/// Sums of products of lists that agree in their first `n` places agree.
pub proof fn lemma_dot_agrees(
    a: Seq<Fraction>,
    b: Seq<Fraction>,
    x: Seq<real>,
    y: Seq<real>,
    n: int,
)
    requires
        0 <= n <= a.len(),
        n <= b.len(),
        n <= x.len(),
        n <= y.len(),
        forall|j: int| 0 <= j < n ==> a[j] == b[j] && x[j] == y[j],
    ensures
        dot(a, x, n) == dot(b, y, n),
    decreases n,
{
    if n > 0 {
        lemma_dot_agrees(a, b, x, y, n - 1);
    }
}

/// The sum of products over two lists put one behind the other is the sum
/// over the first and the sum over the second.
pub proof fn lemma_dot_concat(
    a1: Seq<Fraction>,
    a2: Seq<Fraction>,
    x1: Seq<real>,
    x2: Seq<real>,
    k: int,
)
    requires
        a1.len() == x1.len(),
        a2.len() == x2.len(),
        0 <= k <= a2.len(),
    ensures
        dot(a1 + a2, x1 + x2, a1.len() + k) == dot(a1, x1, a1.len() as int) + dot(a2, x2, k),
    decreases k,
{
    if k == 0 {
        lemma_dot_agrees(a1 + a2, a1, x1 + x2, x1, a1.len() as int);
    } else {
        lemma_dot_concat(a1, a2, x1, x2, k - 1);
        assert((a1 + a2)[a1.len() + k - 1] == a2[k - 1]);
        assert((x1 + x2)[a1.len() + k - 1] == x2[k - 1]);
    }
}

/// Products that are zero add nothing to a sum of products.
pub proof fn lemma_dot_zero_tail(a: Seq<Fraction>, x: Seq<real>, n: int, total: int)
    requires
        0 <= n <= total <= a.len(),
        total <= x.len(),
        forall|j: int| n <= j < total ==> (#[trigger] a[j]).value() * x[j] == 0real,
    ensures
        dot(a, x, total) == dot(a, x, n),
    decreases total - n,
{
    if total > n {
        lemma_dot_zero_tail(a, x, n, total - 1);
    }
}

/// The value of zero is zero.
pub proof fn lemma_zero_value()
    ensures
        (Fraction { num: 0, den: 1 }).value() == 0real,
        (Fraction { num: 1, den: 1 }).value() == 1real,
        (Fraction { num: -1i64, den: 1 }).value() == -1real,
{
    lemma_over_one(0);
    lemma_over_one(1);
    lemma_over_one(-1);
}

/// Filling a list of coefficients up with zeros does not change its sum of
/// products.
pub proof fn lemma_dot_sized(a: Seq<Fraction>, x: Seq<real>, n: nat)
    requires
        a.len() <= n,
        n <= x.len(),
    ensures
        dot(sized(a, n), x, n as int) == dot(a, x, a.len() as int),
{
    let s = sized(a, n);
    lemma_zero_value();
    assert forall|j: int| a.len() <= j < n implies (#[trigger] s[j]).value() * x[j] == 0real by {
        assert(s[j] == Fraction { num: 0, den: 1 });
    }
    lemma_dot_zero_tail(s, x, a.len() as int, n as int);
    lemma_dot_agrees(s, a, x, x, a.len() as int);
}

/// The value of a fraction with its sign turned is the value with its sign
/// turned.
pub proof fn lemma_negated_value(f: Fraction)
    requires
        f.well_formed(),
    ensures
        (Fraction { num: (-f.num) as i64, den: f.den }).value() == -f.value(),
{
    let p = f.num as real;
    let d = f.den as real;
    assert((-f.num) as i64 == -f.num);
    assert((-f.num) as real == -p);
    assert((-p) / d == -(p / d)) by (nonlinear_arith)
        requires
            d > 0real,
    ;
}

/// Turning the sign of every coefficient turns the sign of the sum of
/// products.
pub proof fn lemma_dot_negated(a: Seq<Fraction>, x: Seq<real>, n: int)
    requires
        0 <= n <= a.len(),
        n <= x.len(),
        forall|j: int| 0 <= j < a.len() ==> (#[trigger] a[j]).well_formed(),
    ensures
        dot(negated(a), x, n) == -dot(a, x, n),
    decreases n,
{
    if n > 0 {
        lemma_dot_negated(a, x, n - 1);
        let f = a[n - 1];
        assert(f.well_formed());
        lemma_negated_value(f);
        let v = f.value();
        let w = x[n - 1];
        assert(negated(a)[n - 1] == Fraction { num: (-f.num) as i64, den: f.den });
        assert((-v) * w == -(v * w)) by (nonlinear_arith);
    }
}

/// The left-hand side of a constraint in standard form at the values `y`
/// of the `n` variables of the model.
pub open spec fn normal_lhs(c: LinearConstraint, y: Seq<real>, n: nat) -> real {
    dot(normal_coefficients(c, n), y, n as int)
}

/// The comparison `comparison` holds of `lhs` and `rhs`.
pub open spec fn compares(lhs: real, comparison: Comparison, rhs: real) -> bool {
    match comparison {
        Comparison::LowerOrEqual => lhs <= rhs,
        Comparison::UpperOrEqual => lhs >= rhs,
        Comparison::Equal => lhs == rhs,
    }
}

/// Values that meet a constraint meet it in its standard form.
pub proof fn lemma_normal_holds(c: LinearConstraint, y: Seq<real>, n: nat)
    requires
        c.well_formed(),
        c.coefficients.len() <= n,
        y.len() == n,
        constraint_holds(c, y),
    ensures
        compares(normal_lhs(c, y, n), normal_comparison(c), normal_rhs(c).value()),
        normal_rhs(c).value() >= 0real,
{
    let a = c.coefficients@;
    lemma_dot_sized(a, y, n);
    crate::solvers::algebra::lemma_value_sign(c.rhs);
    if c.rhs.num < 0 {
        assert forall|j: int| 0 <= j < sized(a, n).len() implies (#[trigger] sized(
            a,
            n,
        )[j]).well_formed() by {
            if j < a.len() {
                assert(a[j].well_formed());
            }
        }
        lemma_dot_negated(sized(a, n), y, n as int);
        lemma_negated_value(c.rhs);
    }
}

/// The value of an added variable at the values `y` of the variables of
/// the model: what a slack adds to the left-hand side of its constraint to
/// reach the right-hand side, what a surplus takes from it, and zero for
/// an artificial variable.
pub open spec fn added_value(
    kind: ColumnKind,
    constraints: Seq<LinearConstraint>,
    y: Seq<real>,
    n: nat,
) -> real {
    match kind {
        ColumnKind::Slack(i) => normal_rhs(constraints[i as int]).value() - normal_lhs(
            constraints[i as int],
            y,
            n,
        ),
        ColumnKind::Surplus(i) => normal_lhs(constraints[i as int], y, n) - normal_rhs(
            constraints[i as int],
        ).value(),
        _ => 0real,
    }
}

/// The values of the added variables `columns`.
pub open spec fn added_values(
    columns: Seq<ColumnKind>,
    constraints: Seq<LinearConstraint>,
    y: Seq<real>,
    n: nat,
) -> Seq<real> {
    Seq::new(columns.len(), |k: int| added_value(columns[k], constraints, y, n))
}

/// The values `y` of the variables of a model, extended by the values of
/// the variables that its standard form adds.
pub open spec fn extended(model: &LinearModel, y: Seq<real>) -> Seq<real> {
    y + added_values(
        added_columns(model.constraints@, model.constraints.len() as int),
        model.constraints@,
        y,
        model.variables.len() as nat,
    )
}

/// What the added variables add to the left-hand side of the constraint
/// `row`, at the values `y`.
pub open spec fn added_part(
    constraints: Seq<LinearConstraint>,
    row: usize,
    y: Seq<real>,
    n: nat,
) -> real {
    match normal_comparison(constraints[row as int]) {
        Comparison::LowerOrEqual => normal_rhs(constraints[row as int]).value() - normal_lhs(
            constraints[row as int],
            y,
            n,
        ),
        Comparison::UpperOrEqual => normal_rhs(constraints[row as int]).value() - normal_lhs(
            constraints[row as int],
            y,
            n,
        ),
        Comparison::Equal => 0real,
    }
}

/// A slack is added for a constraint with `<=` only, and a surplus for one
/// with `>=` only.
pub proof fn lemma_added_kinds(constraints: Seq<LinearConstraint>, upto: int)
    requires
        0 <= upto <= constraints.len(),
        constraints.len() <= usize::MAX,
    ensures
        forall|k: int|
            0 <= k < added_columns(constraints, upto).len() ==> match (
            #[trigger] added_columns(constraints, upto)[k]) {
                ColumnKind::Decision => false,
                ColumnKind::Slack(row) => row < upto && normal_comparison(constraints[row as int])
                    == Comparison::LowerOrEqual,
                ColumnKind::Surplus(row) => row < upto && normal_comparison(
                    constraints[row as int],
                ) == Comparison::UpperOrEqual,
                ColumnKind::Artificial(row) => row < upto,
            },
    decreases upto,
{
    if upto > 0 {
        lemma_added_kinds(constraints, upto - 1);
    }
}

/// The sum of the products of the coefficients that the added variables of
/// the first `upto` constraints have in the constraint `row`, and their
/// values: what the variables of that constraint add, where it is among
/// them.
pub proof fn lemma_added_sum(
    constraints: Seq<LinearConstraint>,
    row: usize,
    y: Seq<real>,
    n: nat,
    upto: int,
)
    requires
        0 <= upto <= constraints.len(),
        row < constraints.len(),
        constraints.len() <= usize::MAX,
    ensures
        dot(
            added_coefficients(added_columns(constraints, upto), row),
            added_values(added_columns(constraints, upto), constraints, y, n),
            added_columns(constraints, upto).len() as int,
        ) == if row < upto {
            added_part(constraints, row, y, n)
        } else {
            0real
        },
    decreases upto,
{
    let columns = added_columns(constraints, upto);
    if upto > 0 {
        lemma_added_sum(constraints, row, y, n, upto - 1);
        let before = added_columns(constraints, upto - 1);
        let i = (upto - 1) as usize;
        let fresh = match normal_comparison(constraints[upto - 1]) {
            Comparison::LowerOrEqual => seq![ColumnKind::Slack(i)],
            Comparison::UpperOrEqual => seq![ColumnKind::Surplus(i), ColumnKind::Artificial(i)],
            Comparison::Equal => seq![ColumnKind::Artificial(i)],
        };
        assert(columns == before + fresh);
        let a1 = added_coefficients(before, row);
        let a2 = added_coefficients(fresh, row);
        let x1 = added_values(before, constraints, y, n);
        let x2 = added_values(fresh, constraints, y, n);
        assert(added_coefficients(columns, row) =~= a1 + a2);
        assert(added_values(columns, constraints, y, n) =~= x1 + x2);
        lemma_dot_concat(a1, a2, x1, x2, a2.len() as int);
        lemma_zero_value();
        // The sum over the fresh columns.
        assert(dot(a2, x2, 0) == 0real);
        assert(dot(a2, x2, 1) == dot(a2, x2, 0) + a2[0].value() * x2[0]);
        if fresh.len() == 2 {
            assert(dot(a2, x2, 2) == dot(a2, x2, 1) + a2[1].value() * x2[1]);
        }
        let lhs = normal_lhs(constraints[upto - 1], y, n);
        let rhs = normal_rhs(constraints[upto - 1]).value();
        if i == row {
            match normal_comparison(constraints[upto - 1]) {
                Comparison::LowerOrEqual => {
                    assert(a2[0] == Fraction { num: 1, den: 1 });
                    assert(x2[0] == rhs - lhs);
                    assert(1real * (rhs - lhs) == rhs - lhs) by (nonlinear_arith);
                },
                Comparison::UpperOrEqual => {
                    assert(a2[0] == Fraction { num: -1i64, den: 1 });
                    assert(a2[1] == Fraction { num: 1, den: 1 });
                    assert(x2[0] == lhs - rhs);
                    assert(x2[1] == 0real);
                    assert((-1real) * (lhs - rhs) + 1real * 0real == rhs - lhs)
                        by (nonlinear_arith);
                },
                Comparison::Equal => {
                    assert(a2[0] == Fraction { num: 1, den: 1 });
                    assert(x2[0] == 0real);
                    assert(1real * 0real == 0real) by (nonlinear_arith);
                },
            }
        } else {
            assert(a2[0] == Fraction { num: 0, den: 1 });
            let v0 = x2[0];
            assert(0real * v0 == 0real) by (nonlinear_arith);
            if fresh.len() == 2 {
                assert(a2[1] == Fraction { num: 0, den: 1 });
                let v1 = x2[1];
                assert(0real * v1 == 0real) by (nonlinear_arith);
            }
        }
    } else {
        assert(columns.len() == 0);
    }
}

/// The values `z` are zero for every artificial variable among `columns`.
pub open spec fn artificials_zero(columns: Seq<ColumnKind>, z: Seq<real>) -> bool {
    forall|k: int| 0 <= k < columns.len() && columns[k] is Artificial ==> #[trigger] z[k] == 0real
}

impl StandardLinearModel {
    /// The values `z` solve every row of the model.
    pub open spec fn solved_by(&self, z: Seq<real>) -> bool {
        &&& z.len() == self.columns.len()
        &&& forall|i: int|
            0 <= i < self.constraints.len() ==> dot(
                (#[trigger] self.constraints[i]).coefficients@,
                z,
                self.columns.len() as int,
            ) == self.constraints[i].rhs.value()
    }

    /// The values `z` are a feasible point of the model: they solve every
    /// row, none of them is below zero, and every artificial variable is
    /// zero.
    pub open spec fn feasible_at(&self, z: Seq<real>) -> bool {
        &&& self.solved_by(z)
        &&& non_negative(z)
        &&& artificials_zero(self.columns@, z)
    }
}

/// Values that meet the constraints of a model, none of them below zero,
/// extend to a feasible point of its standard form.
pub proof fn lemma_extended_is_feasible(
    standard: &StandardLinearModel,
    model: &LinearModel,
    y: Seq<real>,
)
    requires
        model.well_formed(),
        model.fits_variables(),
        standard.is_standard_form_of(model),
        y.len() == model.variables.len(),
        non_negative(y),
        model.satisfied_by(y),
    ensures
        standard.feasible_at(extended(model, y)),
        extended(model, y).len() == standard.columns.len(),
        forall|j: int| 0 <= j < y.len() ==> extended(model, y)[j] == y[j],
{
    let n = model.variables.len() as nat;
    let m = model.constraints.len() as int;
    let constraints = model.constraints@;
    let added = added_columns(constraints, m);
    let tail = added_values(added, constraints, y, n);
    let z = extended(model, y);
    lemma_added_kinds(constraints, m);
    assert(z.len() == standard.columns.len());
    assert forall|k: int| 0 <= k < z.len() implies (#[trigger] z[k]) >= 0real by {
        if k >= n {
            assert(z[k] == tail[k - n]);
            match added[k - n] {
                ColumnKind::Slack(row) => {
                    assert(constraint_holds(model.constraints[row as int], y));
                    lemma_normal_holds(constraints[row as int], y, n);
                },
                ColumnKind::Surplus(row) => {
                    assert(constraint_holds(model.constraints[row as int], y));
                    lemma_normal_holds(constraints[row as int], y, n);
                },
                _ => {},
            }
        } else {
            assert(z[k] == y[k]);
        }
    }
    assert forall|k: int|
        0 <= k < standard.columns.len() && standard.columns[k] is Artificial implies #[trigger] z[k]
        == 0real by {
        assert(k >= n);
        assert(standard.columns[k] == added[k - n]);
        assert(z[k] == tail[k - n]);
    }
    assert forall|i: int| 0 <= i < standard.constraints.len() implies dot(
        (#[trigger] standard.constraints[i]).coefficients@,
        z,
        standard.columns.len() as int,
    ) == standard.constraints[i].rhs.value() by {
        let c = constraints[i];
        let head = normal_coefficients(c, n);
        let coefficients = added_coefficients(added, i as usize);
        assert(standard.constraints[i].coefficients@ == head + coefficients);
        lemma_dot_concat(head, coefficients, y, tail, coefficients.len() as int);
        lemma_added_sum(constraints, i as usize, y, n, m);
        assert(constraint_holds(model.constraints[i], y));
        lemma_normal_holds(c, y, n);
    }
}

/// What the objective of the standard form of a model is at values of all
/// its variables: the objective of the model at the values of the variables
/// of the model, with its sign turned where the maximum is asked for, and
/// zero where any feasible point is asked for.
pub proof fn lemma_standard_objective(
    standard: &StandardLinearModel,
    model: &LinearModel,
    v: Seq<real>,
)
    requires
        model.well_formed(),
        model.fits_variables(),
        standard.is_standard_form_of(model),
        v.len() == standard.columns.len(),
    ensures
        standard.objective_offset.value() + dot(
            standard.objective@,
            v,
            standard.columns.len() as int,
        ) == match model.optimization_type {
            OptimizationType::Min => model.objective_at(v.take(model.variables.len() as int)),
            OptimizationType::Max => -model.objective_at(v.take(model.variables.len() as int)),
            OptimizationType::Satisfy => 0real,
        },
{
    let n = model.variables.len() as nat;
    let added = added_columns(model.constraints@, model.constraints.len() as int);
    let head = model.standard_objective();
    let tail = zeros(added.len());
    let y = v.take(n as int);
    let rest = v.skip(n as int);
    assert(v =~= y + rest);
    assert(standard.objective@ == head + tail);
    lemma_dot_concat(head, tail, y, rest, tail.len() as int);
    lemma_zero_value();
    assert forall|j: int| 0 <= j < tail.len() implies (#[trigger] tail[j]).value() * rest[j]
        == 0real by {
        let w = rest[j];
        assert(0real * w == 0real) by (nonlinear_arith);
    }
    lemma_dot_zero_tail(tail, rest, 0, tail.len() as int);
    let filled = sized(model.objective@, n);
    lemma_dot_sized(model.objective@, y, n);
    match model.optimization_type {
        OptimizationType::Min => {},
        OptimizationType::Max => {
            assert forall|j: int| 0 <= j < filled.len() implies (#[trigger] filled[j]).well_formed() by {
                if j < model.objective.len() {
                    assert(model.objective[j].well_formed());
                }
            }
            lemma_dot_negated(filled, y, n as int);
            lemma_negated_value(model.objective_offset);
        },
        OptimizationType::Satisfy => {
            assert forall|j: int| 0 <= j < n implies (#[trigger] head[j]).value() * y[j]
                == 0real by {
                let w = y[j];
                assert(0real * w == 0real) by (nonlinear_arith);
            }
            lemma_dot_zero_tail(head, y, 0, n as int);
        },
    }
}

/// Values that meet a constraint in its standard form meet the constraint.
pub proof fn lemma_normal_back(c: LinearConstraint, y: Seq<real>, n: nat)
    requires
        c.well_formed(),
        c.coefficients.len() <= n,
        y.len() == n,
        compares(normal_lhs(c, y, n), normal_comparison(c), normal_rhs(c).value()),
    ensures
        constraint_holds(c, y),
{
    let a = c.coefficients@;
    lemma_dot_sized(a, y, n);
    crate::solvers::algebra::lemma_value_sign(c.rhs);
    if c.rhs.num < 0 {
        assert forall|j: int| 0 <= j < sized(a, n).len() implies (#[trigger] sized(
            a,
            n,
        )[j]).well_formed() by {
            if j < a.len() {
                assert(a[j].well_formed());
            }
        }
        lemma_dot_negated(sized(a, n), y, n as int);
        lemma_negated_value(c.rhs);
    }
}

/// What the comparison `comparison` lets the added variables add to a
/// left-hand side, where none of them is below zero and the artificial
/// variables are zero: nothing below zero for `<=`, nothing above zero for
/// `>=`, and nothing for `=`.
pub open spec fn may_add(comparison: Comparison, part: real) -> bool {
    match comparison {
        Comparison::LowerOrEqual => part >= 0real,
        Comparison::UpperOrEqual => part <= 0real,
        Comparison::Equal => part == 0real,
    }
}

/// The sum of the products of the coefficients that the added variables of
/// the first `upto` constraints have in the constraint `row`, and any
/// values of them that are not below zero, and zero for the artificial
/// variables: nothing where the constraint is not among them, and else what
/// [`may_add`] says.
pub proof fn lemma_added_sign(
    constraints: Seq<LinearConstraint>,
    row: usize,
    tail: Seq<real>,
    upto: int,
)
    requires
        0 <= upto <= constraints.len(),
        row < constraints.len(),
        constraints.len() <= usize::MAX,
        tail.len() == added_columns(constraints, upto).len(),
        non_negative(tail),
        artificials_zero(added_columns(constraints, upto), tail),
    ensures
        row >= upto ==> dot(
            added_coefficients(added_columns(constraints, upto), row),
            tail,
            tail.len() as int,
        ) == 0real,
        row < upto ==> may_add(
            normal_comparison(constraints[row as int]),
            dot(added_coefficients(added_columns(constraints, upto), row), tail, tail.len() as int),
        ),
    decreases upto,
{
    let columns = added_columns(constraints, upto);
    if upto > 0 {
        let before = added_columns(constraints, upto - 1);
        let i = (upto - 1) as usize;
        let fresh = match normal_comparison(constraints[upto - 1]) {
            Comparison::LowerOrEqual => seq![ColumnKind::Slack(i)],
            Comparison::UpperOrEqual => seq![ColumnKind::Surplus(i), ColumnKind::Artificial(i)],
            Comparison::Equal => seq![ColumnKind::Artificial(i)],
        };
        assert(columns == before + fresh);
        let x1 = tail.take(before.len() as int);
        let x2 = tail.skip(before.len() as int);
        assert(tail =~= x1 + x2);
        assert forall|k: int| 0 <= k < x1.len() implies (#[trigger] x1[k]) >= 0real by {
            assert(x1[k] == tail[k]);
        }
        assert forall|k: int|
            0 <= k < before.len() && before[k] is Artificial implies #[trigger] x1[k] == 0real by {
            assert(columns[k] == before[k]);
            assert(x1[k] == tail[k]);
        }
        lemma_added_sign(constraints, row, x1, upto - 1);
        let a1 = added_coefficients(before, row);
        let a2 = added_coefficients(fresh, row);
        assert(added_coefficients(columns, row) =~= a1 + a2);
        lemma_dot_concat(a1, a2, x1, x2, a2.len() as int);
        lemma_zero_value();
        assert(dot(a2, x2, 0) == 0real);
        assert(dot(a2, x2, 1) == dot(a2, x2, 0) + a2[0].value() * x2[0]);
        if fresh.len() == 2 {
            assert(dot(a2, x2, 2) == dot(a2, x2, 1) + a2[1].value() * x2[1]);
        }
        let v0 = x2[0];
        assert(v0 == tail[before.len() as int]);
        assert(v0 >= 0real);
        assert(columns[before.len() as int] == fresh[0]);
        if fresh.len() == 2 {
            assert(columns[before.len() as int + 1] == fresh[1]);
            assert(x2[1] == tail[before.len() as int + 1]);
            assert(x2[1] == 0real);
        }
        if i == row {
            match normal_comparison(constraints[upto - 1]) {
                Comparison::LowerOrEqual => {
                    assert(a2[0] == Fraction { num: 1, den: 1 });
                    assert(1real * v0 == v0) by (nonlinear_arith);
                },
                Comparison::UpperOrEqual => {
                    assert(a2[0] == Fraction { num: -1i64, den: 1 });
                    assert(a2[1] == Fraction { num: 1, den: 1 });
                    assert((-1real) * v0 + 1real * 0real == -v0) by (nonlinear_arith);
                },
                Comparison::Equal => {
                    assert(a2[0] == Fraction { num: 1, den: 1 });
                    assert(v0 == 0real);
                    assert(1real * 0real == 0real) by (nonlinear_arith);
                },
            }
        } else {
            assert(a2[0] == Fraction { num: 0, den: 1 });
            assert(0real * v0 == 0real) by (nonlinear_arith);
            if fresh.len() == 2 {
                assert(a2[1] == Fraction { num: 0, den: 1 });
                assert(0real * 0real == 0real) by (nonlinear_arith);
            }
        }
    } else {
        assert(columns.len() == 0);
    }
}

/// The values that a feasible point of the standard form of a model gives
/// to the variables of the model are not below zero and meet every
/// constraint of the model.
pub proof fn lemma_restricted_is_feasible(
    standard: &StandardLinearModel,
    model: &LinearModel,
    z: Seq<real>,
)
    requires
        model.well_formed(),
        model.fits_variables(),
        standard.is_standard_form_of(model),
        standard.feasible_at(z),
    ensures
        z.take(model.variables.len() as int).len() == model.variables.len(),
        non_negative(z.take(model.variables.len() as int)),
        model.satisfied_by(z.take(model.variables.len() as int)),
{
    let n = model.variables.len() as nat;
    let m = model.constraints.len() as int;
    let constraints = model.constraints@;
    let added = added_columns(constraints, m);
    let y = z.take(n as int);
    let tail = z.skip(n as int);
    assert(z =~= y + tail);
    assert forall|k: int| 0 <= k < y.len() implies (#[trigger] y[k]) >= 0real by {
        assert(y[k] == z[k]);
    }
    assert forall|k: int| 0 <= k < tail.len() implies (#[trigger] tail[k]) >= 0real by {
        assert(tail[k] == z[k + n]);
    }
    assert forall|k: int| 0 <= k < added.len() && added[k] is Artificial implies #[trigger] tail[k]
        == 0real by {
        assert(standard.columns[k + n] == added[k]);
        assert(tail[k] == z[k + n]);
    }
    assert forall|i: int| 0 <= i < model.constraints.len() implies constraint_holds(
        #[trigger] model.constraints[i],
        y,
    ) by {
        let c = constraints[i];
        let head = normal_coefficients(c, n);
        let coefficients = added_coefficients(added, i as usize);
        assert(standard.constraints[i].coefficients@ == head + coefficients);
        assert(dot(standard.constraints[i].coefficients@, z, standard.columns.len() as int)
            == standard.constraints[i].rhs.value());
        lemma_dot_concat(head, coefficients, y, tail, coefficients.len() as int);
        lemma_added_sign(constraints, i as usize, tail, m);
        assert(c.well_formed());
        lemma_normal_back(c, y, n);
    }
}

} // verus!
