//! What the simplex achieves.
//!
//! The statements are about [`run`] and [`solved`], the specification of
//! the algorithm, and so about [`Tableau::solve`], which follows it: the
//! tableau keeps its solutions and its identity of basic columns from pivot
//! to pivot, and where the run ends as optimal, the basic solution at its
//! end solves the tableau that it started from and no solution without
//! negative values has a lower objective.
//!
//! [`Tableau::solve`]: crate::solvers::tableau::Tableau::solve
use vstd::prelude::*;
use crate::fraction::{lemma_quotient_value, Fraction};
use crate::solvers::algebra::{
    lemma_dot_non_negative, lemma_pivot_keeps_solutions, lemma_pivot_row_values, lemma_value_sign,
};
use crate::solvers::simplex::{
    entering_column, leaving_row, lemma_entering_column, lemma_leaving_row, priced_out, ratio, run,
    solved, Outcome,
};
use crate::solvers::tableau::{
    dot, eliminated_entry, eliminated_row, lemma_pivot_keeps_canonical, non_negative, one,
    scaled_entry, scaled_row, values, zero, TableauView,
};

verus! {

impl TableauView {
    /// The objective has a zero in the column of every basic variable.
    pub open spec fn is_reduced(self) -> bool {
        forall|r: int| 0 <= r < self.basis.len() ==> self.c[(#[trigger] self.basis[r]) as int].num == 0
    }

    /// The objective has a zero in the column of the basic variable of each
    /// of the first `upto` rows.
    pub open spec fn is_reduced_upto(self, upto: int) -> bool {
        forall|r: int| 0 <= r < upto ==> self.c[(#[trigger] self.basis[r]) as int].num == 0
    }

    /// The two tableaux have the same solutions and the same objective at
    /// each of them.
    pub open spec fn same_solutions(self, other: TableauView) -> bool {
        &&& self.width() == other.width()
        &&& forall|x: Seq<real>|
            x.len() == self.width() ==> (#[trigger] self.solved_by(x) <==> other.solved_by(x))
        &&& forall|x: Seq<real>|
            x.len() == self.width() && #[trigger] self.solved_by(x) ==> self.objective_at(x)
                == other.objective_at(x)
    }
}

/// In a tableau whose basic columns form an identity no variable is basic
/// in two rows.
pub proof fn lemma_basis_distinct(t: TableauView, r1: int, r2: int)
    requires
        t.well_formed(),
        t.is_canonical(),
        0 <= r1 < t.height(),
        0 <= r2 < t.height(),
        r1 != r2,
    ensures
        t.basis[r1] != t.basis[r2],
{
    if t.basis[r1] == t.basis[r2] {
        assert(t.a[r1][t.basis[r1] as int] == one());
        assert(t.a[r1][t.basis[r2] as int] == zero());
    }
}

/// A pivot on an entry that is not zero keeps the objective at zero in the
/// columns of the basic variables of the rows `0..upto`, and brings it to
/// zero in the pivot column.
pub proof fn lemma_pivot_keeps_reduced(t: TableauView, row: int, column: usize, upto: int)
    requires
        t.well_formed(),
        t.is_canonical(),
        0 <= row < t.height(),
        0 <= upto <= t.height(),
        column < t.width(),
        t.a[row][column as int].num != 0,
        t.pivoted(row, column) is Some,
        forall|r: int|
            0 <= r < upto && r != row ==> t.c[(#[trigger] t.basis[r]) as int].num == 0,
    ensures
        t.pivoted(row, column)->Some_0.c[column as int].num == 0,
        forall|r: int|
            0 <= r < upto ==> t.pivoted(row, column)->Some_0.c[(#[trigger] t.pivoted(
                row,
                column,
            )->Some_0.basis[r]) as int].num == 0,
{
    let col = column as int;
    let p = t.pivoted(row, column)->Some_0;
    let pivot = t.a[row][col];
    let pivot_row = scaled_row(t.a[row], pivot, col)->Some_0;
    let cleared = eliminated_row(t.c, t.c[col], pivot_row, col)->Some_0;
    assert(p.c == cleared);
    assert(t.a[row].len() == t.width());
    assert(cleared[col] == eliminated_entry(t.c[col], t.c[col], pivot_row[col], col, col)->Some_0);
    assert forall|r: int| 0 <= r < upto implies p.c[(#[trigger] p.basis[r]) as int].num == 0 by {
        if r != row {
            let j = t.basis[r] as int;
            assert(p.basis[r] == t.basis[r]);
            assert(j < t.width());
            assert(t.a[row][j] == zero());
            assert(j != col);
            assert(pivot_row[j] == scaled_entry(t.a[row][j], pivot, j, col)->Some_0);
            assert(cleared[j] == eliminated_entry(t.c[j], t.c[col], pivot_row[j], j, col)->Some_0);
        }
    }
}

/// A pivot on an entry that is not zero keeps the solutions of a tableau.
pub proof fn lemma_pivot_same_solutions(t: TableauView, row: int, column: usize)
    requires
        t.well_formed(),
        0 <= row < t.height(),
        column < t.width(),
        t.a[row][column as int].num != 0,
        t.pivoted(row, column) is Some,
    ensures
        t.same_solutions(t.pivoted(row, column)->Some_0),
{
    let p = t.pivoted(row, column)->Some_0;
    lemma_pivot_row_values(t, row, column);
    assert(p.c.len() == t.c.len()) by {
        crate::solvers::algebra::lemma_objective_values(t, row, column);
    }
    assert forall|x: Seq<real>| x.len() == t.width() implies (#[trigger] t.solved_by(x)
        <==> p.solved_by(x)) by {
        lemma_pivot_keeps_solutions(t, row, column, x);
    }
    assert forall|x: Seq<real>| x.len() == t.width() && #[trigger] t.solved_by(x) implies t.objective_at(
        x,
    ) == p.objective_at(x) by {
        lemma_pivot_keeps_solutions(t, row, column, x);
    }
}

/// Having the same solutions carries over.
pub proof fn lemma_same_solutions_transitive(a: TableauView, b: TableauView, c: TableauView)
    requires
        a.same_solutions(b),
        b.same_solutions(c),
    ensures
        a.same_solutions(c),
{
    assert forall|x: Seq<real>| x.len() == a.width() implies (#[trigger] a.solved_by(x)
        <==> c.solved_by(x)) by {
        assert(a.solved_by(x) <==> b.solved_by(x));
        assert(b.solved_by(x) <==> c.solved_by(x));
    }
    assert forall|x: Seq<real>| x.len() == a.width() && #[trigger] a.solved_by(x) implies a.objective_at(
        x,
    ) == c.objective_at(x) by {
        assert(a.solved_by(x) <==> b.solved_by(x));
        assert(b.solved_by(x));
    }
}

/// Pricing out keeps a tableau well formed, its basic columns an identity,
/// its right-hand sides at or above zero and its solutions, and clears the
/// objective of the basic variables.
pub proof fn lemma_priced_out(t: TableauView, upto: int)
    requires
        t.well_formed(),
        t.is_canonical(),
        0 <= upto <= t.height(),
        priced_out(t, upto) is Some,
    ensures
        priced_out(t, upto)->Some_0.well_formed(),
        priced_out(t, upto)->Some_0.is_canonical(),
        priced_out(t, upto)->Some_0.height() == t.height(),
        priced_out(t, upto)->Some_0.width() == t.width(),
        priced_out(t, upto)->Some_0.basis == t.basis,
        priced_out(t, upto)->Some_0.is_reduced_upto(upto),
        t.same_solutions(priced_out(t, upto)->Some_0),
        t.is_feasible() ==> priced_out(t, upto)->Some_0.is_feasible(),
    decreases upto,
{
    if upto > 0 {
        lemma_priced_out(t, upto - 1);
        let p = priced_out(t, upto - 1)->Some_0;
        let r = upto - 1;
        let column = p.basis[r];
        if p.c[column as int].num != 0 {
            let q = p.pivoted(r, column)->Some_0;
            assert(p.a[r][column as int] == one());
            lemma_pivot_keeps_canonical(p, r, column);
            lemma_pivot_same_solutions(p, r, column);
            lemma_same_solutions_transitive(t, p, q);
            assert(q.basis =~= p.basis);
            assert forall|k: int| 0 <= k < upto && k != r implies p.c[(#[trigger] p.basis[k]) as int].num
                == 0 by {}
            lemma_pivot_keeps_reduced(p, r, column, upto);
            if t.is_feasible() {
                lemma_pivot_on_basic_keeps_feasible(p, r);
            }
        } else {
            assert(priced_out(t, upto) == Some(p));
        }
    } else {
        assert(t.same_solutions(t));
    }
}

/// A pivot on the one of a basic column keeps the right-hand sides at or
/// above zero.
pub proof fn lemma_pivot_on_basic_keeps_feasible(t: TableauView, row: int)
    requires
        t.well_formed(),
        t.is_canonical(),
        t.is_feasible(),
        0 <= row < t.height(),
        t.pivoted(row, t.basis[row]) is Some,
    ensures
        t.pivoted(row, t.basis[row])->Some_0.is_feasible(),
{
    let column = t.basis[row];
    let col = column as int;
    let p = t.pivoted(row, column)->Some_0;
    assert(t.a[row][col] == one());
    lemma_pivot_row_values(t, row, column);
    crate::fraction::lemma_over_one(1);
    assert forall|i: int| 0 <= i < p.b.len() implies (#[trigger] p.b[i]).num >= 0 by {
        assert(t.b[i].num >= 0);
        assert(t.b[i].well_formed());
        if i == row {
            lemma_value_sign(t.b[row]);
            lemma_value_sign(p.b[row]);
            let v = t.b[row].value();
            assert(v / 1real == v) by (nonlinear_arith);
        } else {
            assert(t.a[i][col] == zero());
            assert(p.b[i] == eliminated_entry(
                t.b[i],
                t.a[i][col],
                p.b[row],
                0,
                -1,
            )->Some_0);
        }
    }
}

/// The row that leaves the basis has the lowest ratio among the rows with an
/// entry above zero in the column that enters.
pub proof fn lemma_leaving_row_is_least(t: TableauView, col: int, m: int, i: int)
    requires
        t.well_formed(),
        0 <= m <= t.height(),
        0 <= col < t.width(),
        0 <= i < m,
        t.a[i][col].num > 0,
        leaving_row(t, col, m) is Ok,
    ensures
        leaving_row(t, col, m)->Ok_0 is Some,
        ratio(t, i, col) is Some,
        ratio(t, leaving_row(t, col, m)->Ok_0->Some_0, col) is Some,
        ratio(t, leaving_row(t, col, m)->Ok_0->Some_0, col)->Some_0.value() <= ratio(
            t,
            i,
            col,
        )->Some_0.value(),
    decreases m,
{
    lemma_leaving_row(t, col, m);
    lemma_leaving_row(t, col, m - 1);
    if i < m - 1 {
        lemma_leaving_row_is_least(t, col, m - 1, i);
    }
}

/// A pivot on the row that leaves and the column that enters keeps the
/// right-hand sides at or above zero.
pub proof fn lemma_pivot_keeps_feasible(t: TableauView, row: int, column: usize)
    requires
        t.well_formed(),
        t.is_feasible(),
        column < t.width(),
        leaving_row(t, column as int, t.height() as int) == Ok::<Option<int>, ()>(Some(row)),
        t.pivoted(row, column) is Some,
    ensures
        t.pivoted(row, column)->Some_0.is_feasible(),
{
    let col = column as int;
    let m = t.height() as int;
    let p = t.pivoted(row, column)->Some_0;
    lemma_leaving_row(t, col, m);
    assert(t.a[row].len() == t.width());
    let pivot = t.a[row][col];
    assert(pivot.well_formed());
    lemma_value_sign(pivot);
    lemma_pivot_row_values(t, row, column);
    let pv = pivot.value();
    let level = p.b[row].value();
    assert(t.b[row].well_formed());
    assert(t.b[row].num >= 0);
    lemma_value_sign(t.b[row]);
    let side = t.b[row].value();
    assert(level >= 0real) by (nonlinear_arith)
        requires
            level == side / pv,
            pv > 0real,
            side >= 0real,
    ;
    lemma_quotient_value(t.b[row], pivot);
    assert(ratio(t, row, col)->Some_0.value() == level);
    assert forall|i: int| 0 <= i < p.b.len() implies (#[trigger] p.b[i]).num >= 0 by {
        if i == row {
            lemma_value_sign(p.b[row]);
        } else {
            crate::solvers::algebra::lemma_other_row_values(t, row, column, i);
            assert(t.a[i].len() == t.width());
            let f = t.a[i][col];
            assert(f.well_formed());
            assert(t.b[i].well_formed());
            assert(t.b[i].num >= 0);
            lemma_value_sign(f);
            lemma_value_sign(t.b[i]);
            let fv = f.value();
            let bv = t.b[i].value();
            // The new right-hand side is well formed: it is an entry of a
            // tableau that is.
            assert(eliminated_entry(t.b[i], f, p.b[row], 0, -1) is Some);
            crate::solvers::tableau::lemma_eliminated_well_formed(t.b[i], f, p.b[row], 0, -1);
            assert(p.b[i] == eliminated_entry(t.b[i], f, p.b[row], 0, -1)->Some_0);
            lemma_value_sign(p.b[i]);
            if f.num > 0 {
                lemma_leaving_row_is_least(t, col, m, i);
                lemma_quotient_value(t.b[i], f);
                let q = ratio(t, i, col)->Some_0.value();
                assert(bv - fv * level >= 0real) by (nonlinear_arith)
                    requires
                        q == bv / fv,
                        fv > 0real,
                        level <= q,
                ;
            } else {
                assert(bv - fv * level >= 0real) by (nonlinear_arith)
                    requires
                        fv <= 0real,
                        level >= 0real,
                        bv >= 0real,
                ;
            }
        }
    }
}

/// From pivot to pivot the tableau of a run stays well formed, its basic
/// columns stay an identity, the objective stays at zero in them, and its
/// solutions stay the same; its right-hand sides stay at or above zero where
/// they were so at the start. A run that ends as optimal ends at a tableau
/// whose objective has no entry below zero.
pub proof fn lemma_run(t: TableauView, bland: bool, limit: nat)
    requires
        t.well_formed(),
        t.is_canonical(),
        t.is_reduced(),
    ensures
        run(t, bland, limit).1.well_formed(),
        run(t, bland, limit).1.is_canonical(),
        run(t, bland, limit).1.is_reduced(),
        run(t, bland, limit).1.width() == t.width(),
        run(t, bland, limit).1.height() == t.height(),
        t.same_solutions(run(t, bland, limit).1),
        t.is_feasible() ==> run(t, bland, limit).1.is_feasible(),
        run(t, bland, limit).0 == Outcome::Optimal ==> run(t, bland, limit).1.is_optimal(),
        run(t, bland, limit).0 == Outcome::Unbounded ==> has_ray(run(t, bland, limit).1),
    decreases limit,
{
    lemma_entering_column(t.c, bland);
    assert(t.same_solutions(t));
    match entering_column(t.c, bland) {
        None => {},
        Some(col) => {
            lemma_leaving_row(t, col as int, t.height() as int);
            match leaving_row(t, col as int, t.height() as int) {
                Err(_) => {},
                Ok(None) => {
                    assert(is_ray(t, col as int));
                    assert(run(t, bland, limit) == (Outcome::Unbounded, t));
                    assert(has_ray(t));
                },
                Ok(Some(row)) => {
                    if limit > 0 && t.pivoted(row, col) is Some {
                        let p = t.pivoted(row, col)->Some_0;
                        lemma_pivot_keeps_canonical(t, row, col);
                        lemma_pivot_same_solutions(t, row, col);
                        lemma_pivot_keeps_reduced(t, row, col, t.height() as int);
                        if t.is_feasible() {
                            lemma_pivot_keeps_feasible(t, row, col);
                        }
                        lemma_run(p, t.b[row].num == 0, (limit - 1) as nat);
                        let last = run(p, t.b[row].num == 0, (limit - 1) as nat);
                        assert(run(t, bland, limit) == last);
                        lemma_same_solutions_transitive(t, p, last.1);

                    }
                },
            }
        },
    }
}

/// The objective has an entry below zero in the column `col`, and no row has
/// an entry above zero there: the variable of the column can grow without
/// end, and the objective falls with it.
pub open spec fn is_ray(t: TableauView, col: int) -> bool {
    &&& t.c[col].num < 0
    &&& forall|i: int| 0 <= i < t.height() ==> (#[trigger] t.a[i])[col].num <= 0
}

/// Some variable of the tableau can grow without end while the objective
/// falls.
pub open spec fn has_ray(t: TableauView) -> bool {
    exists|col: int| 0 <= col < t.width() && #[trigger] is_ray(t, col)
}

/// What the basic solution holds: the right-hand side of its row for a basic
/// variable, and zero for every other.
pub proof fn lemma_basic_values(t: TableauView, upto: int)
    requires
        t.well_formed(),
        t.is_canonical(),
        0 <= upto <= t.height(),
    ensures
        t.basic_values(upto).len() == t.width(),
        forall|r: int| 0 <= r < upto ==> t.basic_values(upto)[(#[trigger] t.basis[r]) as int] == t.b[r],
        forall|j: int|
            0 <= j < t.width() && (forall|r: int| 0 <= r < upto ==> (#[trigger] t.basis[r]) != j)
                ==> (#[trigger] t.basic_values(upto)[j]) == zero(),
    decreases upto,
{
    if upto > 0 {
        lemma_basic_values(t, upto - 1);
        let before = t.basic_values(upto - 1);
        let now = t.basic_values(upto);
        let k = t.basis[upto - 1] as int;
        assert(k < t.width());
        assert(now == before.update(k, t.b[upto - 1]));
        assert forall|r: int| 0 <= r < upto implies now[(#[trigger] t.basis[r]) as int] == t.b[r] by {
            if r < upto - 1 {
                lemma_basis_distinct(t, r, upto - 1);
                assert(t.basis[r] < t.width());
            }
        }
        assert forall|j: int|
            0 <= j < t.width() && (forall|r: int| 0 <= r < upto ==> (#[trigger] t.basis[r])
                != j) implies (#[trigger] now[j]) == zero() by {
            assert(t.basis[upto - 1] != j);
            assert(forall|r: int| 0 <= r < upto - 1 ==> (#[trigger] t.basis[r]) != j);
        }
    }
}

/// Where every product but the one at `at` is zero, the sum of the first `n`
/// products is the product at `at`, if that is among them, and zero if not.
pub proof fn lemma_dot_single(a: Seq<Fraction>, x: Seq<real>, n: int, at: int)
    requires
        0 <= n <= a.len(),
        n <= x.len(),
        forall|j: int| 0 <= j < n && j != at ==> (#[trigger] a[j]).value() * x[j] == 0real,
    ensures
        dot(a, x, n) == if 0 <= at < n {
            a[at].value() * x[at]
        } else {
            0real
        },
    decreases n,
{
    if n > 0 {
        lemma_dot_single(a, x, n - 1, at);
        if n - 1 != at {
            assert(a[n - 1].value() * x[n - 1] == 0real);
        }
    }
}

/// The basic solution of a tableau whose basic columns form an identity
/// solves the tableau. No value of it is below zero where no right-hand side
/// is, and the objective at it is the value of the tableau where the
/// objective has a zero in every basic column.
pub proof fn lemma_basic_solution(t: TableauView)
    requires
        t.well_formed(),
        t.is_canonical(),
    ensures
        t.solved_by(values(t.basic_solution())),
        t.is_feasible() ==> non_negative(values(t.basic_solution())),
        t.is_reduced() ==> t.objective_at(values(t.basic_solution())) == t.value.value(),
{
    let m = t.height() as int;
    let n = t.width() as int;
    let best = t.basic_solution();
    let x = values(best);
    lemma_basic_values(t, m);
    crate::fraction::lemma_over_one(0);
    crate::fraction::lemma_over_one(1);
    assert forall|i: int| 0 <= i < m implies dot(#[trigger] t.a[i], x, n) == t.b[i].value() by {
        let k = t.basis[i] as int;
        assert(k < n);
        assert(t.a[i].len() == n);
        assert forall|j: int| 0 <= j < n && j != k implies (#[trigger] t.a[i][j]).value() * x[j]
            == 0real by {
            let v = t.a[i][j].value();
            if forall|r: int| 0 <= r < m ==> (#[trigger] t.basis[r]) != j {
                assert(best[j] == zero());
                assert(v * 0real == 0real) by (nonlinear_arith);
            } else {
                let r = choose|r: int| 0 <= r < m && (#[trigger] t.basis[r]) == j;
                assert(t.a[i][t.basis[r] as int] == zero());
                let w = x[j];
                assert(0real * w == 0real) by (nonlinear_arith);
            }
        }
        lemma_dot_single(t.a[i], x, n, k);
        assert(t.a[i][t.basis[i] as int] == one());
        assert(best[k] == t.b[i]);
        let w = x[k];
        assert(1real * w == w) by (nonlinear_arith);
    }
    if t.is_feasible() {
        assert forall|j: int| 0 <= j < x.len() implies (#[trigger] x[j]) >= 0real by {
            if forall|r: int| 0 <= r < m ==> (#[trigger] t.basis[r]) != j {
                assert(best[j] == zero());
            } else {
                let r = choose|r: int| 0 <= r < m && (#[trigger] t.basis[r]) == j;
                assert(best[t.basis[r] as int] == t.b[r]);
                assert(t.b[r].well_formed());
                assert(t.b[r].num >= 0);
                lemma_value_sign(t.b[r]);
            }
        }
    }
    if t.is_reduced() {
        assert forall|j: int| 0 <= j < n && j != -1 implies (#[trigger] t.c[j]).value() * x[j]
            == 0real by {
            let v = t.c[j].value();
            if forall|r: int| 0 <= r < m ==> (#[trigger] t.basis[r]) != j {
                assert(best[j] == zero());
                assert(v * 0real == 0real) by (nonlinear_arith);
            } else {
                let r = choose|r: int| 0 <= r < m && (#[trigger] t.basis[r]) == j;
                assert(t.c[t.basis[r] as int].num == 0);
                assert(t.c[j].well_formed());
                lemma_value_sign(t.c[j]);
                let w = x[j];
                assert(0real * w == 0real) by (nonlinear_arith);
            }
        }
        lemma_dot_single(t.c, x, n, -1);
    }
}

/// At a tableau whose objective has no entry below zero, the objective at
/// values that are not below zero is at least the value of the tableau.
pub proof fn lemma_optimal_is_least(t: TableauView, x: Seq<real>)
    requires
        t.well_formed(),
        t.is_optimal(),
        x.len() == t.width(),
        non_negative(x),
    ensures
        t.objective_at(x) >= t.value.value(),
{
    assert forall|j: int| 0 <= j < t.width() implies (#[trigger] t.c[j]).value() >= 0real by {
        assert(t.c[j].well_formed());
        assert(t.c[j].num >= 0);
        lemma_value_sign(t.c[j]);
    }
    lemma_dot_non_negative(t.c, x, t.width() as int);
}

/// The simplex is right: where the solve of a tableau, whose basic columns
/// form an identity and whose right-hand sides are not below zero, ends as
/// optimal, the basic solution at its end solves the tableau that was given,
/// has no value below zero, and gives the objective of that tableau the value
/// at which the solve ended; and at every solution of the tableau that was
/// given without a value below zero the objective is at least that value.
pub proof fn theorem_simplex_optimum(t: TableauView, limit: nat, x: Seq<real>)
    requires
        t.well_formed(),
        t.is_canonical(),
        t.is_feasible(),
        solved(t, limit).0 == Outcome::Optimal,
        x.len() == t.width(),
        non_negative(x),
        t.solved_by(x),
    ensures
        t.solved_by(values(solved(t, limit).1.basic_solution())),
        non_negative(values(solved(t, limit).1.basic_solution())),
        t.objective_at(values(solved(t, limit).1.basic_solution())) == solved(
            t,
            limit,
        ).1.value.value(),
        t.objective_at(x) >= solved(t, limit).1.value.value(),
{
    let m = t.height() as int;
    lemma_priced_out(t, m);
    let p = priced_out(t, m)->Some_0;
    assert(p.is_reduced());
    lemma_run(p, false, limit);
    let last = run(p, false, limit).1;
    lemma_same_solutions_transitive(t, p, last);
    lemma_basic_solution(last);
    let best = values(last.basic_solution());
    assert(best.len() == t.width());
    assert(t.solved_by(best) <==> last.solved_by(best));
    assert(t.solved_by(best));
    assert(t.objective_at(best) == last.objective_at(best));
    assert(t.solved_by(x) <==> last.solved_by(x));
    assert(t.objective_at(x) == last.objective_at(x));
    lemma_optimal_is_least(last, x);
}

/// The basic columns of the tableau stay an identity through the whole solve.
pub proof fn theorem_solve_keeps_identity(t: TableauView, limit: nat)
    requires
        t.well_formed(),
        t.is_canonical(),
    ensures
        solved(t, limit).1.well_formed(),
        solved(t, limit).1.is_canonical(),
        solved(t, limit).1.width() == t.width(),
        solved(t, limit).1.height() == t.height(),
{
    let m = t.height() as int;
    if priced_out(t, m) is Some {
        lemma_priced_out(t, m);
        let p = priced_out(t, m)->Some_0;
        assert(p.is_reduced());
        lemma_run(p, false, limit);
    }
}

} // verus!
