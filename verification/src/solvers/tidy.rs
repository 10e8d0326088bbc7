//! Why the artificial variables stay out of the way in the second phase: a
//! tableau in which every artificial variable is either basic in a row
//! that holds nothing else, with the right-hand side zero, or has a column
//! of zeros, stays so from pivot to pivot of the simplex.
use vstd::prelude::*;
use crate::fraction::Fraction;
use crate::solvers::simplex::{
    entering_column, leaving_row, lemma_entering_column, lemma_leaving_row, priced_out, run,
    Outcome,
};
use crate::solvers::tableau::{
    eliminated_entry, eliminated_row, lemma_pivot_keeps_canonical, one, scaled_entry, scaled_row,
    zero, TableauView,
};
use crate::solvers::rays::{has_falling, is_clear, is_falling, is_open};
use crate::solvers::theorems::{
    has_ray, is_ray, lemma_pivot_keeps_reduced, lemma_priced_out, lemma_run,
};
use crate::solvers::two_phase::{
    cleared, driven_out, first_replacement, has_stuck, is_stuck, is_usable, row_driven,
};
use crate::solvers::algebra::{lemma_dot_non_negative, lemma_value_sign};
use crate::solvers::extension::lemma_zero_value;
use crate::solvers::phases::{artificial_costs, cleared_row, lemma_solved_value};
use crate::solvers::simplex::solved;
use crate::solvers::tableau::{dot, values};
use crate::solvers::theorems::lemma_basic_values;
use crate::solvers::simplex::SimplexError;
use crate::math::Comparison;
use crate::fraction::lemma_sum_value;
use crate::solvers::phases::lemma_unbounded_end;
use crate::solvers::two_phase::{
    first_index, first_tableau, phase, second_tableau, start_of, starts, two_phase,
};
use crate::transformers::linear_model::{all_well_formed, LinearConstraint, LinearModel};
use crate::transformers::standardizer::{
    added_columns, lemma_standard_form, normal_comparison, StandardLinearModel,
};
use crate::transformers::standardizer::ColumnKind;

verus! {

/// The variable of the column `k` is basic in some row.
pub open spec fn is_basic(t: TableauView, k: int) -> bool {
    exists|r: int| 0 <= r < t.height() && #[trigger] t.basis[r] == k
}

/// The artificial variables are out of the way: one that is basic stands in
/// a row that holds nothing else and has the right-hand side zero, and the
/// objective has a zero in its column; one that is not basic has a zero in
/// every row and in the objective.
pub open spec fn is_tidy(t: TableauView, columns: Seq<ColumnKind>) -> bool {
    &&& columns.len() == t.width()
    &&& forall|r: int|
        0 <= r < t.height() && columns[(#[trigger] t.basis[r]) as int] is Artificial ==> t.b[r].num
            == 0 && t.c[t.basis[r] as int].num == 0
    &&& forall|r: int, j: int|
        0 <= r < t.height() && 0 <= j < t.width() && columns[t.basis[r] as int] is Artificial && j
            != t.basis[r] ==> (#[trigger] t.a[r][j]).num == 0
    &&& forall|i: int, k: int|
        0 <= i < t.height() && 0 <= k < t.width() && columns[k] is Artificial && !is_basic(t, k)
            ==> (#[trigger] t.a[i][k]).num == 0
    &&& forall|k: int|
        0 <= k < t.width() && columns[k] is Artificial && !is_basic(t, k) ==> (#[trigger] t.c[k]).num
            == 0
}

/// A pivot that takes a variable that is not artificial into the basis, in
/// a row whose basic variable is not artificial, keeps the artificial
/// variables out of the way.
pub proof fn lemma_pivot_keeps_tidy(
    t: TableauView,
    columns: Seq<ColumnKind>,
    row: int,
    column: usize,
)
    requires
        t.well_formed(),
        t.is_canonical(),
        is_tidy(t, columns),
        0 <= row < t.height(),
        column < t.width(),
        t.a[row][column as int].num != 0,
        t.pivoted(row, column) is Some,
        !(columns[column as int] is Artificial),
        !(columns[t.basis[row] as int] is Artificial),
    ensures
        is_tidy(t.pivoted(row, column)->Some_0, columns),
{
    let col = column as int;
    let p = t.pivoted(row, column)->Some_0;
    let pivot = t.a[row][col];
    let pivot_row = scaled_row(t.a[row], pivot, col)->Some_0;
    let level = scaled_entry(t.b[row], pivot, 0, -1)->Some_0;
    lemma_pivot_keeps_canonical(t, row, column);
    assert(t.a[row].len() == t.width());
    assert(p.basis == t.basis.update(row, column));
    // A variable that is basic after the pivot and artificial was basic in
    // the same row before.
    assert forall|k: int| 0 <= k < t.width() && columns[k] is Artificial && !is_basic(
        p,
        k,
    ) implies !is_basic(t, k) by {
        if is_basic(t, k) {
            let r = choose|r: int| 0 <= r < t.height() && #[trigger] t.basis[r] == k;
            assert(r != row);
            assert(p.basis[r] == k);
        }
    }
    // The pivot row has a zero wherever the row had one.
    assert forall|j: int| 0 <= j < t.width() && j != col && t.a[row][j].num == 0 implies (
    #[trigger] pivot_row[j]).num == 0 by {
        assert(pivot_row[j] == scaled_entry(t.a[row][j], pivot, j, col)->Some_0);
    }
    assert forall|r: int|
        0 <= r < p.height() && columns[(#[trigger] p.basis[r]) as int] is Artificial implies p.b[r].num
        == 0 && p.c[p.basis[r] as int].num == 0 by {
        assert(r != row);
        let k = t.basis[r] as int;
        assert(t.basis[r] == p.basis[r]);
        assert(k != col);
        assert(t.a[r].len() == t.width());
        assert(t.a[r][col].num == 0);
        assert(p.b[r] == eliminated_entry(t.b[r], t.a[r][col], level, 0, -1)->Some_0);
        assert(t.a[row][k] == zero());
        assert(pivot_row[k].num == 0);
        assert(p.c[k] == eliminated_entry(t.c[k], t.c[col], pivot_row[k], k, col)->Some_0);
    }
    assert forall|r: int, j: int|
        0 <= r < p.height() && 0 <= j < p.width() && columns[p.basis[r] as int] is Artificial && j
            != p.basis[r] implies (#[trigger] p.a[r][j]).num == 0 by {
        assert(r != row);
        assert(t.basis[r] == p.basis[r]);
        assert(t.a[r].len() == t.width());
        assert(t.basis[r] as int != col);
        assert(t.a[r][col].num == 0);
        assert(t.a[r][j].num == 0);
        assert(p.a[r] == eliminated_row(t.a[r], t.a[r][col], pivot_row, col)->Some_0);
        assert(p.a[r][j] == eliminated_entry(t.a[r][j], t.a[r][col], pivot_row[j], j, col)->Some_0);
    }
    assert forall|i: int, k: int|
        0 <= i < p.height() && 0 <= k < p.width() && columns[k] is Artificial && !is_basic(
            p,
            k,
        ) implies (#[trigger] p.a[i][k]).num == 0 by {
        assert(!is_basic(t, k));
        assert(k != col);
        assert(t.a[i].len() == t.width());
        assert(t.a[i][k].num == 0);
        assert(t.a[row][k].num == 0);
        assert(pivot_row[k].num == 0);
        if i == row {
            assert(p.a[i] == pivot_row);
        } else {
            assert(p.a[i] == eliminated_row(t.a[i], t.a[i][col], pivot_row, col)->Some_0);
            assert(p.a[i][k] == eliminated_entry(
                t.a[i][k],
                t.a[i][col],
                pivot_row[k],
                k,
                col,
            )->Some_0);
        }
    }
    assert forall|k: int|
        0 <= k < p.width() && columns[k] is Artificial && !is_basic(p, k) implies (#[trigger] p.c[k]).num
        == 0 by {
        assert(!is_basic(t, k));
        assert(k != col);
        assert(t.a[row][k].num == 0);
        assert(pivot_row[k].num == 0);
        assert(p.c[k] == eliminated_entry(t.c[k], t.c[col], pivot_row[k], k, col)->Some_0);
    }
}

/// In a tableau in which the artificial variables are out of the way, a
/// column in which the objective is not zero is the column of no artificial
/// variable.
pub proof fn lemma_tidy_cost(t: TableauView, columns: Seq<ColumnKind>, col: int)
    requires
        is_tidy(t, columns),
        0 <= col < t.width(),
        t.c[col].num != 0,
    ensures
        !(columns[col] is Artificial),
{
    if columns[col] is Artificial {
        if is_basic(t, col) {
            let r = choose|r: int| 0 <= r < t.height() && #[trigger] t.basis[r] == col;
            assert(columns[t.basis[r] as int] is Artificial);
        }
    }
}

/// The run of the simplex keeps the artificial variables out of the way.
pub proof fn lemma_run_keeps_tidy(
    t: TableauView,
    columns: Seq<ColumnKind>,
    bland: bool,
    limit: nat,
)
    requires
        t.well_formed(),
        t.is_canonical(),
        t.is_reduced(),
        is_tidy(t, columns),
    ensures
        is_tidy(run(t, bland, limit).1, columns),
    decreases limit,
{
    lemma_entering_column(t.c, bland);
    match entering_column(t.c, bland) {
        None => {},
        Some(col) => {
            lemma_leaving_row(t, col as int, t.height() as int);
            match leaving_row(t, col as int, t.height() as int) {
                Err(_) => {},
                Ok(None) => {},
                Ok(Some(row)) => {
                    if limit > 0 && t.pivoted(row, col) is Some {
                        let p = t.pivoted(row, col)->Some_0;
                        lemma_tidy_cost(t, columns, col as int);
                        assert(t.a[row].len() == t.width());
                        assert(t.basis[row] < t.width());
                        if columns[t.basis[row] as int] is Artificial {
                            assert(t.c[t.basis[row] as int].num == 0);
                            assert(col as int != t.basis[row]);
                            assert(t.a[row][col as int].num == 0);
                        }
                        lemma_pivot_keeps_tidy(t, columns, row, col);
                        lemma_pivot_keeps_canonical(t, row, col);
                        lemma_pivot_keeps_reduced(t, row, col, t.height() as int);
                        lemma_run_keeps_tidy(p, columns, t.b[row].num == 0, (limit - 1) as nat);
                    }
                },
            }
        },
    }
}

/// Pricing out keeps the artificial variables out of the way.
pub proof fn lemma_priced_out_keeps_tidy(t: TableauView, columns: Seq<ColumnKind>, upto: int)
    requires
        t.well_formed(),
        t.is_canonical(),
        is_tidy(t, columns),
        0 <= upto <= t.height(),
        priced_out(t, upto) is Some,
    ensures
        is_tidy(priced_out(t, upto)->Some_0, columns),
    decreases upto,
{
    if upto > 0 {
        lemma_priced_out_keeps_tidy(t, columns, upto - 1);
        lemma_priced_out(t, upto - 1);
        let p = priced_out(t, upto - 1)->Some_0;
        let r = upto - 1;
        let column = p.basis[r];
        if p.c[column as int].num != 0 {
            assert(p.a[r][column as int] == one());
            lemma_tidy_cost(p, columns, column as int);
            lemma_pivot_keeps_tidy(p, columns, r, column);
        }
    }
}

/// Where the artificial variables are out of the way, none of them is
/// basic and not zero.
pub proof fn lemma_tidy_has_no_stuck(t: TableauView, columns: Seq<ColumnKind>)
    requires
        is_tidy(t, columns),
    ensures
        !has_stuck(t, columns),
{
    assert forall|r: int| 0 <= r < t.a.len() implies !#[trigger] is_stuck(t, columns, r) by {
        if columns[t.basis[r] as int] is Artificial {
            assert(t.b[r].num == 0);
        }
    }
}

/// Where the artificial variables are out of the way, a column along which
/// the objective falls without end leaves them at zero.
pub proof fn lemma_tidy_ray_is_falling(t: TableauView, columns: Seq<ColumnKind>)
    requires
        t.well_formed(),
        is_tidy(t, columns),
        has_ray(t),
    ensures
        has_falling(t, columns),
{
    let col = choose|col: int| 0 <= col < t.width() && #[trigger] is_ray(t, col);
    lemma_tidy_cost(t, columns, col);
    assert(is_open(t, col));
    assert forall|r: int|
        0 <= r < t.height() && columns[(#[trigger] t.basis[r]) as int] is Artificial implies t.b[r].num
        == 0 && t.a[r][col].num == 0 by {
        assert(t.c[t.basis[r] as int].num == 0);
        assert(col != t.basis[r]);
        assert(t.a[r][col].num == 0);
    }
    assert(is_clear(t, columns, col));
    assert(is_falling(t, columns, col));
}

/// The right-hand side of every row whose basic variable is artificial is
/// zero.
pub open spec fn is_settled(t: TableauView, columns: Seq<ColumnKind>) -> bool {
    forall|r: int|
        0 <= r < t.height() && columns[(#[trigger] t.basis[r]) as int] is Artificial ==> t.b[r].num
            == 0
}

/// The first `upto` rows whose basic variable is artificial hold nothing
/// for a variable that is not artificial.
pub open spec fn is_driven(t: TableauView, columns: Seq<ColumnKind>, upto: int) -> bool {
    forall|r: int, j: int|
        0 <= r < upto && r < t.height() && 0 <= j < t.width() && columns[t.basis[r] as int]
            is Artificial && !(columns[j] is Artificial) ==> (#[trigger] t.a[r][j]).num == 0
}

/// A row without a column to replace its basic variable holds nothing for a
/// variable that is not artificial.
pub proof fn lemma_no_replacement(row: Seq<Fraction>, columns: Seq<ColumnKind>, from: int, j: int)
    requires
        row.len() == columns.len(),
        0 <= from <= j < row.len(),
        first_replacement(row, columns, from) is None,
        !(columns[j] is Artificial),
    ensures
        row[j].num == 0,
    decreases j - from,
{
    if from < j {
        lemma_no_replacement(row, columns, from + 1, j);
    }
}

/// The column that replaces a basic variable is a column of the row, is no
/// artificial variable, and the row has an entry in it that is not zero.
pub proof fn lemma_replacement(row: Seq<Fraction>, columns: Seq<ColumnKind>, from: int)
    requires
        0 <= from,
    ensures
        first_replacement(row, columns, from) matches Some(k) ==> from <= k < row.len() && k
            < columns.len() && !(columns[k] is Artificial) && row[k].num != 0,
    decreases row.len() - from,
{
    if from < row.len() && from < columns.len() {
        lemma_replacement(row, columns, from + 1);
    }
}

/// Driving the basic variable of a row out of a tableau that the simplex
/// takes, in which every artificial variable that is basic is zero, fails
/// with `Overflow` only, and leaves such a tableau, in which the row holds
/// nothing for a variable that is not artificial where its basic variable
/// is still artificial.
pub proof fn lemma_row_driven(p: TableauView, columns: Seq<ColumnKind>, r: int)
    requires
        is_usable(p),
        p.width() == columns.len(),
        is_settled(p, columns),
        is_driven(p, columns, r),
        0 <= r < p.height(),
    ensures
        match row_driven(p, columns, r, p.height()) {
            Ok(q) => is_usable(q) && q.width() == columns.len() && q.height() == p.height()
                && is_settled(q, columns) && is_driven(q, columns, r + 1),
            Err(e) => e == SimplexError::Overflow,
        },
{
    assert(p.basis[r] < p.width());
    assert(p.a[r].len() == p.width());
    if columns[p.basis[r] as int] is Artificial {
        lemma_replacement(p.a[r], columns, 0);
        match first_replacement(p.a[r], columns, 0) {
            None => {
                assert forall|i: int, j: int|
                    0 <= i < r + 1 && i < p.height() && 0 <= j < p.width() && columns[p.basis[i] as int]
                        is Artificial && !(columns[j] is Artificial) implies (#[trigger] p.a[i][j]).num
                    == 0 by {
                    if i == r {
                        lemma_no_replacement(p.a[r], columns, 0, j);
                    }
                }
            },
            Some(k) => {
                let column = k as usize;
                if p.pivoted(r, column) is Some {
                    let q = p.pivoted(r, column)->Some_0;
                    let pivot = p.a[r][k];
                    let pivot_row = scaled_row(p.a[r], pivot, k)->Some_0;
                    let level = scaled_entry(p.b[r], pivot, 0, -1)->Some_0;
                    lemma_pivot_keeps_canonical(p, r, column);
                    assert(p.b[r].num == 0);
                    assert(level == zero());
                    assert(q.basis == p.basis.update(r, column));
                    assert forall|i: int| 0 <= i < q.b.len() implies (#[trigger] q.b[i]).num
                        >= 0 by {
                        if i != r {
                            assert(q.b[i] == eliminated_entry(
                                p.b[i],
                                p.a[i][k],
                                level,
                                0,
                                -1,
                            )->Some_0);
                            assert(p.b[i].num >= 0);
                        }
                    }
                    assert forall|i: int|
                        0 <= i < q.height() && columns[(#[trigger] q.basis[i]) as int]
                            is Artificial implies q.b[i].num == 0 by {
                        assert(i != r);
                        assert(p.basis[i] == q.basis[i]);
                        assert(q.b[i] == eliminated_entry(p.b[i], p.a[i][k], level, 0, -1)->Some_0);
                    }
                    assert forall|i: int, j: int|
                        0 <= i < r + 1 && i < q.height() && 0 <= j < q.width()
                            && columns[q.basis[i] as int] is Artificial && !(columns[j]
                            is Artificial) implies (#[trigger] q.a[i][j]).num == 0 by {
                        assert(i != r);
                        assert(p.basis[i] == q.basis[i]);
                        assert(p.a[i].len() == p.width());
                        assert(p.a[i][k].num == 0);
                        assert(p.a[i][j].num == 0);
                        assert(q.a[i] == eliminated_row(p.a[i], p.a[i][k], pivot_row, k)->Some_0);
                        assert(q.a[i][j] == eliminated_entry(
                            p.a[i][j],
                            p.a[i][k],
                            pivot_row[j],
                            j,
                            k,
                        )->Some_0);
                    }
                }
            },
        }
    } else {
        assert forall|i: int, j: int|
            0 <= i < r + 1 && i < p.height() && 0 <= j < p.width() && columns[p.basis[i] as int]
                is Artificial && !(columns[j] is Artificial) implies (#[trigger] p.a[i][j]).num
            == 0 by {}
    }
}

/// Driving the artificial variables out of the basis of a tableau that the
/// simplex takes, in which every artificial variable that is basic is zero,
/// fails with `Overflow` only, and leaves such a tableau, in which no row
/// whose basic variable is still artificial holds anything for a variable
/// that is not artificial.
pub proof fn lemma_driven_out(t: TableauView, columns: Seq<ColumnKind>, upto: int)
    requires
        is_usable(t),
        t.width() == columns.len(),
        is_settled(t, columns),
        0 <= upto <= t.height(),
    ensures
        match driven_out(t, columns, upto) {
            Ok(q) => is_usable(q) && q.width() == columns.len() && q.height() == t.height()
                && is_settled(q, columns) && is_driven(q, columns, upto),
            Err(e) => e == SimplexError::Overflow,
        },
    decreases upto,
{
    if upto > 0 {
        lemma_driven_out(t, columns, upto - 1);
        match driven_out(t, columns, upto - 1) {
            Ok(p) => {
                lemma_row_driven(p, columns, upto - 1);
            },
            Err(_) => {},
        }
    }
}

/// The tableau from which the second phase starts is one that the simplex
/// takes, with the artificial variables out of the way: it is made of such
/// a tableau, in which every artificial variable that is basic is zero and
/// stands in a row that holds nothing for a variable that is not
/// artificial, and the objective is zero for the artificial variables.
pub proof fn lemma_cleared_is_tidy(
    p: TableauView,
    columns: Seq<ColumnKind>,
    objective: Seq<Fraction>,
)
    requires
        is_usable(p),
        p.width() == columns.len(),
        is_settled(p, columns),
        is_driven(p, columns, p.height() as int),
        all_well_formed(objective),
        objective.len() == columns.len(),
        forall|k: int| 0 <= k < columns.len() && columns[k] is Artificial ==> (#[trigger] objective[k]).num
            == 0,
    ensures
        is_usable(cleared(p, columns, objective)),
        is_tidy(cleared(p, columns, objective), columns),
        cleared(p, columns, objective).c.len() == columns.len(),
{
    let q = cleared(p, columns, objective);
    assert forall|i: int| 0 <= i < q.a.len() implies (#[trigger] q.a[i]).len() == q.c.len()
        && all_well_formed(q.a[i]) by {
        assert(p.a[i].len() == p.width());
        assert(q.a[i] == cleared_row(p.a[i], columns, p.basis));
        assert forall|k: int| 0 <= k < q.a[i].len() implies (#[trigger] q.a[i][k]).well_formed() by {
            assert(p.a[i][k].well_formed());
        }
    }
    assert(q.well_formed());
    assert forall|r: int, i: int| 0 <= r < q.a.len() && 0 <= i < q.a.len() implies (
    #[trigger] q.a[i])[(#[trigger] q.basis[r]) as int] == if i == r {
        one()
    } else {
        zero()
    } by {
        let k = p.basis[r];
        assert(k < p.width());
        assert(p.a[i].len() == p.width());
        assert(p.basis.contains(k));
        assert(q.a[i] == cleared_row(p.a[i], columns, p.basis));
        assert(q.a[i][k as int] == p.a[i][k as int]);
        assert(p.a[i][p.basis[r] as int] == if i == r {
            one()
        } else {
            zero()
        });
    }
    assert(q.is_canonical());
    assert(q.is_feasible());
    // What is basic in the new tableau is what is basic in the old one.
    assert forall|k: int| 0 <= k < q.width() implies (is_basic(q, k) <==> p.basis.contains(
        k as usize,
    )) by {
        if is_basic(q, k) {
            let r = choose|r: int| 0 <= r < q.height() && #[trigger] q.basis[r] == k;
            assert(p.basis[r] == k as usize);
        }
        if p.basis.contains(k as usize) {
            let r = choose|r: int| 0 <= r < p.basis.len() && p.basis[r] == k as usize;
            assert(q.basis[r] == k);
        }
    }
    assert forall|r: int|
        0 <= r < q.height() && columns[(#[trigger] q.basis[r]) as int] is Artificial implies q.b[r].num
        == 0 && q.c[q.basis[r] as int].num == 0 by {
        assert(p.basis[r] < p.width());
    }
    assert forall|r: int, j: int|
        0 <= r < q.height() && 0 <= j < q.width() && columns[q.basis[r] as int] is Artificial && j
            != q.basis[r] implies (#[trigger] q.a[r][j]).num == 0 by {
        assert(p.a[r].len() == p.width());
        assert(q.a[r] == cleared_row(p.a[r], columns, p.basis));
        if !(columns[j] is Artificial) {
            assert(p.a[r][j].num == 0);
        } else if p.basis.contains(j as usize) {
            let other = choose|i: int| 0 <= i < p.basis.len() && p.basis[i] == j as usize;
            assert(other != r);
            assert(p.a[r][p.basis[other] as int] == zero());
        }
    }
    assert forall|i: int, k: int|
        0 <= i < q.height() && 0 <= k < q.width() && columns[k] is Artificial && !is_basic(
            q,
            k,
        ) implies (#[trigger] q.a[i][k]).num == 0 by {
        assert(p.a[i].len() == p.width());
        assert(q.a[i] == cleared_row(p.a[i], columns, p.basis));
    }
}

/// Where no coefficient and no value is below zero and the sum of the
/// products is zero, every product is zero.
pub proof fn lemma_dot_zero_terms(a: Seq<Fraction>, x: Seq<real>, n: int)
    requires
        0 <= n <= a.len(),
        n <= x.len(),
        forall|j: int| 0 <= j < n ==> (#[trigger] a[j]).value() >= 0real,
        forall|j: int| 0 <= j < n ==> (#[trigger] x[j]) >= 0real,
        dot(a, x, n) == 0real,
    ensures
        forall|j: int| 0 <= j < n ==> (#[trigger] a[j]).value() * x[j] == 0real,
    decreases n,
{
    if n > 0 {
        lemma_dot_non_negative(a, x, n - 1);
        let c = a[n - 1].value();
        let v = x[n - 1];
        assert(c * v >= 0real) by (nonlinear_arith)
            requires
                c >= 0real,
                v >= 0real,
        ;
        lemma_dot_zero_terms(a, x, n - 1);
    }
}

/// The solve of a tableau that the simplex takes, where it ends as optimal,
/// ends at such a tableau of the same width and height.
pub proof fn lemma_optimal_end(t: TableauView, limit: nat)
    requires
        is_usable(t),
        solved(t, limit).0 == Outcome::Optimal,
    ensures
        is_usable(solved(t, limit).1),
        solved(t, limit).1.width() == t.width(),
        solved(t, limit).1.height() == t.height(),
{
    let m = t.height() as int;
    lemma_priced_out(t, m);
    let p = priced_out(t, m)->Some_0;
    assert(p.is_reduced());
    lemma_run(p, false, limit);
}

/// Where the first phase ends with the sum of the artificial variables at
/// zero, every artificial variable that is basic at its end is zero.
pub proof fn lemma_first_phase_settles(t: TableauView, columns: Seq<ColumnKind>, limit: nat)
    requires
        is_usable(t),
        t.width() == columns.len(),
        t.c == artificial_costs(columns),
        t.value == zero(),
        solved(t, limit).0 == Outcome::Optimal,
        solved(t, limit).1.value.num == 0,
    ensures
        is_settled(solved(t, limit).1, columns),
{
    let end = solved(t, limit).1;
    let best = values(end.basic_solution());
    let costs = artificial_costs(columns);
    lemma_optimal_end(t, limit);
    lemma_solved_value(t, limit);
    lemma_zero_value();
    assert(end.value.well_formed());
    lemma_value_sign(end.value);
    assert forall|j: int| 0 <= j < columns.len() implies (#[trigger] costs[j]).value() >= 0real by {}
    lemma_dot_zero_terms(costs, best, columns.len() as int);
    lemma_basic_values(end, end.height() as int);
    assert forall|r: int|
        0 <= r < end.height() && columns[(#[trigger] end.basis[r]) as int] is Artificial implies end.b[r].num
        == 0 by {
        let k = end.basis[r] as int;
        assert(k < end.width());
        assert(costs[k].value() * best[k] == 0real);
        assert(costs[k] == one());
        let w = best[k];
        assert(w == 0real) by (nonlinear_arith)
            requires
                1real * w == 0real,
        ;
        assert(end.basic_solution()[end.basis[r] as int] == end.b[r]);
        assert(end.b[r].well_formed());
        lemma_value_sign(end.b[r]);
    }
}

/// The column `kind` is the slack or the artificial variable of the row
/// `row`.
pub open spec fn is_start_kind(kind: ColumnKind, row: usize) -> bool {
    kind == ColumnKind::Slack(row) || kind == ColumnKind::Artificial(row)
}

/// Where a column at or behind `from` is `kind`, the first such column is
/// found at or before it.
pub proof fn lemma_first_index_found(columns: Seq<ColumnKind>, kind: ColumnKind, from: int, k: int)
    requires
        0 <= from <= k < columns.len(),
        columns[k] == kind,
    ensures
        first_index(columns, kind, from) matches Some(j) && from <= j <= k && columns[j] == kind,
    decreases k - from,
{
    if columns[from] != kind {
        lemma_first_index_found(columns, kind, from + 1, k);
    }
}

/// The first column that is `kind` is such a column.
pub proof fn lemma_first_index_is(columns: Seq<ColumnKind>, kind: ColumnKind, from: int)
    requires
        0 <= from,
    ensures
        first_index(columns, kind, from) matches Some(j) ==> from <= j < columns.len()
            && columns[j] == kind,
    decreases columns.len() - from,
{
    if from < columns.len() && columns[from] != kind {
        lemma_first_index_is(columns, kind, from + 1);
    }
}

/// Every constraint among the first `upto` has a slack or an artificial
/// variable among the columns that they add.
pub proof fn lemma_added_has_start(constraints: Seq<LinearConstraint>, upto: int, i: int)
    requires
        0 <= i < upto <= constraints.len(),
        constraints.len() <= usize::MAX,
    ensures
        exists|k: int|
            0 <= k < added_columns(constraints, upto).len() && is_start_kind(
                #[trigger] added_columns(constraints, upto)[k],
                i as usize,
            ),
    decreases upto,
{
    let columns = added_columns(constraints, upto);
    let before = added_columns(constraints, upto - 1);
    let row = (upto - 1) as usize;
    let fresh = match normal_comparison(constraints[upto - 1]) {
        Comparison::LowerOrEqual => seq![ColumnKind::Slack(row)],
        Comparison::UpperOrEqual => seq![ColumnKind::Surplus(row), ColumnKind::Artificial(row)],
        Comparison::Equal => seq![ColumnKind::Artificial(row)],
    };
    assert(columns == before + fresh);
    if i == upto - 1 {
        let k = before.len() + fresh.len() - 1;
        assert(columns[k] == fresh[fresh.len() - 1]);
        assert(is_start_kind(columns[k], i as usize));
    } else {
        lemma_added_has_start(constraints, upto - 1, i);
        let k = choose|k: int| 0 <= k < before.len() && is_start_kind(#[trigger] before[k], i as usize);
        assert(columns[k] == before[k]);
        assert(is_start_kind(columns[k], i as usize));
    }
}

/// Where each of the first `m` rows has a column to start from, the columns
/// from which they start are those.
pub proof fn lemma_starts_some(columns: Seq<ColumnKind>, m: int)
    requires
        0 <= m,
        columns.len() <= usize::MAX,
        forall|i: int| 0 <= i < m ==> (#[trigger] start_of(columns, i as usize)) is Some,
    ensures
        starts(columns, m) is Some,
        starts(columns, m)->Some_0.len() == m,
        forall|r: int|
            0 <= r < m ==> start_of(columns, r as usize) == Some(
                (#[trigger] starts(columns, m)->Some_0[r]) as int,
            ),
    decreases m,
{
    if m > 0 {
        lemma_starts_some(columns, m - 1);
        let k = start_of(columns, (m - 1) as usize)->Some_0;
        lemma_first_index_is(columns, ColumnKind::Slack((m - 1) as usize), 0);
        lemma_first_index_is(columns, ColumnKind::Artificial((m - 1) as usize), 0);
        assert(0 <= k < columns.len());
        let before = starts(columns, m - 1)->Some_0;
        let now = starts(columns, m)->Some_0;
        assert(now == before.push(k as usize));
        assert forall|r: int| 0 <= r < m implies start_of(columns, r as usize) == Some(
            (#[trigger] now[r]) as int,
        ) by {
            if r < m - 1 {
                assert(now[r] == before[r]);
            }
        }
    }
}

/// The standard form of a model has a tableau for the first phase to start
/// from, and it is one that the simplex takes.
pub proof fn lemma_first_tableau_usable(standard: &StandardLinearModel, model: &LinearModel)
    requires
        model.well_formed(),
        standard.well_formed(),
        standard.is_standard_form_of(model),
    ensures
        first_tableau(standard@) is Some,
        is_usable(first_tableau(standard@)->Some_0),
        first_tableau(standard@)->Some_0.width() == standard.columns.len(),
        standard@.names == standard.columns.len(),
{
    let columns = standard.columns@;
    let n = model.variables.len() as int;
    let m = model.constraints.len() as int;
    let added = added_columns(model.constraints@, m);
    lemma_standard_form(standard, model);
    assert(standard@.rows.len() == m);
    assert forall|i: int| 0 <= i < m implies (#[trigger] start_of(columns, i as usize)) is Some by {
        lemma_added_has_start(model.constraints@, m, i);
        let k = choose|k: int| 0 <= k < added.len() && is_start_kind(#[trigger] added[k], i as usize);
        assert(columns[n + k] == added[k]);
        if added[k] == ColumnKind::Slack(i as usize) {
            lemma_first_index_found(columns, ColumnKind::Slack(i as usize), 0, n + k);
        } else {
            lemma_first_index_found(columns, ColumnKind::Artificial(i as usize), 0, n + k);
        }
    }
    lemma_starts_some(columns, m);
    let t = first_tableau(standard@)->Some_0;
    assert forall|r: int| 0 <= r < m implies (#[trigger] t.basis[r]) < columns.len() && (
    columns[t.basis[r] as int] == ColumnKind::Slack(r as usize) || columns[t.basis[r] as int]
        == ColumnKind::Artificial(r as usize)) by {
        lemma_first_index_is(columns, ColumnKind::Slack(r as usize), 0);
        lemma_first_index_is(columns, ColumnKind::Artificial(r as usize), 0);
        assert(start_of(columns, r as usize) == Some(t.basis[r] as int));
    }
    assert forall|i: int| 0 <= i < t.a.len() implies (#[trigger] t.a[i]).len() == t.c.len()
        && all_well_formed(t.a[i]) by {
        assert(t.a[i] == standard.constraints[i].coefficients@);
    }
    assert forall|i: int| 0 <= i < t.b.len() implies (#[trigger] t.b[i]).well_formed() && t.b[i].num
        >= 0 by {
        assert(t.b[i] == standard.constraints[i].rhs);
    }
    assert(t.well_formed());
    assert forall|r: int, i: int| 0 <= r < t.a.len() && 0 <= i < t.a.len() implies (
    #[trigger] t.a[i])[(#[trigger] t.basis[r]) as int] == if i == r {
        one()
    } else {
        zero()
    } by {
        let k = t.basis[r] as int;
        assert(t.a[i] == standard.constraints[i].coefficients@);
        assert(k >= n) by {
            if k < n {
                assert(columns[k] == ColumnKind::Decision);
            }
        }
        assert(standard.constraints[i].coefficients[k] == t.a[i][k]);
    }
}

/// The solve of a tableau that the simplex takes, in which the artificial
/// variables are out of the way, ends at a tableau in which they are out of
/// the way, unless a number of the pricing out does not fit.
pub proof fn lemma_solved_keeps_tidy(t: TableauView, columns: Seq<ColumnKind>, limit: nat)
    requires
        is_usable(t),
        is_tidy(t, columns),
        solved(t, limit).0 != Outcome::Overflow,
    ensures
        is_tidy(solved(t, limit).1, columns),
{
    let m = t.height() as int;
    lemma_priced_out(t, m);
    lemma_priced_out_keeps_tidy(t, columns, m);
    let p = priced_out(t, m)->Some_0;
    assert(p.is_reduced());
    lemma_run_keeps_tidy(p, columns, false, limit);
}

/// The solve of the standard form of a model in two phases does not end
/// with `InvalidTableau`: the standard form has a tableau to start from,
/// every tableau on the way is one that the simplex takes, and no
/// artificial variable is left in the way at the end.
pub proof fn theorem_two_phase_runs(standard: &StandardLinearModel, model: &LinearModel, limit: nat)
    requires
        model.well_formed(),
        standard.well_formed(),
        standard.is_standard_form_of(model),
    ensures
        two_phase(standard@, limit) != Err::<(Seq<Fraction>, Fraction), SimplexError>(
            SimplexError::InvalidTableau,
        ),
{
    let sv = standard@;
    let columns = sv.columns;
    let n = model.variables.len() as int;
    lemma_first_tableau_usable(standard, model);
    let first = first_tableau(sv)->Some_0;
    lemma_zero_value();
    match phase(first, zero(), limit) {
        Err(_) => {},
        Ok((ended, sum)) => {
            if sum.num == 0 {
                lemma_optimal_end(first, limit);
                assert(ended.value.well_formed());
                lemma_sum_value(ended.value, zero());
                lemma_value_sign(ended.value);
                lemma_value_sign(sum);
                lemma_first_phase_settles(first, columns, limit);
                lemma_driven_out(ended, columns, ended.height() as int);
                match driven_out(ended, columns, ended.a.len() as int) {
                    Err(_) => {},
                    Ok(p) => {
                        assert forall|k: int|
                            0 <= k < columns.len() && columns[k] is Artificial implies (
                        #[trigger] sv.objective[k]).num == 0 by {
                            if k < n {
                                assert(columns[k] == ColumnKind::Decision);
                            }
                        }
                        lemma_cleared_is_tidy(p, columns, sv.objective);
                        let second = cleared(p, columns, sv.objective);
                        assert(second_tableau(ended, zero(), sv.names, sv) == Ok::<
                            TableauView,
                            SimplexError,
                        >(second));
                        let outcome = solved(second, limit).0;
                        let last = solved(second, limit).1;
                        if outcome == Outcome::Unbounded {
                            lemma_unbounded_end(second, limit);
                            lemma_solved_keeps_tidy(second, columns, limit);
                            lemma_tidy_ray_is_falling(last, columns);
                        } else if outcome == Outcome::Optimal {
                            lemma_solved_keeps_tidy(second, columns, limit);
                            lemma_tidy_has_no_stuck(last, columns);
                        }
                    },
                }
            }
        },
    }
}

} // verus!
