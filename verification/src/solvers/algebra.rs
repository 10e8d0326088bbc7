//! What a pivot means for the real numbers that a tableau stands for.
use vstd::prelude::*;
use crate::fraction::{
    lemma_difference_value, lemma_product_value, lemma_quotient_value, lemma_sum_value, Fraction,
};
use crate::solvers::tableau::{
    dot, eliminated_entry, eliminated_row, moved_value, one, scaled_entry, scaled_row, zero,
    TableauView,
};

verus! {

/// Where every entry of `scaled` is the entry of `row` over `pivot`, the sum
/// of products of `scaled` is that of `row` over `pivot`.
pub proof fn lemma_dot_scaled(
    scaled: Seq<Fraction>,
    row: Seq<Fraction>,
    pivot: real,
    x: Seq<real>,
    n: int,
)
    requires
        pivot != 0real,
        0 <= n <= row.len(),
        n <= scaled.len(),
        n <= x.len(),
        forall|j: int| 0 <= j < n ==> (#[trigger] scaled[j]).value() == row[j].value() / pivot,
    ensures
        dot(scaled, x, n) == dot(row, x, n) / pivot,
    decreases n,
{
    if n > 0 {
        lemma_dot_scaled(scaled, row, pivot, x, n - 1);
        let s = dot(row, x, n - 1);
        let a = row[n - 1].value();
        let v = x[n - 1];
        assert(scaled[n - 1].value() == a / pivot);
        assert(s / pivot + (a / pivot) * v == (s + a * v) / pivot) by (nonlinear_arith)
            requires
                pivot != 0real,
        ;
    } else {
        assert(0real / pivot == 0real) by (nonlinear_arith)
            requires
                pivot != 0real,
        ;
    }
}

/// Where every entry of `cleared` is the entry of `row` less `factor` times
/// the entry of `other`, the sum of products of `cleared` is that of `row`
/// less `factor` times that of `other`.
pub proof fn lemma_dot_eliminated(
    cleared: Seq<Fraction>,
    row: Seq<Fraction>,
    factor: real,
    other: Seq<Fraction>,
    x: Seq<real>,
    n: int,
)
    requires
        0 <= n <= row.len(),
        n <= cleared.len(),
        n <= other.len(),
        n <= x.len(),
        forall|j: int|
            0 <= j < n ==> (#[trigger] cleared[j]).value() == row[j].value() - factor
                * other[j].value(),
    ensures
        dot(cleared, x, n) == dot(row, x, n) - factor * dot(other, x, n),
    decreases n,
{
    if n > 0 {
        lemma_dot_eliminated(cleared, row, factor, other, x, n - 1);
        let s = dot(row, x, n - 1);
        let o = dot(other, x, n - 1);
        let a = row[n - 1].value();
        let y = other[n - 1].value();
        let v = x[n - 1];
        assert(cleared[n - 1].value() == a - factor * y);
        assert((s - factor * o) + (a - factor * y) * v == (s + a * v) - factor * (o + y * v))
            by (nonlinear_arith);
    } else {
        assert(factor * 0real == 0real) by (nonlinear_arith);
    }
}

/// Where no coefficient and no value is below zero, the sum of products is
/// not below zero.
pub proof fn lemma_dot_non_negative(a: Seq<Fraction>, x: Seq<real>, n: int)
    requires
        0 <= n <= a.len(),
        n <= x.len(),
        forall|j: int| 0 <= j < n ==> (#[trigger] a[j]).value() >= 0real,
        forall|j: int| 0 <= j < n ==> (#[trigger] x[j]) >= 0real,
    ensures
        dot(a, x, n) >= 0real,
    decreases n,
{
    if n > 0 {
        lemma_dot_non_negative(a, x, n - 1);
        let c = a[n - 1].value();
        let v = x[n - 1];
        assert(c * v >= 0real) by (nonlinear_arith)
            requires
                c >= 0real,
                v >= 0real,
        ;
    }
}

/// The value of an entry of the pivot row after the pivot is the value of
/// the entry over that of the pivot.
pub proof fn lemma_scaled_entry_value(x: Fraction, pivot: Fraction, j: int, col: int)
    requires
        x.well_formed(),
        pivot.well_formed(),
        pivot.num != 0,
        j == col ==> x == pivot,
        scaled_entry(x, pivot, j, col) is Some,
    ensures
        pivot.value() != 0real,
        scaled_entry(x, pivot, j, col)->Some_0.value() == x.value() / pivot.value(),
{
    let p = pivot.value();
    lemma_value_sign(pivot);
    crate::fraction::lemma_over_one(0);
    crate::fraction::lemma_over_one(1);
    if j == col {
        assert(p / p == 1real) by (nonlinear_arith)
            requires
                p != 0real,
        ;
    } else if x.num == 0 {
        lemma_value_sign(x);
        assert(0real / p == 0real) by (nonlinear_arith)
            requires
                p != 0real,
        ;
    } else {
        lemma_quotient_value(x, pivot);
    }
}

/// The value of a fraction is zero exactly when its numerator is, and below
/// zero exactly when its numerator is.
pub proof fn lemma_value_sign(x: Fraction)
    requires
        x.well_formed(),
    ensures
        (x.value() == 0real) == (x.num == 0),
        (x.value() < 0real) == (x.num < 0),
        (x.value() > 0real) == (x.num > 0),
{
    let n = x.num as real;
    let d = x.den as real;
    assert((n / d == 0real) == (n == 0real) && (n / d < 0real) == (n < 0real) && (n / d > 0real)
        == (n > 0real)) by (nonlinear_arith)
        requires
            d > 0real,
    ;
}

/// The value of an entry of another row after the pivot is the value of the
/// entry less that of `factor` times that of the entry of the pivot row.
pub proof fn lemma_eliminated_entry_value(
    x: Fraction,
    factor: Fraction,
    y: Fraction,
    j: int,
    col: int,
)
    requires
        x.well_formed(),
        factor.well_formed(),
        y.well_formed(),
        j == col ==> x == factor && y == one(),
        eliminated_entry(x, factor, y, j, col) is Some,
    ensures
        eliminated_entry(x, factor, y, j, col)->Some_0.value() == x.value() - factor.value()
            * y.value(),
{
    let f = factor.value();
    let v = y.value();
    crate::fraction::lemma_over_one(0);
    crate::fraction::lemma_over_one(1);
    if j == col {
        assert(f - f * 1real == 0real) by (nonlinear_arith);
    } else if factor.num == 0 {
        lemma_value_sign(factor);
        assert(0real * v == 0real) by (nonlinear_arith);
    } else if y.num == 0 {
        lemma_value_sign(y);
        assert(f * 0real == 0real) by (nonlinear_arith);
    } else {
        lemma_product_value(factor, y);
        lemma_difference_value(x, factor.product(y)->Some_0);
    }
}

/// The pivot row of a pivot on an entry that is not zero: every entry has the
/// value of the entry before over that of the pivot, and so has the
/// right-hand side.
pub proof fn lemma_pivot_row_values(t: TableauView, row: int, column: usize)
    requires
        t.well_formed(),
        0 <= row < t.height(),
        column < t.width(),
        t.a[row][column as int].num != 0,
        t.pivoted(row, column) is Some,
    ensures
        t.a[row][column as int].value() != 0real,
        t.pivoted(row, column)->Some_0.a[row].len() == t.width(),
        t.pivoted(row, column)->Some_0.a[row][column as int] == one(),
        crate::transformers::linear_model::all_well_formed(t.pivoted(row, column)->Some_0.a[row]),
        t.pivoted(row, column)->Some_0.b[row].well_formed(),
        forall|j: int|
            0 <= j < t.width() ==> (#[trigger] t.pivoted(row, column)->Some_0.a[row][j]).value()
                == t.a[row][j].value() / t.a[row][column as int].value(),
        t.pivoted(row, column)->Some_0.b[row].value() == t.b[row].value() / t.a[row][column as int].value(),
{
    let col = column as int;
    let p = t.pivoted(row, column)->Some_0;
    let pivot = t.a[row][col];
    let pivot_row = scaled_row(t.a[row], pivot, col)->Some_0;
    let level = scaled_entry(t.b[row], pivot, 0, -1)->Some_0;
    assert(t.a[row].len() == t.width());
    assert(pivot.well_formed());
    lemma_value_sign(pivot);
    assert(p.a[row] == pivot_row);
    assert(p.b[row] == level);
    assert forall|j: int| 0 <= j < t.width() implies (#[trigger] pivot_row[j]).value()
        == t.a[row][j].value() / pivot.value() && pivot_row[j].well_formed() by {
        assert(scaled_entry(t.a[row][j], pivot, j, col) is Some);
        assert(t.a[row][j].well_formed());
        lemma_scaled_entry_value(t.a[row][j], pivot, j, col);
        lemma_quotient_value(t.a[row][j], pivot);
    }
    assert(pivot_row[col] == scaled_entry(t.a[row][col], pivot, col, col)->Some_0);
    assert(t.b[row].well_formed());
    lemma_scaled_entry_value(t.b[row], pivot, 0, -1);
    lemma_quotient_value(t.b[row], pivot);
}

/// Another row of a pivot on an entry that is not zero: every entry has the
/// value of the entry before less that of the entry of the row in the pivot
/// column times that of the entry of the pivot row, and so has the right-hand
/// side.
pub proof fn lemma_other_row_values(t: TableauView, row: int, column: usize, i: int)
    requires
        t.well_formed(),
        0 <= row < t.height(),
        0 <= i < t.height(),
        i != row,
        column < t.width(),
        t.a[row][column as int].num != 0,
        t.pivoted(row, column) is Some,
    ensures
        t.pivoted(row, column)->Some_0.a[i].len() == t.width(),
        forall|j: int|
            0 <= j < t.width() ==> (#[trigger] t.pivoted(row, column)->Some_0.a[i][j]).value()
                == t.a[i][j].value() - t.a[i][column as int].value() * t.pivoted(
                row,
                column,
            )->Some_0.a[row][j].value(),
        t.pivoted(row, column)->Some_0.b[i].value() == t.b[i].value() - t.a[i][column as int].value()
            * t.pivoted(row, column)->Some_0.b[row].value(),
{
    let col = column as int;
    let p = t.pivoted(row, column)->Some_0;
    lemma_pivot_row_values(t, row, column);
    let pivot_row = p.a[row];
    let level = p.b[row];
    assert(pivot_row == scaled_row(t.a[row], t.a[row][col], col)->Some_0);
    assert(level == scaled_entry(t.b[row], t.a[row][col], 0, -1)->Some_0);
    assert(t.a[i].len() == t.width());
    let f = t.a[i][col];
    assert(f.well_formed());
    assert(eliminated_row(t.a[i], f, pivot_row, col) is Some);
    let cleared = eliminated_row(t.a[i], f, pivot_row, col)->Some_0;
    assert(p.a[i] == cleared);
    assert forall|j: int| 0 <= j < t.width() implies (#[trigger] cleared[j]).value()
        == t.a[i][j].value() - f.value() * pivot_row[j].value() by {
        assert(eliminated_entry(t.a[i][j], f, pivot_row[j], j, col) is Some);
        assert(t.a[i][j].well_formed());
        assert(pivot_row[j].well_formed());
        lemma_eliminated_entry_value(t.a[i][j], f, pivot_row[j], j, col);
    }
    assert(eliminated_entry(t.b[i], f, level, 0, -1) is Some);
    assert(p.b[i] == eliminated_entry(t.b[i], f, level, 0, -1)->Some_0);
    assert(t.b[i].well_formed());
    lemma_eliminated_entry_value(t.b[i], f, level, 0, -1);
}

/// The objective of a pivot on an entry that is not zero: every entry has
/// the value of the entry before less that of the entry of the objective in
/// the pivot column times that of the entry of the pivot row, and the value
/// of the objective grows by that entry times the new right-hand side of the
/// pivot row.
pub proof fn lemma_objective_values(t: TableauView, row: int, column: usize)
    requires
        t.well_formed(),
        0 <= row < t.height(),
        column < t.width(),
        t.a[row][column as int].num != 0,
        t.pivoted(row, column) is Some,
    ensures
        t.pivoted(row, column)->Some_0.c.len() == t.width(),
        forall|j: int|
            0 <= j < t.width() ==> (#[trigger] t.pivoted(row, column)->Some_0.c[j]).value()
                == t.c[j].value() - t.c[column as int].value() * t.pivoted(
                row,
                column,
            )->Some_0.a[row][j].value(),
        t.pivoted(row, column)->Some_0.value.value() == t.value.value() + t.c[column as int].value()
            * t.pivoted(row, column)->Some_0.b[row].value(),
{
    let col = column as int;
    let p = t.pivoted(row, column)->Some_0;
    lemma_pivot_row_values(t, row, column);
    let pivot_row = p.a[row];
    let level = p.b[row];
    assert(pivot_row == scaled_row(t.a[row], t.a[row][col], col)->Some_0);
    assert(level == scaled_entry(t.b[row], t.a[row][col], 0, -1)->Some_0);
    let cost = t.c[col];
    assert(cost.well_formed());
    let cleared = eliminated_row(t.c, cost, pivot_row, col)->Some_0;
    assert(p.c == cleared);
    assert forall|j: int| 0 <= j < t.width() implies (#[trigger] cleared[j]).value()
        == t.c[j].value() - cost.value() * pivot_row[j].value() by {
        assert(eliminated_entry(t.c[j], cost, pivot_row[j], j, col) is Some);
        assert(t.c[j].well_formed());
        assert(pivot_row[j].well_formed());
        lemma_eliminated_entry_value(t.c[j], cost, pivot_row[j], j, col);
    }
    lemma_value_sign(cost);
    lemma_value_sign(level);
    let cv = cost.value();
    let lv = level.value();
    assert(p.value == moved_value(t.value, cost, level)->Some_0);
    if cost.num == 0 {
        assert(0real * lv == 0real) by (nonlinear_arith);
    } else if level.num == 0 {
        assert(cv * 0real == 0real) by (nonlinear_arith);
    } else {
        lemma_product_value(cost, level);
        lemma_sum_value(t.value, cost.product(level)->Some_0);
    }
}

/// The sums of products of the rows of a tableau after a pivot, told by
/// those before it.
pub proof fn lemma_pivot_dots(t: TableauView, row: int, column: usize, x: Seq<real>)
    requires
        t.well_formed(),
        0 <= row < t.height(),
        column < t.width(),
        t.a[row][column as int].num != 0,
        t.pivoted(row, column) is Some,
        x.len() == t.width(),
    ensures
        t.a[row][column as int].value() != 0real,
        dot(t.pivoted(row, column)->Some_0.a[row], x, t.width() as int) == dot(
            t.a[row],
            x,
            t.width() as int,
        ) / t.a[row][column as int].value(),
        t.pivoted(row, column)->Some_0.b[row].value() == t.b[row].value() / t.a[row][column as int].value(),
        forall|i: int|
            0 <= i < t.height() && i != row ==> dot(
                #[trigger] t.pivoted(row, column)->Some_0.a[i],
                x,
                t.width() as int,
            ) == dot(t.a[i], x, t.width() as int) - t.a[i][column as int].value() * dot(
                t.pivoted(row, column)->Some_0.a[row],
                x,
                t.width() as int,
            ),
        forall|i: int|
            0 <= i < t.height() && i != row ==> (#[trigger] t.pivoted(row, column)->Some_0.b[i]).value()
                == t.b[i].value() - t.a[i][column as int].value() * t.pivoted(
                row,
                column,
            )->Some_0.b[row].value(),
        dot(t.pivoted(row, column)->Some_0.c, x, t.width() as int) == dot(
            t.c,
            x,
            t.width() as int,
        ) - t.c[column as int].value() * dot(
            t.pivoted(row, column)->Some_0.a[row],
            x,
            t.width() as int,
        ),
        t.pivoted(row, column)->Some_0.value.value() == t.value.value() + t.c[column as int].value()
            * t.pivoted(row, column)->Some_0.b[row].value(),
{
    let n = t.width() as int;
    let p = t.pivoted(row, column)->Some_0;
    lemma_pivot_row_values(t, row, column);
    assert(t.a[row].len() == n);
    lemma_dot_scaled(p.a[row], t.a[row], t.a[row][column as int].value(), x, n);
    assert forall|i: int| 0 <= i < t.height() && i != row implies dot(#[trigger] p.a[i], x, n)
        == dot(t.a[i], x, n) - t.a[i][column as int].value() * dot(p.a[row], x, n) && p.b[i].value()
        == t.b[i].value() - t.a[i][column as int].value() * p.b[row].value() by {
        lemma_other_row_values(t, row, column, i);
        assert(t.a[i].len() == n);
        lemma_dot_eliminated(p.a[i], t.a[i], t.a[i][column as int].value(), p.a[row], x, n);
    }
    assert forall|i: int| 0 <= i < t.height() && i != row implies (#[trigger] p.b[i]).value()
        == t.b[i].value() - t.a[i][column as int].value() * p.b[row].value() by {
        lemma_other_row_values(t, row, column, i);
    }
    lemma_objective_values(t, row, column);
    lemma_dot_eliminated(p.c, t.c, t.c[column as int].value(), p.a[row], x, n);
}

/// A pivot on an entry that is not zero changes neither the solutions of a
/// tableau nor the objective at any of them.
pub proof fn lemma_pivot_keeps_solutions(t: TableauView, row: int, column: usize, x: Seq<real>)
    requires
        t.well_formed(),
        0 <= row < t.height(),
        column < t.width(),
        t.a[row][column as int].num != 0,
        t.pivoted(row, column) is Some,
        x.len() == t.width(),
    ensures
        t.solved_by(x) <==> t.pivoted(row, column)->Some_0.solved_by(x),
        t.solved_by(x) ==> t.pivoted(row, column)->Some_0.objective_at(x) == t.objective_at(x),
{
    let n = t.width() as int;
    let p = t.pivoted(row, column)->Some_0;
    lemma_pivot_dots(t, row, column, x);
    let pv = t.a[row][column as int].value();
    let old_dot = dot(t.a[row], x, n);
    let new_dot = dot(p.a[row], x, n);
    let old_side = t.b[row].value();
    let new_side = p.b[row].value();
    assert((old_dot == old_side) == (new_dot == new_side)) by (nonlinear_arith)
        requires
            pv != 0real,
            new_dot == old_dot / pv,
            new_side == old_side / pv,
    ;
    assert(p.height() == t.height());
    assert(p.width() == t.width());
    if t.solved_by(x) {
        assert(dot(t.a[row], x, n) == t.b[row].value());
        assert forall|i: int| 0 <= i < p.height() implies dot(#[trigger] p.a[i], x, n)
            == p.b[i].value() by {
            if i != row {
                assert(dot(t.a[i], x, n) == t.b[i].value());
            }
        }
    }
    if p.solved_by(x) {
        assert(dot(p.a[row], x, n) == p.b[row].value());
        assert forall|i: int| 0 <= i < t.height() implies dot(#[trigger] t.a[i], x, n)
            == t.b[i].value() by {
            if i != row {
                assert(dot(p.a[i], x, n) == p.b[i].value());
            }
        }
    }
}

} // verus!
