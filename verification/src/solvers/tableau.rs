//! The simplex tableau and the pivot.
//!
//! A tableau holds the rows `a x = b` of a system of equations, the row `c`
//! of the objective and the value `current_value`, so that the objective is
//! `current_value + c x` on every solution of the system. One variable is
//! basic in each row: its column is zero but for a one in that row.
use vstd::prelude::*;
use vstd::string::*;
use crate::fraction::{
    lemma_difference_value, lemma_product_value, lemma_quotient_value, lemma_sum_value, Fraction,
};
use crate::transformers::linear_model::all_well_formed;

verus! {

/// A simplex tableau.
#[derive(Debug)]
pub struct Tableau {
    /// The row of the objective.
    pub c: Vec<Fraction>,
    /// The rows of the constraints.
    pub a: Vec<Vec<Fraction>>,
    /// The right-hand sides of the constraints.
    pub b: Vec<Fraction>,
    /// The column of the basic variable of each row.
    pub in_basis: Vec<usize>,
    /// The value of the objective at the basic solution.
    pub current_value: Fraction,
    /// What is added to the value when it is shown.
    pub value_offset: Fraction,
    /// The names of the variables.
    pub variables: Vec<String>,
}

/// What changes in a tableau from one pivot to the next.
pub struct TableauView {
    pub c: Seq<Fraction>,
    pub a: Seq<Seq<Fraction>>,
    pub b: Seq<Fraction>,
    pub basis: Seq<usize>,
    pub value: Fraction,
}

/// The views of the rows of a table of fractions.
pub open spec fn rows_view(rows: Seq<Vec<Fraction>>) -> Seq<Seq<Fraction>> {
    Seq::new(rows.len(), |i: int| rows[i]@)
}

impl View for Tableau {
    type V = TableauView;

    open spec fn view(&self) -> TableauView {
        TableauView {
            c: self.c@,
            a: rows_view(self.a@),
            b: self.b@,
            basis: self.in_basis@,
            value: self.current_value,
        }
    }
}

/// Zero.
pub open spec fn zero() -> Fraction {
    Fraction { num: 0, den: 1 }
}

/// One.
pub open spec fn one() -> Fraction {
    Fraction { num: 1, den: 1 }
}

impl TableauView {
    /// How many columns the tableau has.
    pub open spec fn width(self) -> nat {
        self.c.len()
    }

    /// How many rows the tableau has.
    pub open spec fn height(self) -> nat {
        self.a.len()
    }

    /// The tableau has one right-hand side and one basic variable for each
    /// row, every row has one entry for each column, every basic variable is
    /// a column, and every number is well formed.
    pub open spec fn well_formed(self) -> bool {
        &&& self.c.len() <= usize::MAX
        &&& self.a.len() <= usize::MAX
        &&& self.b.len() == self.a.len()
        &&& self.basis.len() == self.a.len()
        &&& self.value.well_formed()
        &&& all_well_formed(self.c)
        &&& all_well_formed(self.b)
        &&& forall|i: int|
            0 <= i < self.a.len() ==> (#[trigger] self.a[i]).len() == self.c.len()
                && all_well_formed(self.a[i])
        &&& forall|i: int| 0 <= i < self.basis.len() ==> (#[trigger] self.basis[i]) < self.c.len()
    }

    /// The columns of the basic variables form an identity: the column of
    /// the basic variable of a row is one in that row and zero in every
    /// other.
    pub open spec fn is_canonical(self) -> bool {
        forall|r: int, i: int|
            0 <= r < self.a.len() && 0 <= i < self.a.len() ==> (#[trigger] self.a[i])[(
            #[trigger] self.basis[r]) as int] == if i == r {
                one()
            } else {
                zero()
            }
    }
}

/// An entry of the pivot row after the pivot: one in the pivot column, zero
/// where it was zero, and else the entry over the pivot.
pub open spec fn scaled_entry(x: Fraction, pivot: Fraction, j: int, col: int) -> Option<
    Fraction,
> {
    if j == col {
        Some(one())
    } else if x.num == 0 {
        Some(zero())
    } else {
        x.quotient(pivot)
    }
}

/// An entry of another row after the pivot: zero in the pivot column, the
/// entry itself where the row has a zero in the pivot column or the pivot row
/// has a zero in the column of the entry, and else the entry less `factor`
/// times the entry of the pivot row.
pub open spec fn eliminated_entry(
    x: Fraction,
    factor: Fraction,
    y: Fraction,
    j: int,
    col: int,
) -> Option<Fraction> {
    if j == col {
        Some(zero())
    } else if factor.num == 0 || y.num == 0 {
        Some(x)
    } else {
        match factor.product(y) {
            Some(t) => x.difference(t),
            None => None,
        }
    }
}

/// The pivot row after the pivot; `None` where an entry does not fit.
pub open spec fn scaled_row(row: Seq<Fraction>, pivot: Fraction, col: int) -> Option<
    Seq<Fraction>,
> {
    if forall|j: int| 0 <= j < row.len() ==> (#[trigger] scaled_entry(row[j], pivot, j, col))
        is Some {
        Some(Seq::new(row.len(), |j: int| scaled_entry(row[j], pivot, j, col)->Some_0))
    } else {
        None
    }
}

/// Another row after the pivot; `None` where an entry does not fit.
pub open spec fn eliminated_row(
    row: Seq<Fraction>,
    factor: Fraction,
    pivot_row: Seq<Fraction>,
    col: int,
) -> Option<Seq<Fraction>> {
    if forall|j: int|
        0 <= j < row.len() ==> (#[trigger] eliminated_entry(
            row[j],
            factor,
            pivot_row[j],
            j,
            col,
        )) is Some {
        Some(
            Seq::new(
                row.len(),
                |j: int| eliminated_entry(row[j], factor, pivot_row[j], j, col)->Some_0,
            ),
        )
    } else {
        None
    }
}

/// The value of the objective after the pivot: the value itself where the
/// objective has a zero in the pivot column or the pivot row a zero
/// right-hand side, and else the value plus `cost` times that right-hand
/// side.
pub open spec fn moved_value(value: Fraction, cost: Fraction, level: Fraction) -> Option<Fraction> {
    if cost.num == 0 || level.num == 0 {
        Some(value)
    } else {
        match cost.product(level) {
            Some(t) => value.sum(t),
            None => None,
        }
    }
}

impl TableauView {
    /// The tableau after the pivot on the entry at `row` and `col`: the pivot
    /// row is divided by the pivot, the pivot column is cleared from every
    /// other row and from the objective, and the variable of the column
    /// becomes basic in the row. `None` where a number does not fit.
    pub open spec fn pivoted(self, row: int, column: usize) -> Option<TableauView> {
        let col = column as int;
        let pivot = self.a[row][col];
        match scaled_row(self.a[row], pivot, col) {
            None => None,
            Some(pivot_row) => match scaled_entry(self.b[row], pivot, 0, -1) {
                None => None,
                Some(level) => {
                    if (forall|i: int|
                        0 <= i < self.a.len() && i != row ==> (#[trigger] eliminated_row(
                            self.a[i],
                            self.a[i][col],
                            pivot_row,
                            col,
                        )) is Some) && (forall|i: int|
                        0 <= i < self.a.len() && i != row ==> (#[trigger] eliminated_entry(
                            self.b[i],
                            self.a[i][col],
                            level,
                            0,
                            -1,
                        )) is Some) && eliminated_row(self.c, self.c[col], pivot_row, col) is Some
                        && moved_value(self.value, self.c[col], level) is Some {
                        Some(
                            TableauView {
                                c: eliminated_row(self.c, self.c[col], pivot_row, col)->Some_0,
                                a: Seq::new(
                                    self.a.len(),
                                    |i: int|
                                        if i == row {
                                            pivot_row
                                        } else {
                                            eliminated_row(
                                                self.a[i],
                                                self.a[i][col],
                                                pivot_row,
                                                col,
                                            )->Some_0
                                        },
                                ),
                                b: Seq::new(
                                    self.b.len(),
                                    |i: int|
                                        if i == row {
                                            level
                                        } else {
                                            eliminated_entry(
                                                self.b[i],
                                                self.a[i][col],
                                                level,
                                                0,
                                                -1,
                                            )->Some_0
                                        },
                                ),
                                basis: self.basis.update(row, column),
                                value: moved_value(self.value, self.c[col], level)->Some_0,
                            },
                        )
                    } else {
                        None
                    }
                },
            },
        }
    }
}

/// A pivot on an entry that is not zero keeps a tableau well formed and its
/// basic columns an identity.
pub proof fn lemma_pivot_keeps_canonical(t: TableauView, row: int, column: usize)
    requires
        t.well_formed(),
        t.is_canonical(),
        0 <= row < t.height(),
        column < t.width(),
        t.a[row][column as int].num != 0,
        t.pivoted(row, column) is Some,
    ensures
        t.pivoted(row, column)->Some_0.well_formed(),
        t.pivoted(row, column)->Some_0.is_canonical(),
        t.pivoted(row, column)->Some_0.width() == t.width(),
        t.pivoted(row, column)->Some_0.height() == t.height(),
{
    let col = column as int;
    let p = t.pivoted(row, column)->Some_0;
    let pivot = t.a[row][col];
    let pivot_row = scaled_row(t.a[row], pivot, col)->Some_0;
    let level = scaled_entry(t.b[row], pivot, 0, -1)->Some_0;
    assert(t.a[row].len() == t.c.len());
    // Every number is well formed.
    assert(all_well_formed(pivot_row)) by {
        assert forall|j: int| 0 <= j < pivot_row.len() implies (
        #[trigger] pivot_row[j]).well_formed() by {
            assert(scaled_entry(t.a[row][j], pivot, j, col) is Some);
            assert(t.a[row][j].well_formed());
            lemma_quotient_value(t.a[row][j], pivot);
        }
    }
    assert(level.well_formed()) by {
        assert(t.b[row].well_formed());
        lemma_quotient_value(t.b[row], pivot);
    }
    assert forall|i: int| 0 <= i < p.a.len() implies (#[trigger] p.a[i]).len() == p.c.len()
        && all_well_formed(p.a[i]) by {
        assert(t.a[i].len() == t.c.len());
        if i != row {
            assert(eliminated_row(t.a[i], t.a[i][col], pivot_row, col) is Some);
            assert forall|j: int| 0 <= j < p.a[i].len() implies (
            #[trigger] p.a[i][j]).well_formed() by {
                lemma_eliminated_well_formed(t.a[i][j], t.a[i][col], pivot_row[j], j, col);
                assert(t.a[i][j].well_formed());
                assert(t.a[i][col].well_formed());
                assert(eliminated_entry(t.a[i][j], t.a[i][col], pivot_row[j], j, col) is Some);
            }
        }
    }
    assert(all_well_formed(p.c)) by {
        assert forall|j: int| 0 <= j < p.c.len() implies (#[trigger] p.c[j]).well_formed() by {
            assert(t.c[j].well_formed());
            assert(t.c[col].well_formed());
            assert(eliminated_entry(t.c[j], t.c[col], pivot_row[j], j, col) is Some);
            lemma_eliminated_well_formed(t.c[j], t.c[col], pivot_row[j], j, col);
        }
    }
    assert(all_well_formed(p.b)) by {
        assert forall|i: int| 0 <= i < p.b.len() implies (#[trigger] p.b[i]).well_formed() by {
            if i != row {
                assert(t.b[i].well_formed());
                assert(t.a[i].len() == t.c.len());
                assert(t.a[i][col].well_formed());
                assert(eliminated_entry(t.b[i], t.a[i][col], level, 0, -1) is Some);
                lemma_eliminated_well_formed(t.b[i], t.a[i][col], level, 0, -1);
            }
        }
    }
    assert(p.value.well_formed()) by {
        assert(t.c[col].well_formed());
        if !(t.c[col].num == 0 || level.num == 0) {
            lemma_product_value(t.c[col], level);
            lemma_sum_value(t.value, t.c[col].product(level)->Some_0);
        }
    }
    assert forall|i: int| 0 <= i < p.basis.len() implies (#[trigger] p.basis[i]) < p.c.len() by {
        if i != row {
            assert(t.basis[i] < t.c.len());
        }
    }
    // The basic columns form an identity.
    assert forall|r: int, i: int| 0 <= r < p.a.len() && 0 <= i < p.a.len() implies (
    #[trigger] p.a[i])[(#[trigger] p.basis[r]) as int] == if i == r {
        one()
    } else {
        zero()
    } by {
        assert(t.a[i].len() == t.c.len());
        assert(t.a[row].len() == t.c.len());
        assert(p.basis[r] == if r == row {
            column
        } else {
            t.basis[r]
        });
        if i != row {
            assert(eliminated_row(t.a[i], t.a[i][col], pivot_row, col) is Some);
            assert(p.a[i] == eliminated_row(t.a[i], t.a[i][col], pivot_row, col)->Some_0);
        } else {
            assert(p.a[i] == pivot_row);
        }
        if r == row {
            // The column that enters the basis.
            if i != row {
                assert(p.a[i][col] == eliminated_entry(
                    t.a[i][col],
                    t.a[i][col],
                    pivot_row[col],
                    col,
                    col,
                )->Some_0);
            } else {
                assert(pivot_row[col] == scaled_entry(t.a[row][col], pivot, col, col)->Some_0);
            }
        } else {
            let j = t.basis[r] as int;
            assert(j < t.c.len());
            // The pivot row has a zero in the column of another basic
            // variable, so that column is left as it is.
            assert(t.a[row][j] == zero());
            assert(t.a[i][j] == if i == r {
                one()
            } else {
                zero()
            });
            assert(j != col);
            assert(pivot_row[j] == scaled_entry(t.a[row][j], pivot, j, col)->Some_0);
            assert(pivot_row[j] == zero());
            if i != row {
                assert(p.a[i][j] == eliminated_entry(
                    t.a[i][j],
                    t.a[i][col],
                    pivot_row[j],
                    j,
                    col,
                )->Some_0);
                assert(p.a[i][j] == t.a[i][j]);
            }
        }
    }
}

/// An entry of a row after the pivot is well formed.
pub proof fn lemma_eliminated_well_formed(
    x: Fraction,
    factor: Fraction,
    y: Fraction,
    j: int,
    col: int,
)
    requires
        x.well_formed(),
        factor.well_formed(),
        y.well_formed(),
        eliminated_entry(x, factor, y, j, col) is Some,
    ensures
        eliminated_entry(x, factor, y, j, col)->Some_0.well_formed(),
{
    if j != col && !(factor.num == 0 || y.num == 0) {
        lemma_product_value(factor, y);
        lemma_difference_value(x, factor.product(y)->Some_0);
    }
}

/// The values of a list of fractions.
pub open spec fn values(items: Seq<Fraction>) -> Seq<real> {
    Seq::new(items.len(), |i: int| items[i].value())
}

/// The sum of the first `n` products of a coefficient and the value at its
/// place.
pub open spec fn dot(a: Seq<Fraction>, x: Seq<real>, n: int) -> real
    decreases n,
{
    if n <= 0 {
        0real
    } else {
        dot(a, x, n - 1) + a[n - 1].value() * x[n - 1]
    }
}

/// Every value of the list is at least zero.
pub open spec fn non_negative(x: Seq<real>) -> bool {
    forall|j: int| 0 <= j < x.len() ==> (#[trigger] x[j]) >= 0real
}

impl TableauView {
    /// The values `x` solve every row of the tableau.
    pub open spec fn solved_by(self, x: Seq<real>) -> bool {
        &&& x.len() == self.width()
        &&& forall|i: int|
            0 <= i < self.height() ==> dot(#[trigger] self.a[i], x, self.width() as int)
                == self.b[i].value()
    }

    /// The objective at the values `x`.
    pub open spec fn objective_at(self, x: Seq<real>) -> real {
        self.value.value() + dot(self.c, x, self.width() as int)
    }

    /// The values of the variables at the basic solution, as far as the
    /// first `upto` rows tell: the basic variable of each of them has the
    /// right-hand side of its row, every other variable is zero.
    pub open spec fn basic_values(self, upto: int) -> Seq<Fraction>
        decreases upto,
    {
        if upto <= 0 {
            Seq::new(self.width(), |j: int| zero())
        } else {
            self.basic_values(upto - 1).update(self.basis[upto - 1] as int, self.b[upto - 1])
        }
    }

    /// The basic solution of the tableau.
    pub open spec fn basic_solution(self) -> Seq<Fraction> {
        self.basic_values(self.height() as int)
    }

    /// No right-hand side is below zero.
    pub open spec fn is_feasible(self) -> bool {
        forall|i: int| 0 <= i < self.b.len() ==> (#[trigger] self.b[i]).num >= 0
    }

    /// No entry of the objective is below zero.
    pub open spec fn is_optimal(self) -> bool {
        forall|j: int| 0 <= j < self.c.len() ==> (#[trigger] self.c[j]).num >= 0
    }
}

} // verus!
