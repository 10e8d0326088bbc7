//! The primal simplex on a tableau of exact fractions.
//!
//! The run of the algorithm is a specification function, [`run`], which the
//! executable [`Tableau::solve`] is proved to follow step by step. What the
//! run achieves is stated about that function in `solvers::theorems`.
use vstd::prelude::*;
use vstd::string::*;
use crate::fraction::{lemma_quotient_value, Fraction};
use crate::solvers::tableau::{
    eliminated_entry, eliminated_row, lemma_pivot_keeps_canonical, moved_value, one, scaled_entry,
    scaled_row, zero, Tableau, TableauView,
};
use crate::transformers::linear_model::{all_well_formed, copy_fractions};

verus! {

/// Why the simplex gave no optimum.
#[derive(Clone, Copy, Debug, PartialEq, Eq, Structural)]
pub enum SimplexError {
    /// The objective can be lowered without end.
    Unbounded,
    /// The constraints cannot all be met.
    Infeasible,
    /// The optimum was not reached within the pivots allowed.
    IterationLimitExceeded,
    /// A number of the tableau does not fit into a fraction of 64 bits.
    Overflow,
    /// The tableau is not one that the simplex can start from: a row has no
    /// basic variable, or a right-hand side is below zero.
    InvalidTableau,
}

/// How a run of the simplex ends.
#[derive(Clone, Copy, Debug, PartialEq, Eq, Structural)]
pub enum Outcome {
    Optimal,
    Unbounded,
    IterationLimitExceeded,
    Overflow,
}

/// The first column, from `from` on, whose entry is below zero.
pub open spec fn first_negative(c: Seq<Fraction>, from: int) -> Option<usize>
    decreases c.len() - from,
{
    if from < 0 || from >= c.len() {
        None
    } else if c[from].num < 0 {
        Some(from as usize)
    } else {
        first_negative(c, from + 1)
    }
}

/// Among the first `n` columns, the one whose entry is lowest and below
/// zero; of several such the first.
pub open spec fn most_negative(c: Seq<Fraction>, n: int) -> Option<usize>
    decreases n,
{
    if n <= 0 {
        None
    } else {
        match most_negative(c, n - 1) {
            None => if c[n - 1].num < 0 {
                Some((n - 1) as usize)
            } else {
                None
            },
            Some(best) => if c[n - 1].value() < c[best as int].value() {
                Some((n - 1) as usize)
            } else {
                Some(best)
            },
        }
    }
}

/// The column that enters the basis: the one with the lowest entry of the
/// objective below zero, or, by the rule of Bland, the first with an entry
/// below zero. `None` where no entry is below zero.
pub open spec fn entering_column(c: Seq<Fraction>, bland: bool) -> Option<usize> {
    if bland {
        first_negative(c, 0)
    } else {
        most_negative(c, c.len() as int)
    }
}

/// The ratio of the right-hand side of a row to its entry in the column
/// `col`.
pub open spec fn ratio(t: TableauView, i: int, col: int) -> Option<Fraction> {
    t.b[i].quotient(t.a[i][col])
}

/// Among the first `m` rows, the row that leaves the basis for the column
/// `col`: of the rows with an entry above zero in that column the one with
/// the lowest ratio, and of several such the one whose basic variable has the
/// lowest column. `Ok(None)` where no row has an entry above zero, and an
/// error where a ratio does not fit.
pub open spec fn leaving_row(t: TableauView, col: int, m: int) -> Result<Option<int>, ()>
    decreases m,
{
    if m <= 0 {
        Ok(None)
    } else {
        match leaving_row(t, col, m - 1) {
            Err(_) => Err(()),
            Ok(best) => if t.a[m - 1][col].num > 0 {
                match ratio(t, m - 1, col) {
                    None => Err(()),
                    Some(q) => match best {
                        None => Ok(Some(m - 1)),
                        Some(r) => {
                            let least = ratio(t, r, col)->Some_0;
                            if q.value() < least.value() || (q.value() == least.value()
                                && t.basis[m - 1] < t.basis[r]) {
                                Ok(Some(m - 1))
                            } else {
                                Ok(Some(r))
                            }
                        },
                    },
                }
            } else {
                Ok(best)
            },
        }
    }
}

/// The tableau in which the objective has a zero in the column of the basic
/// variable of each of the first `upto` rows: the rows are taken in turn,
/// and where the objective has an entry in the column of the basic variable
/// of a row, the tableau is pivoted on that row and column.
pub open spec fn priced_out(t: TableauView, upto: int) -> Option<TableauView>
    decreases upto,
{
    if upto <= 0 {
        Some(t)
    } else {
        match priced_out(t, upto - 1) {
            None => None,
            Some(p) => if p.c[p.basis[upto - 1] as int].num != 0 {
                p.pivoted(upto - 1, p.basis[upto - 1])
            } else {
                Some(p)
            },
        }
    }
}

/// The run of the simplex from the tableau `t` with at most `limit` pivots:
/// how it ends, and the tableau at which it ends.
///
/// In each round a column enters the basis and a row leaves it, and the
/// tableau is pivoted on them. The run ends as optimal where no column can
/// enter, as unbounded where no row can leave, and at the pivot that `limit`
/// does not allow. After a pivot that does not lower the objective the next
/// column is chosen by the rule of Bland.
pub open spec fn run(t: TableauView, bland: bool, limit: nat) -> (Outcome, TableauView)
    decreases limit,
{
    match entering_column(t.c, bland) {
        None => (Outcome::Optimal, t),
        Some(col) => match leaving_row(t, col as int, t.height() as int) {
            Err(_) => (Outcome::Overflow, t),
            Ok(None) => (Outcome::Unbounded, t),
            Ok(Some(row)) => if limit == 0 {
                (Outcome::IterationLimitExceeded, t)
            } else {
                match t.pivoted(row, col) {
                    None => (Outcome::Overflow, t),
                    Some(p) => run(p, t.b[row].num == 0, (limit - 1) as nat),
                }
            },
        },
    }
}

/// The whole solve: the objective is priced out, then the simplex runs.
pub open spec fn solved(t: TableauView, limit: nat) -> (Outcome, TableauView) {
    match priced_out(t, t.height() as int) {
        None => (Outcome::Overflow, t),
        Some(p) => run(p, false, limit),
    }
}

/// What a solved tableau gives: the values of the variables at the optimum,
/// the value of the objective there, and the tableau at which the simplex
/// ended.
#[derive(Debug)]
pub struct OptimalTableau {
    pub values: Vec<Fraction>,
    pub optimal_value: Fraction,
    pub tableau: Tableau,
}

impl OptimalTableau {
    pub fn get_variables_values(&self) -> (r: &Vec<Fraction>)
        ensures
            r@ == self.values@,
    {
        &self.values
    }

    pub fn get_optimal_value(&self) -> (r: Fraction)
        ensures
            r == self.optimal_value,
    {
        self.optimal_value
    }

    pub fn get_tableau(&self) -> (r: &Tableau)
        ensures
            *r == self.tableau,
    {
        &self.tableau
    }
}

/// An entry of the pivot row after the pivot.
fn scale(x: &Fraction, pivot: &Fraction, j: usize, col: usize) -> (r: Option<Fraction>)
    requires
        x.well_formed(),
        pivot.well_formed(),
    ensures
        r == scaled_entry(*x, *pivot, j as int, col as int),
{
    if j == col {
        Some(Fraction::one())
    } else if x.num == 0 {
        Some(Fraction::zero())
    } else {
        x.div(pivot)
    }
}

/// An entry of another row after the pivot.
fn eliminate(x: &Fraction, factor: &Fraction, y: &Fraction, j: usize, col: usize) -> (r: Option<
    Fraction,
>)
    requires
        x.well_formed(),
        factor.well_formed(),
        y.well_formed(),
    ensures
        r == eliminated_entry(*x, *factor, *y, j as int, col as int),
{
    if j == col {
        Some(Fraction::zero())
    } else if factor.num == 0 || y.num == 0 {
        Some(*x)
    } else {
        match factor.mul(y) {
            Some(t) => x.sub(&t),
            None => None,
        }
    }
}

/// A row other than the pivot row after the pivot.
fn eliminate_row(row: &Vec<Fraction>, factor: &Fraction, pivot_row: &Vec<Fraction>, col: usize) -> (r:
    Option<Vec<Fraction>>)
    requires
        all_well_formed(row@),
        all_well_formed(pivot_row@),
        factor.well_formed(),
        pivot_row.len() == row.len(),
    ensures
        match r {
            Some(cleared) => eliminated_row(row@, *factor, pivot_row@, col as int) == Some(
                cleared@,
            ),
            None => eliminated_row(row@, *factor, pivot_row@, col as int) is None,
        },
{
    let mut out: Vec<Fraction> = Vec::new();
    let mut j: usize = 0;
    while j < row.len()
        invariant
            j <= row.len(),
            pivot_row.len() == row.len(),
            all_well_formed(row@),
            all_well_formed(pivot_row@),
            factor.well_formed(),
            out.len() == j,
            forall|k: int|
                0 <= k < j ==> (#[trigger] eliminated_entry(
                    row[k],
                    *factor,
                    pivot_row[k],
                    k,
                    col as int,
                )) == Some(out[k]),
        decreases row.len() - j,
    {
        assert(row[j as int].well_formed());
        assert(pivot_row[j as int].well_formed());
        match eliminate(&row[j], factor, &pivot_row[j], j, col) {
            Some(e) => {
                out.push(e);
            },
            None => {
                assert(eliminated_entry(row[j as int], *factor, pivot_row[j as int], j as int, col as int)
                    is None);
                return None;
            },
        }
        j = j + 1;
    }
    proof {
        assert forall|k: int| 0 <= k < row.len() implies (#[trigger] eliminated_entry(
            row[k],
            *factor,
            pivot_row[k],
            k,
            col as int,
        )) is Some by {
            assert(eliminated_entry(row[k], *factor, pivot_row[k], k, col as int) == Some(out[k]));
        }
        assert(out@ =~= eliminated_row(row@, *factor, pivot_row@, col as int)->Some_0);
    }
    Some(out)
}

impl Tableau {
    /// The shape of the tableau is sound: see [`TableauView::well_formed`].
    /// The offset of the value is well formed too, and there is a name for
    /// each column.
    pub open spec fn well_formed(&self) -> bool {
        &&& self@.well_formed()
        &&& self.value_offset.well_formed()
        &&& self.variables.len() == self.c.len()
    }

    /// The tableau with the given parts.
    pub fn new(
        c: Vec<Fraction>,
        a: Vec<Vec<Fraction>>,
        b: Vec<Fraction>,
        in_basis: Vec<usize>,
        current_value: Fraction,
        value_offset: Fraction,
        variables: Vec<String>,
    ) -> (r: Tableau)
        ensures
            r.c == c,
            r.a == a,
            r.b == b,
            r.in_basis == in_basis,
            r.current_value == current_value,
            r.value_offset == value_offset,
            r.variables == variables,
    {
        Tableau { c, a, b, in_basis, current_value, value_offset, variables }
    }

    pub fn get_current_value(&self) -> (r: Fraction)
        ensures
            r == self.current_value,
    {
        self.current_value
    }

    pub fn get_value_offset(&self) -> (r: Fraction)
        ensures
            r == self.value_offset,
    {
        self.value_offset
    }

    pub fn get_variables(&self) -> (r: &Vec<String>)
        ensures
            r@ == self.variables@,
    {
        &self.variables
    }

    pub fn get_basis(&self) -> (r: &Vec<usize>)
        ensures
            r@ == self.in_basis@,
    {
        &self.in_basis
    }

    /// Whether every fraction of the list is well formed.
    pub fn all_valid_fractions(items: &Vec<Fraction>) -> (r: bool)
        ensures
            r == all_well_formed(items@),
    {
        Tableau::all_valid(items)
    }

    /// Whether every fraction of the list is well formed.
    fn all_valid(items: &Vec<Fraction>) -> (r: bool)
        ensures
            r == all_well_formed(items@),
    {
        let mut i: usize = 0;
        while i < items.len()
            invariant
                i <= items.len(),
                forall|k: int| 0 <= k < i ==> (#[trigger] items[k]).well_formed(),
            decreases items.len() - i,
        {
            if !(items[i].den > 0 && items[i].num > i64::MIN) {
                return false;
            }
            i = i + 1;
        }
        true
    }

    /// Whether the tableau is well formed, its basic columns form an
    /// identity, and no right-hand side is below zero: what
    /// [`Tableau::solve`] asks for.
    pub fn is_valid(&self) -> (r: bool)
        ensures
            r == (self.well_formed() && self@.is_canonical() && self@.is_feasible()),
    {
        let n = self.c.len();
        let m = self.a.len();
        if self.b.len() != m || self.in_basis.len() != m || self.variables.len() != n {
            return false;
        }
        if !(self.current_value.den > 0 && self.current_value.num > i64::MIN) {
            return false;
        }
        if !(self.value_offset.den > 0 && self.value_offset.num > i64::MIN) {
            return false;
        }
        if !Tableau::all_valid(&self.c) || !Tableau::all_valid(&self.b) {
            return false;
        }
        let mut i: usize = 0;
        while i < m
            invariant
                i <= m,
                m == self.a.len(),
                n == self.c.len(),
                self.b.len() == m,
                self.in_basis.len() == m,
                forall|k: int|
                    0 <= k < i ==> (#[trigger] self@.a[k]).len() == n && all_well_formed(
                        self@.a[k],
                    ),
                forall|k: int| 0 <= k < i ==> (#[trigger] self.in_basis[k]) < n,
                forall|k: int| 0 <= k < i ==> (#[trigger] self.b[k]).num >= 0,
            decreases m - i,
        {
            assert(self@.a[i as int] == self.a[i as int]@);
            if self.a[i].len() != n || !Tableau::all_valid(&self.a[i]) {
                return false;
            }
            if self.in_basis[i] >= n {
                assert(!(self@.basis[i as int] < self@.c.len()));
                return false;
            }
            if self.b[i].num < 0 {
                return false;
            }
            i = i + 1;
        }
        assert(self.well_formed());
        assert(self@.is_feasible());
        let mut r: usize = 0;
        while r < m
            invariant
                r <= m,
                m == self.a.len(),
                self.well_formed(),
                forall|p: int, q: int|
                    0 <= p < r && 0 <= q < m ==> (#[trigger] self@.a[q])[(
                    #[trigger] self@.basis[p]) as int] == if q == p {
                        one()
                    } else {
                        zero()
                    },
            decreases m - r,
        {
            let col = self.in_basis[r];
            assert(self@.basis[r as int] < self@.c.len());
            let mut i: usize = 0;
            while i < m
                invariant
                    i <= m,
                    r < m,
                    m == self.a.len(),
                    self.well_formed(),
                    col == self.in_basis[r as int],
                    col < self.c.len(),
                    forall|q: int|
                        0 <= q < i ==> (#[trigger] self@.a[q])[col as int] == if q == r {
                            one()
                        } else {
                            zero()
                        },
                decreases m - i,
            {
                assert(self@.a[i as int] == self.a[i as int]@);
                assert(self@.a[i as int].len() == self.c.len());
                let entry = self.a[i][col];
                let expected = if i == r {
                    Fraction::one()
                } else {
                    Fraction::zero()
                };
                if !(entry == expected) {
                    assert(!self@.is_canonical()) by {
                        if self@.is_canonical() {
                            assert(self@.a[i as int][self@.basis[r as int] as int] == if i == r {
                                one()
                            } else {
                                zero()
                            });
                        }
                    }
                    return false;
                }
                i = i + 1;
            }
            r = r + 1;
        }
        true
    }

    /// Pivots the tableau on the entry at `row` and `col`. Where a number of
    /// the pivoted tableau does not fit, the tableau is left as it was.
    pub fn pivot(&mut self, row: usize, col: usize) -> (r: Result<(), SimplexError>)
        requires
            old(self).well_formed(),
            row < old(self)@.height(),
            col < old(self)@.width(),
        ensures
            final(self).value_offset == old(self).value_offset,
            final(self).variables == old(self).variables,
            match r {
                Ok(_) => old(self)@.pivoted(row as int, col) == Some(final(self)@),
                Err(e) => e == SimplexError::Overflow && old(self)@.pivoted(row as int, col)
                    is None && final(self)@ == old(self)@,
            },
    {
        let ghost t = self@;
        let n = self.c.len();
        let m = self.a.len();
        assert(t.a[row as int] == self.a[row as int]@);
        assert(t.a[row as int].len() == n);
        let pivot = self.a[row][col];
        assert(pivot.well_formed());
        // The pivot row.
        let mut pivot_row: Vec<Fraction> = Vec::new();
        let mut j: usize = 0;
        while j < n
            invariant
                j <= n,
                n == self.c.len(),
                self@ == t,
                t == old(self)@,
                self.well_formed(),
                row < self.a.len(),
                col < n,
                self.a[row as int].len() == n,
                pivot == self.a[row as int][col as int],
                pivot == t.a[row as int][col as int],
                pivot.well_formed(),
                pivot_row.len() == j,
                forall|k: int|
                    0 <= k < j ==> (#[trigger] scaled_entry(
                        t.a[row as int][k],
                        pivot,
                        k,
                        col as int,
                    )) == Some(pivot_row[k]),
                all_well_formed(pivot_row@),
            decreases n - j,
        {
            assert(t.a[row as int] == self.a[row as int]@);
            assert(t.a[row as int][j as int].well_formed());
            match scale(&self.a[row][j], &pivot, j, col) {
                Some(e) => {
                    proof {
                        lemma_quotient_value(t.a[row as int][j as int], pivot);
                    }
                    pivot_row.push(e);
                },
                None => {
                    assert(scaled_entry(t.a[row as int][j as int], pivot, j as int, col as int)
                        is None);
                    return Err(SimplexError::Overflow);
                },
            }
            j = j + 1;
        }
        proof {
            assert forall|k: int| 0 <= k < t.a[row as int].len() implies (#[trigger] scaled_entry(
                t.a[row as int][k],
                pivot,
                k,
                col as int,
            )) is Some by {
                assert(scaled_entry(t.a[row as int][k], pivot, k, col as int) == Some(pivot_row[k]));
            }
            assert(pivot_row@ =~= scaled_row(t.a[row as int], pivot, col as int)->Some_0);
        }
        assert(self.b[row as int].well_formed());
        let level = match scale(&self.b[row], &pivot, 0, usize::MAX) {
            Some(l) => l,
            None => {
                assert(scaled_entry(t.b[row as int], pivot, 0, -1) is None);
                return Err(SimplexError::Overflow);
            },
        };
        proof {
            assert(scaled_entry(t.b[row as int], pivot, 0, -1) == Some(level));
            lemma_quotient_value(t.b[row as int], pivot);
        }
        // The other rows and their right-hand sides.
        let mut rows: Vec<Vec<Fraction>> = Vec::new();
        let mut sides: Vec<Fraction> = Vec::new();
        let mut i: usize = 0;
        while i < m
            invariant
                i <= m,
                m == self.a.len(),
                n == self.c.len(),
                self@ == t,
                self.well_formed(),
                row < m,
                col < n,
                pivot_row.len() == n,
                all_well_formed(pivot_row@),
                level.well_formed(),
                rows.len() == i,
                sides.len() == i,
                forall|k: int|
                    0 <= k < i && k != row ==> (#[trigger] eliminated_row(
                        t.a[k],
                        t.a[k][col as int],
                        pivot_row@,
                        col as int,
                    )) == Some(rows[k]@),
                forall|k: int|
                    0 <= k < i && k != row ==> (#[trigger] eliminated_entry(
                        t.b[k],
                        t.a[k][col as int],
                        level,
                        0,
                        -1,
                    )) == Some(sides[k]),
                i > row ==> rows[row as int]@ == pivot_row@ && sides[row as int] == level,
                t == old(self)@,
                pivot == t.a[row as int][col as int],
                scaled_row(t.a[row as int], pivot, col as int) == Some(pivot_row@),
                scaled_entry(t.b[row as int], pivot, 0, -1) == Some(level),
            decreases m - i,
        {
            assert(t.a[i as int] == self.a[i as int]@);
            assert(t.a[i as int].len() == n);
            if i == row {
                rows.push(copy_fractions(&pivot_row));
                sides.push(level);
            } else {
                let factor = self.a[i][col];
                assert(factor.well_formed());
                match eliminate_row(&self.a[i], &factor, &pivot_row, col) {
                    Some(cleared) => {
                        rows.push(cleared);
                    },
                    None => {
                        assert(eliminated_row(t.a[i as int], t.a[i as int][col as int], pivot_row@, col as int)
                            is None);
                        return Err(SimplexError::Overflow);
                    },
                }
                assert(self.b[i as int].well_formed());
                match eliminate(&self.b[i], &factor, &level, 0, usize::MAX) {
                    Some(side) => {
                        sides.push(side);
                    },
                    None => {
                        assert(eliminated_entry(t.b[i as int], t.a[i as int][col as int], level, 0, -1)
                            is None);
                        return Err(SimplexError::Overflow);
                    },
                }
            }
            i = i + 1;
        }
        // The objective.
        let cost = self.c[col];
        assert(cost.well_formed());
        let objective = match eliminate_row(&self.c, &cost, &pivot_row, col) {
            Some(o) => o,
            None => {
                return Err(SimplexError::Overflow);
            },
        };
        let value = if cost.num == 0 || level.num == 0 {
            self.current_value
        } else {
            match cost.mul(&level) {
                Some(t) => match self.current_value.add(&t) {
                    Some(v) => v,
                    None => {
                        return Err(SimplexError::Overflow);
                    },
                },
                None => {
                    return Err(SimplexError::Overflow);
                },
            }
        };
        assert(moved_value(t.value, t.c[col as int], level) == Some(value));
        self.c = objective;
        self.a = rows;
        self.b = sides;
        self.in_basis.set(row, col);
        self.current_value = value;
        proof {
            let p = t.pivoted(row as int, col)->Some_0;
            assert forall|k: int| 0 <= k < t.a.len() && k != row implies (
            #[trigger] eliminated_row(t.a[k], t.a[k][col as int], pivot_row@, col as int))
                is Some by {
                assert(eliminated_row(t.a[k], t.a[k][col as int], pivot_row@, col as int) == Some(
                    rows[k]@,
                ));
            }
            assert forall|k: int| 0 <= k < t.a.len() && k != row implies (
            #[trigger] eliminated_entry(t.b[k], t.a[k][col as int], level, 0, -1)) is Some by {
                assert(eliminated_entry(t.b[k], t.a[k][col as int], level, 0, -1) == Some(
                    sides[k],
                ));
            }
            assert(t.pivoted(row as int, col) is Some);
            assert(self@.a =~= p.a) by {
                assert forall|k: int| 0 <= k < p.a.len() implies self@.a[k] == p.a[k] by {
                    assert(self@.a[k] == rows[k]@);
                    if k != row {
                        assert(eliminated_row(t.a[k], t.a[k][col as int], pivot_row@, col as int)
                            == Some(rows[k]@));
                    }
                }
            }
            assert(self@.b =~= p.b) by {
                assert forall|k: int| 0 <= k < p.b.len() implies self@.b[k] == p.b[k] by {
                    if k != row {
                        assert(eliminated_entry(t.b[k], t.a[k][col as int], level, 0, -1) == Some(
                            sides[k],
                        ));
                    }
                }
            }
            assert(self@.basis =~= p.basis);
        }
        Ok(())
    }
}

/// The row that leaves the basis is a row of the tableau with an entry above
/// zero in the column that enters, and the ratio of every row that was
/// looked at and has such an entry fits.
pub proof fn lemma_leaving_row(t: TableauView, col: int, m: int)
    requires
        0 <= m <= t.height(),
    ensures
        match leaving_row(t, col, m) {
            Ok(Some(r)) => 0 <= r < m && t.a[r][col].num > 0 && ratio(t, r, col) is Some,
            Ok(None) => forall|i: int| 0 <= i < m ==> (#[trigger] t.a[i])[col].num <= 0,
            Err(_) => true,
        },
    decreases m,
{
    if m > 0 {
        lemma_leaving_row(t, col, m - 1);
    }
}

/// The column that enters the basis is a column of the tableau with an
/// entry of the objective below zero.
pub proof fn lemma_entering_column(c: Seq<Fraction>, bland: bool)
    requires
        all_well_formed(c),
        c.len() <= usize::MAX,
    ensures
        match entering_column(c, bland) {
            Some(col) => col < c.len() && c[col as int].num < 0,
            None => forall|j: int| 0 <= j < c.len() ==> (#[trigger] c[j]).num >= 0,
        },
{
    if bland {
        lemma_first_negative(c, 0);
    } else {
        lemma_most_negative(c, c.len() as int);
    }
}

/// What `first_negative` finds.
pub proof fn lemma_first_negative(c: Seq<Fraction>, from: int)
    requires
        0 <= from <= c.len(),
        c.len() <= usize::MAX,
    ensures
        match first_negative(c, from) {
            Some(col) => from <= col < c.len() && c[col as int].num < 0 && forall|j: int|
                from <= j < col ==> (#[trigger] c[j]).num >= 0,
            None => forall|j: int| from <= j < c.len() ==> (#[trigger] c[j]).num >= 0,
        },
    decreases c.len() - from,
{
    if from < c.len() && c[from].num >= 0 {
        lemma_first_negative(c, from + 1);
    }
}

/// What `most_negative` finds.
pub proof fn lemma_most_negative(c: Seq<Fraction>, n: int)
    requires
        0 <= n <= c.len(),
        c.len() <= usize::MAX,
        all_well_formed(c),
    ensures
        match most_negative(c, n) {
            Some(col) => col < n && c[col as int].num < 0 && forall|j: int|
                0 <= j < n ==> c[col as int].value() <= (#[trigger] c[j]).value(),
            None => forall|j: int| 0 <= j < n ==> (#[trigger] c[j]).num >= 0,
        },
    decreases n,
{
    if n > 0 {
        lemma_most_negative(c, n - 1);
        assert(c[n - 1].well_formed());
        crate::solvers::algebra::lemma_value_sign(c[n - 1]);
        match most_negative(c, n - 1) {
            None => {
                assert forall|j: int| 0 <= j < n - 1 && c[n - 1].num < 0 implies c[n - 1].value()
                    <= (#[trigger] c[j]).value() by {
                    assert(c[j].well_formed());
                    crate::solvers::algebra::lemma_value_sign(c[j]);
                }
            },
            Some(best) => {
                assert(c[best as int].well_formed());
                crate::solvers::algebra::lemma_value_sign(c[best as int]);
            },
        }
    }
}

impl Tableau {
    /// The column that enters the basis.
    pub fn find_entering(&self, bland: bool) -> (r: Option<usize>)
        requires
            self.well_formed(),
        ensures
            r == entering_column(self@.c, bland),
    {
        let n = self.c.len();
        if bland {
            let mut j: usize = 0;
            while j < n
                invariant
                    j <= n,
                    bland,
                    n == self.c.len(),
                    first_negative(self@.c, 0) == first_negative(self@.c, j as int),
                decreases n - j,
            {
                if self.c[j].num < 0 {
                    assert(first_negative(self@.c, j as int) == Some(j));
                    return Some(j);
                }
                j = j + 1;
            }
            None
        } else {
            let mut best: Option<usize> = None;
            let mut j: usize = 0;
            while j < n
                invariant
                    j <= n,
                    n == self.c.len(),
                    self.well_formed(),
                    best == most_negative(self@.c, j as int),
                    best is Some ==> best->Some_0 < j,
                decreases n - j,
            {
                assert(self.c[j as int].well_formed());
                match best {
                    None => {
                        if self.c[j].num < 0 {
                            best = Some(j);
                        }
                    },
                    Some(b) => {
                        assert(self.c[b as int].well_formed());
                        if self.c[j].less_than(&self.c[b]) {
                            best = Some(j);
                        }
                    },
                }
                j = j + 1;
            }
            best
        }
    }

    /// The row that leaves the basis for the column `col`.
    pub fn find_leaving(&self, col: usize) -> (r: Result<Option<usize>, SimplexError>)
        requires
            self.well_formed(),
            col < self@.width(),
        ensures
            match r {
                Ok(Some(row)) => leaving_row(self@, col as int, self@.height() as int) == Ok::<
                    Option<int>,
                    (),
                >(Some(row as int)),
                Ok(None) => leaving_row(self@, col as int, self@.height() as int) == Ok::<
                    Option<int>,
                    (),
                >(None),
                Err(e) => e == SimplexError::Overflow && leaving_row(
                    self@,
                    col as int,
                    self@.height() as int,
                ) is Err,
            },
    {
        let ghost t = self@;
        let m = self.a.len();
        let mut best: Option<usize> = None;
        let mut least: Fraction = Fraction::zero();
        let mut i: usize = 0;
        while i < m
            invariant
                i <= m,
                m == self.a.len(),
                self@ == t,
                self.well_formed(),
                col < t.width(),
                least.well_formed(),
                match best {
                    Some(row) => row < i && leaving_row(t, col as int, i as int) == Ok::<
                        Option<int>,
                        (),
                    >(Some(row as int)) && ratio(t, row as int, col as int) == Some(least),
                    None => leaving_row(t, col as int, i as int) == Ok::<Option<int>, ()>(None),
                },
            decreases m - i,
        {
            assert(t.a[i as int] == self.a[i as int]@);
            assert(t.a[i as int].len() == t.width());
            let entry = self.a[i][col];
            assert(entry.well_formed());
            assert(self.b[i as int].well_formed());
            if entry.num > 0 {
                match self.b[i].div(&entry) {
                    None => {
                        proof {
                            assert(leaving_row(t, col as int, i + 1) is Err);
                            lemma_leaving_fails(t, col as int, i + 1, m as int);
                        }
                        return Err(SimplexError::Overflow);
                    },
                    Some(q) => {
                        match best {
                            None => {
                                best = Some(i);
                                least = q;
                            },
                            Some(row) => {
                                if q.less_than(&least) || (q.same_value(&least) && self.in_basis[i]
                                    < self.in_basis[row]) {
                                    best = Some(i);
                                    least = q;
                                }
                            },
                        }
                    },
                }
            }
            i = i + 1;
        }
        Ok(best)
    }

    /// A copy of the tableau.
    pub fn duplicate(&self) -> (r: Tableau)
        ensures
            r@ == self@,
            r.value_offset == self.value_offset,
            r.variables.deep_view() == self.variables.deep_view(),
            r.variables.len() == self.variables.len(),
    {
        let mut rows: Vec<Vec<Fraction>> = Vec::new();
        let mut i: usize = 0;
        while i < self.a.len()
            invariant
                i <= self.a.len(),
                rows.len() == i,
                forall|k: int| 0 <= k < i ==> (#[trigger] rows[k])@ == self.a[k]@,
            decreases self.a.len() - i,
        {
            rows.push(copy_fractions(&self.a[i]));
            i = i + 1;
        }
        let mut basis: Vec<usize> = Vec::new();
        let mut i: usize = 0;
        while i < self.in_basis.len()
            invariant
                i <= self.in_basis.len(),
                basis@ == self.in_basis@.take(i as int),
            decreases self.in_basis.len() - i,
        {
            basis.push(self.in_basis[i]);
            assert(basis@ =~= self.in_basis@.take(i + 1));
            i = i + 1;
        }
        assert(self.in_basis@.take(i as int) =~= self.in_basis@);
        let variables = crate::primitives::primitive::duplicate_strings(&self.variables);
        assert(variables.len() == self.variables.len()) by {
            assert(variables.deep_view().len() == variables.len());
            assert(self.variables.deep_view().len() == self.variables.len());
        }
        let r = Tableau {
            c: copy_fractions(&self.c),
            a: rows,
            b: copy_fractions(&self.b),
            in_basis: basis,
            current_value: self.current_value,
            value_offset: self.value_offset,
            variables,
        };
        assert(r@.a =~= self@.a);
        r
    }

    /// The values of the variables at the basic solution.
    pub fn basic_solution(&self) -> (r: Vec<Fraction>)
        requires
            self.well_formed(),
        ensures
            r@ == self@.basic_solution(),
    {
        let n = self.c.len();
        let m = self.a.len();
        let mut out: Vec<Fraction> = Vec::new();
        let mut j: usize = 0;
        while j < n
            invariant
                j <= n,
                out@ == Seq::new(j as nat, |k: int| zero()),
            decreases n - j,
        {
            out.push(Fraction::zero());
            assert(out@ =~= Seq::new((j + 1) as nat, |k: int| zero()));
            j = j + 1;
        }
        let mut r: usize = 0;
        while r < m
            invariant
                r <= m,
                m == self.a.len(),
                n == self.c.len(),
                self.well_formed(),
                out.len() == n,
                out@ == self@.basic_values(r as int),
            decreases m - r,
        {
            assert(self@.basis[r as int] < n);
            out.set(self.in_basis[r], self.b[r]);
            r = r + 1;
        }
        out
    }

    /// Clears the objective of the basic variables: see [`priced_out`].
    pub fn price_out(&mut self) -> (r: Result<(), SimplexError>)
        requires
            old(self).well_formed(),
            old(self)@.is_canonical(),
        ensures
            final(self).value_offset == old(self).value_offset,
            final(self).variables == old(self).variables,
            match r {
                Ok(_) => priced_out(old(self)@, old(self)@.height() as int) == Some(final(self)@)
                    && final(self).well_formed() && final(self)@.is_canonical(),
                Err(e) => e == SimplexError::Overflow && priced_out(
                    old(self)@,
                    old(self)@.height() as int,
                ) is None,
            },
    {
        let m = self.a.len();
        let mut r: usize = 0;
        while r < m
            invariant
                r <= m,
                m == self.a.len(),
                m == old(self)@.height(),
                self.well_formed(),
                self@.is_canonical(),
                self.value_offset == old(self).value_offset,
                self.variables == old(self).variables,
                priced_out(old(self)@, r as int) == Some(self@),
            decreases m - r,
        {
            let col = self.in_basis[r];
            assert(self@.basis[r as int] < self@.width());
            if self.c[col].num != 0 {
                let ghost before = self@;
                proof {
                    assert(before.a[r as int][before.basis[r as int] as int] == one());
                }
                match self.pivot(r, col) {
                    Ok(_) => {
                        proof {
                            lemma_pivot_keeps_canonical(before, r as int, col);
                        }
                    },
                    Err(e) => {
                        proof {
                            lemma_priced_out_fails(old(self)@, (r + 1) as int, m as int);
                        }
                        return Err(e);
                    },
                }
            }
            r = r + 1;
        }
        Ok(())
    }

    /// Runs the simplex on the tableau with at most `limit` pivots: see
    /// [`solved`]. At the end the tableau is the one that the run ended at.
    /// The result is the optimum where the run ends as optimal and the value
    /// with its offset fits, and else the error that the run ended with.
    pub fn solve(&mut self, limit: usize) -> (r: Result<OptimalTableau, SimplexError>)
        requires
            old(self).well_formed(),
            old(self)@.is_canonical(),
        ensures
            final(self)@ == solved(old(self)@, limit as nat).1,
            final(self).value_offset == old(self).value_offset,
            final(self).variables == old(self).variables,
            match r {
                Ok(optimum) => {
                    &&& solved(old(self)@, limit as nat).0 == Outcome::Optimal
                    &&& optimum.tableau@ == final(self)@
                    &&& optimum.values@ == final(self)@.basic_solution()
                    &&& final(self)@.value.sum(old(self).value_offset) == Some(
                        optimum.optimal_value,
                    )
                },
                Err(e) => match solved(old(self)@, limit as nat).0 {
                    Outcome::Optimal => e == SimplexError::Overflow && final(self)@.value.sum(
                        old(self).value_offset,
                    ) is None,
                    Outcome::Unbounded => e == SimplexError::Unbounded,
                    Outcome::IterationLimitExceeded => e == SimplexError::IterationLimitExceeded,
                    Outcome::Overflow => e == SimplexError::Overflow,
                },
            },
    {
        let ghost start = self@;
        let saved = self.duplicate();
        match self.price_out() {
            Ok(_) => {},
            Err(e) => {
                self.c = saved.c;
                self.a = saved.a;
                self.b = saved.b;
                self.in_basis = saved.in_basis;
                self.current_value = saved.current_value;
                return Err(e);
            },
        }
        let mut remaining: usize = limit;
        let mut bland: bool = false;
        loop
            invariant
                self.well_formed(),
                self@.is_canonical(),
                self.value_offset == old(self).value_offset,
                self.variables == old(self).variables,
                start == old(self)@,
                solved(start, limit as nat) == run(self@, bland, remaining as nat),
            decreases remaining,
        {
            let ghost t = self@;
            proof {
                lemma_entering_column(t.c, bland);
            }
            let col = match self.find_entering(bland) {
                Some(col) => col,
                None => {
                    let value = match self.current_value.add(&self.value_offset) {
                        Some(v) => v,
                        None => {
                            return Err(SimplexError::Overflow);
                        },
                    };
                    return Ok(
                        OptimalTableau {
                            values: self.basic_solution(),
                            optimal_value: value,
                            tableau: self.duplicate(),
                        },
                    );
                },
            };
            proof {
                lemma_leaving_row(t, col as int, t.height() as int);
            }
            let row = match self.find_leaving(col) {
                Ok(Some(row)) => row,
                Ok(None) => {
                    return Err(SimplexError::Unbounded);
                },
                Err(e) => {
                    return Err(e);
                },
            };
            if remaining == 0 {
                return Err(SimplexError::IterationLimitExceeded);
            }
            let degenerate = self.b[row].num == 0;
            match self.pivot(row, col) {
                Ok(_) => {
                    proof {
                        lemma_pivot_keeps_canonical(t, row as int, col);
                    }
                },
                Err(e) => {
                    return Err(e);
                },
            }
            bland = degenerate;
            remaining = remaining - 1;
        }
    }
}

/// Where the search for the leaving row fails among some rows, it fails
/// among more rows.
pub proof fn lemma_leaving_fails(t: TableauView, col: int, upto: int, m: int)
    requires
        0 <= upto <= m,
        leaving_row(t, col, upto) is Err,
    ensures
        leaving_row(t, col, m) is Err,
    decreases m - upto,
{
    if upto < m {
        lemma_leaving_fails(t, col, upto + 1, m);
    }
}

/// Where pricing out fails for some rows, it fails for more rows.
pub proof fn lemma_priced_out_fails(t: TableauView, upto: int, m: int)
    requires
        0 <= upto <= m,
        priced_out(t, upto) is None,
    ensures
        priced_out(t, m) is None,
    decreases m - upto,
{
    if upto < m {
        lemma_priced_out_fails(t, upto + 1, m);
    }
}

} // verus!
