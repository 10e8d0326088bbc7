//! What solving a model in standard form in two phases gives, step by
//! step: the tableau that the first phase starts from, the tableau that the
//! second phase starts from, and how the whole solve ends.
use vstd::prelude::*;
use crate::fraction::Fraction;
use crate::solvers::phases::{artificial_costs, cleared_row};
use crate::solvers::rays::has_falling;
use crate::solvers::simplex::{solved, Outcome, SimplexError};
use crate::solvers::tableau::{zero, TableauView};
use crate::transformers::standardizer::{ColumnKind, StandardView};

verus! {

/// The first column, from `from` on, that is `kind`.
pub open spec fn first_index(columns: Seq<ColumnKind>, kind: ColumnKind, from: int) -> Option<int>
    decreases columns.len() - from,
{
    if from < 0 || from >= columns.len() {
        None
    } else if columns[from] == kind {
        Some(from)
    } else {
        first_index(columns, kind, from + 1)
    }
}

/// The column from which the row `row` starts in the basis: the first
/// column that is its slack, or, where it has no slack, the first that is
/// its artificial variable.
pub open spec fn start_of(columns: Seq<ColumnKind>, row: usize) -> Option<int> {
    match first_index(columns, ColumnKind::Slack(row), 0) {
        Some(k) => Some(k),
        None => first_index(columns, ColumnKind::Artificial(row), 0),
    }
}

/// The columns from which the first `m` rows start; `None` where one of them
/// has neither a slack nor an artificial variable.
pub open spec fn starts(columns: Seq<ColumnKind>, m: int) -> Option<Seq<usize>>
    decreases m,
{
    if m <= 0 {
        Some(Seq::<usize>::empty())
    } else {
        match starts(columns, m - 1) {
            None => None,
            Some(basis) => match start_of(columns, (m - 1) as usize) {
                None => None,
                Some(k) => Some(basis.push(k as usize)),
            },
        }
    }
}

/// The tableau from which the first phase starts: the rows of the model,
/// the slack or artificial variable of each row in the basis, and the sum of
/// the artificial variables as the objective. `None` where a row has neither
/// a slack nor an artificial variable.
pub open spec fn first_tableau(standard: StandardView) -> Option<TableauView> {
    match starts(standard.columns, standard.rows.len() as int) {
        None => None,
        Some(basis) => Some(
            TableauView {
                c: artificial_costs(standard.columns),
                a: standard.rows,
                b: standard.sides,
                basis,
                value: zero(),
            },
        ),
    }
}

/// The tableau is what the simplex asks for: it is well formed, its basic
/// columns form an identity, and no right-hand side is below zero.
pub open spec fn is_usable(t: TableauView) -> bool {
    t.well_formed() && t.is_canonical() && t.is_feasible()
}

/// The first column of the row, from `from` on, that is no artificial
/// variable and has an entry that is not zero.
pub open spec fn first_replacement(row: Seq<Fraction>, columns: Seq<ColumnKind>, from: int)
    -> Option<int>
    decreases row.len() - from,
{
    if from < 0 || from >= row.len() || from >= columns.len() {
        None
    } else if !(columns[from] is Artificial) && row[from].num != 0 {
        Some(from)
    } else {
        first_replacement(row, columns, from + 1)
    }
}

/// The tableau `p`, of `height` rows, once the basic variable of its row `r`
/// is driven out of the basis where it is artificial: where the row has an
/// entry for another variable, the tableau is pivoted on the first such
/// entry. `Overflow` where a number of the pivot does not fit, and
/// `InvalidTableau` where the pivot leaves a tableau that the simplex does
/// not take.
pub open spec fn row_driven(p: TableauView, columns: Seq<ColumnKind>, r: int, height: nat) -> Result<
    TableauView,
    SimplexError,
> {
    if columns[p.basis[r] as int] is Artificial {
        match first_replacement(p.a[r], columns, 0) {
            None => Ok(p),
            Some(col) => match p.pivoted(r, col as usize) {
                None => Err(SimplexError::Overflow),
                Some(q) => if is_usable(q) && q.c.len() == columns.len() && q.a.len() == height {
                    Ok(q)
                } else {
                    Err(SimplexError::InvalidTableau)
                },
            },
        }
    } else {
        Ok(p)
    }
}

/// The tableau `t` once the artificial variables that are basic in its
/// first `upto` rows are driven out of the basis, the rows taken in turn:
/// see [`row_driven`].
pub open spec fn driven_out(t: TableauView, columns: Seq<ColumnKind>, upto: int) -> Result<
    TableauView,
    SimplexError,
>
    decreases upto,
{
    if upto <= 0 {
        Ok(t)
    } else {
        match driven_out(t, columns, upto - 1) {
            Err(e) => Err(e),
            Ok(p) => row_driven(p, columns, upto - 1, t.a.len()),
        }
    }
}

/// An error on the way of driving the artificial variables out stays the
/// error of the whole.
pub proof fn lemma_driven_out_fails(t: TableauView, columns: Seq<ColumnKind>, upto: int, m: int)
    requires
        0 <= upto <= m,
        driven_out(t, columns, upto) is Err,
    ensures
        driven_out(t, columns, m) == driven_out(t, columns, upto),
    decreases m - upto,
{
    if upto < m {
        lemma_driven_out_fails(t, columns, upto, m - 1);
    }
}

/// The tableau `t` with the objective `objective`, the value zero, and the
/// columns of the artificial variables that are not basic cleared.
pub open spec fn cleared(t: TableauView, columns: Seq<ColumnKind>, objective: Seq<Fraction>)
    -> TableauView {
    TableauView {
        c: objective,
        a: Seq::new(t.a.len(), |i: int| cleared_row(t.a[i], columns, t.basis)),
        b: t.b,
        basis: t.basis,
        value: zero(),
    }
}

/// The tableau from which the second phase starts, made of the tableau
/// `first`, whose value is shown with the offset `offset` and which has
/// `names` names of variables: the artificial variables are driven out of
/// the basis, the columns of those that are not basic are cleared, and the
/// objective is that of the model. `InvalidTableau` where `first`, or what
/// is made of it, is not what the simplex asks for.
pub open spec fn second_tableau(
    first: TableauView,
    offset: Fraction,
    names: nat,
    standard: StandardView,
) -> Result<TableauView, SimplexError> {
    if !(is_usable(first) && offset.well_formed() && names == first.c.len() && first.c.len()
        == standard.columns.len()) {
        Err(SimplexError::InvalidTableau)
    } else {
        match driven_out(first, standard.columns, first.a.len() as int) {
            Err(e) => Err(e),
            Ok(p) => {
                let second = cleared(p, standard.columns, standard.objective);
                if is_usable(second) && standard.offset.well_formed() && second.c.len()
                    == standard.columns.len() {
                    Ok(second)
                } else {
                    Err(SimplexError::InvalidTableau)
                }
            },
        }
    }
}

/// Driving the artificial variables out fails with `Overflow` or with
/// `InvalidTableau` only.
pub proof fn lemma_driven_out_error(t: TableauView, columns: Seq<ColumnKind>, upto: int)
    ensures
        driven_out(t, columns, upto) matches Err(e) ==> e == SimplexError::Overflow || e
            == SimplexError::InvalidTableau,
    decreases upto,
{
    if upto > 0 {
        lemma_driven_out_error(t, columns, upto - 1);
    }
}

/// The tableau of the second phase is not had with `Overflow` or with
/// `InvalidTableau` only.
pub proof fn lemma_second_tableau_error(
    first: TableauView,
    offset: Fraction,
    names: nat,
    standard: StandardView,
)
    ensures
        second_tableau(first, offset, names, standard) matches Err(e) ==> e
            == SimplexError::Overflow || e == SimplexError::InvalidTableau,
{
    lemma_driven_out_error(first, standard.columns, first.a.len() as int);
}

/// The error with which the simplex ends a solve that does not end with an
/// optimum: a solve that ends as optimal fails only where its value does
/// not fit.
pub open spec fn simplex_error(outcome: Outcome) -> SimplexError {
    match outcome {
        Outcome::Optimal => SimplexError::Overflow,
        Outcome::Unbounded => SimplexError::Unbounded,
        Outcome::IterationLimitExceeded => SimplexError::IterationLimitExceeded,
        Outcome::Overflow => SimplexError::Overflow,
    }
}

/// What the solve of the tableau `t`, whose value is shown with the offset
/// `offset`, gives: the tableau at which it ends with the value of the
/// objective there, or the error with which it ends.
pub open spec fn phase(t: TableauView, offset: Fraction, limit: nat) -> Result<
    (TableauView, Fraction),
    SimplexError,
> {
    let end = solved(t, limit);
    if end.0 == Outcome::Optimal {
        match end.1.value.sum(offset) {
            Some(value) => Ok((end.1, value)),
            None => Err(SimplexError::Overflow),
        }
    } else {
        Err(simplex_error(end.0))
    }
}

/// The error of the second phase for the error `e` of its solve, which
/// ended at the tableau `last`: `Unbounded` stands where `last` has a column
/// along which the objective falls without end while the artificial
/// variables stay zero.
pub open spec fn second_phase_error(e: SimplexError, last: TableauView, columns: Seq<ColumnKind>)
    -> SimplexError {
    if e == SimplexError::Unbounded && !has_falling(last, columns) {
        SimplexError::InvalidTableau
    } else {
        e
    }
}

/// The basic variable of the row `r` is an artificial variable that is not
/// zero.
pub open spec fn is_stuck(t: TableauView, columns: Seq<ColumnKind>, r: int) -> bool {
    columns[t.basis[r] as int] is Artificial && t.b[r].num != 0
}

/// Some artificial variable is basic and not zero.
pub open spec fn has_stuck(t: TableauView, columns: Seq<ColumnKind>) -> bool {
    exists|r: int| 0 <= r < t.a.len() && #[trigger] is_stuck(t, columns, r)
}

/// What solving a model in standard form in two phases, with at most
/// `limit` pivots in each, gives: the values of all the variables at the
/// optimum with the value of the objective there, or the error of the step
/// at which the solve ends.
///
/// - `InvalidTableau`: the model has no tableau to start from, a tableau on
///   the way is not what the simplex asks for, or an artificial variable is
///   left in the basis at the end and is not zero.
/// - The first phase minimises the sum of the artificial variables. Where it
///   does not end with an optimum, the error is that of its run, which is
///   never `Unbounded`; where it ends above zero, the error is `Infeasible`.
/// - The second phase starts from [`second_tableau`] and minimises the
///   objective of the model. Where it does not end with an optimum, the
///   error is that of its run (see [`second_phase_error`]).
pub open spec fn two_phase(standard: StandardView, limit: nat) -> Result<
    (Seq<Fraction>, Fraction),
    SimplexError,
> {
    match first_tableau(standard) {
        None => Err(SimplexError::InvalidTableau),
        Some(first) => if !(is_usable(first) && standard.names == first.c.len()) {
            Err(SimplexError::InvalidTableau)
        } else {
            match phase(first, zero(), limit) {
                Err(e) => Err(e),
                Ok((ended, sum)) => if sum.num != 0 {
                    Err(SimplexError::Infeasible)
                } else {
                    match second_tableau(ended, zero(), standard.names, standard) {
                        Err(e) => Err(e),
                        Ok(second) => match phase(second, standard.offset, limit) {
                            Err(e) => Err(
                                second_phase_error(e, solved(second, limit).1, standard.columns),
                            ),
                            Ok((last, value)) => if has_stuck(last, standard.columns) {
                                Err(SimplexError::InvalidTableau)
                            } else {
                                Ok((last.basic_solution(), value))
                            },
                        },
                    }
                },
            }
        },
    }
}

} // verus!
