//! Why a tableau at which no row can leave the basis has no least value:
//! from its basic solution the variable that would enter can grow without
//! end, the basic variables make up for it, and the objective falls with it.
use vstd::prelude::*;
use crate::fraction::Fraction;
use crate::solvers::algebra::lemma_value_sign;
use crate::solvers::extension::{artificials_zero, lemma_zero_value};
use crate::solvers::tableau::{dot, non_negative, one, zero, TableauView};
use crate::solvers::theorems::{lemma_basis_distinct, lemma_dot_single};
use crate::transformers::standardizer::ColumnKind;

verus! {

/// Where every product but those at `p` and `q` is zero, the sum of the
/// first `n` products is the sum of those two.
pub proof fn lemma_dot_two(a: Seq<Fraction>, x: Seq<real>, n: int, p: int, q: int)
    requires
        0 <= n <= a.len(),
        n <= x.len(),
        0 <= p < n,
        0 <= q < n,
        p != q,
        forall|j: int| 0 <= j < n && j != p && j != q ==> (#[trigger] a[j]).value() * x[j] == 0real,
    ensures
        dot(a, x, n) == a[p].value() * x[p] + a[q].value() * x[q],
    decreases n,
{
    let last = n - 1;
    if last == p {
        assert forall|j: int| 0 <= j < last && j != q implies (#[trigger] a[j]).value() * x[j]
            == 0real by {}
        lemma_dot_single(a, x, last, q);
    } else if last == q {
        assert forall|j: int| 0 <= j < last && j != p implies (#[trigger] a[j]).value() * x[j]
            == 0real by {}
        lemma_dot_single(a, x, last, p);
    } else {
        lemma_dot_two(a, x, last, p, q);
        assert(a[last].value() * x[last] == 0real);
    }
}

/// The column `col` is one along which the tableau has no least value: no
/// row has an entry above zero in it.
pub open spec fn is_open(t: TableauView, col: int) -> bool {
    &&& 0 <= col < t.width()
    &&& forall|i: int| 0 <= i < t.height() ==> (#[trigger] t.a[i])[col].num <= 0
}

/// The values of the variables where the variable of the column `col` has
/// the value `s`, as far as the first `upto` rows tell: the basic variable
/// of each of them has the right-hand side of its row less `s` times the
/// entry of the row in the column, and every other variable is zero.
pub open spec fn ray_values(t: TableauView, col: int, s: real, upto: int) -> Seq<real>
    decreases upto,
{
    if upto <= 0 {
        Seq::new(
            t.width(),
            |j: int|
                if j == col {
                    s
                } else {
                    0real
                },
        )
    } else {
        ray_values(t, col, s, upto - 1).update(
            t.basis[upto - 1] as int,
            t.b[upto - 1].value() - s * t.a[upto - 1][col].value(),
        )
    }
}

/// The point that lies `s` along the column `col` from the basic solution.
pub open spec fn ray_point(t: TableauView, col: int, s: real) -> Seq<real> {
    ray_values(t, col, s, t.height() as int)
}

/// The variable of an open column is basic in no row.
pub proof fn lemma_open_is_not_basic(t: TableauView, col: int, r: int)
    requires
        t.well_formed(),
        t.is_canonical(),
        is_open(t, col),
        0 <= r < t.height(),
    ensures
        t.basis[r] as int != col,
{
    assert(t.a[r][t.basis[r] as int] == one());
    assert(t.a[r][col].num <= 0);
}

/// What the values along a column hold: for a basic variable the right-hand
/// side of its row less `s` times the entry of the row in the column, `s`
/// for the variable of the column, and zero for every other.
pub proof fn lemma_ray_values(t: TableauView, col: int, s: real, upto: int)
    requires
        t.well_formed(),
        t.is_canonical(),
        is_open(t, col),
        0 <= upto <= t.height(),
    ensures
        ray_values(t, col, s, upto).len() == t.width(),
        forall|r: int|
            0 <= r < upto ==> ray_values(t, col, s, upto)[(#[trigger] t.basis[r]) as int]
                == t.b[r].value() - s * t.a[r][col].value(),
        forall|j: int|
            0 <= j < t.width() && (forall|r: int| 0 <= r < upto ==> (#[trigger] t.basis[r]) != j)
                ==> (#[trigger] ray_values(t, col, s, upto)[j]) == if j == col {
                s
            } else {
                0real
            },
    decreases upto,
{
    if upto > 0 {
        lemma_ray_values(t, col, s, upto - 1);
        let before = ray_values(t, col, s, upto - 1);
        let now = ray_values(t, col, s, upto);
        let k = t.basis[upto - 1] as int;
        assert(k < t.width());
        assert forall|r: int| 0 <= r < upto implies now[(#[trigger] t.basis[r]) as int]
            == t.b[r].value() - s * t.a[r][col].value() by {
            if r < upto - 1 {
                lemma_basis_distinct(t, r, upto - 1);
            }
        }
        assert forall|j: int|
            0 <= j < t.width() && (forall|r: int|
                0 <= r < upto ==> (#[trigger] t.basis[r]) != j) implies (#[trigger] now[j]) == if j
            == col {
            s
        } else {
            0real
        } by {
            assert(t.basis[upto - 1] != j);
            assert forall|r: int| 0 <= r < upto - 1 implies (#[trigger] t.basis[r]) != j by {}
        }
    }
}

/// Every point along an open column from the basic solution of a tableau,
/// whose basic columns form an identity and whose right-hand sides are not
/// below zero, solves the tableau and has no value below zero.
pub proof fn lemma_ray_solves(t: TableauView, col: int, s: real)
    requires
        t.well_formed(),
        t.is_canonical(),
        t.is_feasible(),
        is_open(t, col),
        s >= 0real,
    ensures
        ray_point(t, col, s).len() == t.width(),
        t.solved_by(ray_point(t, col, s)),
        non_negative(ray_point(t, col, s)),
        ray_point(t, col, s)[col] == s,
{
    let m = t.height() as int;
    let n = t.width() as int;
    let x = ray_point(t, col, s);
    lemma_ray_values(t, col, s, m);
    lemma_zero_value();
    assert forall|r: int| 0 <= r < m implies (#[trigger] t.basis[r]) != col by {
        lemma_open_is_not_basic(t, col, r);
    }
    assert(x[col] == s);
    assert forall|j: int| 0 <= j < x.len() implies (#[trigger] x[j]) >= 0real by {
        if exists|r: int| 0 <= r < m && t.basis[r] == j {
            let r = choose|r: int| 0 <= r < m && t.basis[r] == j;
            assert(x[t.basis[r] as int] == t.b[r].value() - s * t.a[r][col].value());
            assert(t.b[r].well_formed());
            assert(t.b[r].num >= 0);
            lemma_value_sign(t.b[r]);
            assert(t.a[r].len() == n);
            assert(t.a[r][col].well_formed());
            assert(t.a[r][col].num <= 0);
            lemma_value_sign(t.a[r][col]);
            let bv = t.b[r].value();
            let av = t.a[r][col].value();
            assert(bv - s * av >= 0real) by (nonlinear_arith)
                requires
                    bv >= 0real,
                    av <= 0real,
                    s >= 0real,
            ;
        } else {
            assert forall|r: int| 0 <= r < m implies (#[trigger] t.basis[r]) != j by {}
        }
    }
    assert forall|i: int| 0 <= i < m implies dot(#[trigger] t.a[i], x, n) == t.b[i].value() by {
        let k = t.basis[i] as int;
        assert(k < n);
        assert(k != col);
        assert(t.a[i].len() == n);
        assert forall|j: int| 0 <= j < n && j != col && j != k implies (#[trigger] t.a[i][j]).value()
            * x[j] == 0real by {
            let v = t.a[i][j].value();
            if exists|r: int| 0 <= r < m && t.basis[r] == j {
                let r = choose|r: int| 0 <= r < m && t.basis[r] == j;
                assert(r != i);
                assert(t.a[i][t.basis[r] as int] == zero());
                let w = x[j];
                assert(0real * w == 0real) by (nonlinear_arith);
            } else {
                assert forall|r: int| 0 <= r < m implies (#[trigger] t.basis[r]) != j by {}
                assert(x[j] == 0real);
                assert(v * 0real == 0real) by (nonlinear_arith);
            }
        }
        lemma_dot_two(t.a[i], x, n, col, k);
        assert(t.a[i][k] == one());
        assert(x[t.basis[i] as int] == t.b[i].value() - s * t.a[i][col].value());
        let av = t.a[i][col].value();
        let bv = t.b[i].value();
        assert(av * s + 1real * (bv - s * av) == bv) by (nonlinear_arith);
    }
}

/// At a point along an open column the objective of a tableau, which has a
/// zero in every basic column, is the value of the tableau and `s` times
/// the entry of the objective in the column.
pub proof fn lemma_ray_objective(t: TableauView, col: int, s: real)
    requires
        t.well_formed(),
        t.is_canonical(),
        t.is_reduced(),
        is_open(t, col),
    ensures
        t.objective_at(ray_point(t, col, s)) == t.value.value() + t.c[col].value() * s,
{
    let m = t.height() as int;
    let n = t.width() as int;
    let x = ray_point(t, col, s);
    lemma_ray_values(t, col, s, m);
    assert forall|r: int| 0 <= r < m implies (#[trigger] t.basis[r]) != col by {
        lemma_open_is_not_basic(t, col, r);
    }
    assert(x[col] == s);
    assert forall|j: int| 0 <= j < n && j != col implies (#[trigger] t.c[j]).value() * x[j]
        == 0real by {
        let v = t.c[j].value();
        if exists|r: int| 0 <= r < m && t.basis[r] == j {
            let r = choose|r: int| 0 <= r < m && t.basis[r] == j;
            assert(t.c[t.basis[r] as int].num == 0);
            assert(t.c[j].well_formed());
            lemma_value_sign(t.c[j]);
            let w = x[j];
            assert(0real * w == 0real) by (nonlinear_arith);
        } else {
            assert forall|r: int| 0 <= r < m implies (#[trigger] t.basis[r]) != j by {}
            assert(x[j] == 0real);
            assert(v * 0real == 0real) by (nonlinear_arith);
        }
    }
    lemma_dot_single(t.c, x, n, col);
}

/// The open column `col` is clear of the artificial variables: it is none
/// of them, and every artificial variable that is basic is zero and has a
/// zero in the column.
pub open spec fn is_clear(t: TableauView, columns: Seq<ColumnKind>, col: int) -> bool {
    &&& is_open(t, col)
    &&& col < columns.len()
    &&& !(columns[col] is Artificial)
    &&& forall|r: int|
        0 <= r < t.height() && columns[(#[trigger] t.basis[r]) as int] is Artificial ==> t.b[r].num
            == 0 && t.a[r][col].num == 0
}

/// Along the column `col` the objective of the tableau falls without end,
/// and the artificial variables stay zero: the objective has an entry below
/// zero in the column, and the column is clear of the artificial variables.
pub open spec fn is_falling(t: TableauView, columns: Seq<ColumnKind>, col: int) -> bool {
    is_clear(t, columns, col) && t.c[col].num < 0
}

/// The tableau has a column along which its objective falls without end
/// while the artificial variables stay zero.
pub open spec fn has_falling(t: TableauView, columns: Seq<ColumnKind>) -> bool {
    exists|col: int| #[trigger] is_falling(t, columns, col)
}

/// Along a column that is clear of the artificial variables every
/// artificial variable stays zero.
pub proof fn lemma_ray_artificials(t: TableauView, columns: Seq<ColumnKind>, col: int, s: real)
    requires
        t.well_formed(),
        t.is_canonical(),
        columns.len() == t.width(),
        is_clear(t, columns, col),
    ensures
        artificials_zero(columns, ray_point(t, col, s)),
{
    let m = t.height() as int;
    let x = ray_point(t, col, s);
    lemma_ray_values(t, col, s, m);
    assert forall|k: int| 0 <= k < columns.len() && columns[k] is Artificial implies #[trigger] x[k]
        == 0real by {
        if exists|r: int| 0 <= r < m && t.basis[r] == k {
            let r = choose|r: int| 0 <= r < m && t.basis[r] == k;
            assert(columns[t.basis[r] as int] is Artificial);
            assert(x[t.basis[r] as int] == t.b[r].value() - s * t.a[r][col].value());
            assert(t.b[r].well_formed());
            lemma_value_sign(t.b[r]);
            assert(t.a[r].len() == t.width());
            assert(t.a[r][col].well_formed());
            lemma_value_sign(t.a[r][col]);
            assert(0real - s * 0real == 0real) by (nonlinear_arith);
        } else {
            assert forall|r: int| 0 <= r < m implies (#[trigger] t.basis[r]) != k by {}
        }
    }
}

/// How far along a column with the entry `cost`, which is below zero, the
/// objective falls from `value` to below `bound`.
pub open spec fn far_enough(value: real, cost: real, bound: real) -> real {
    if value < bound {
        0real
    } else {
        (value - bound) / (-cost) + 1real
    }
}

/// Far enough along a column with an entry below zero the objective is
/// below any bound.
pub proof fn lemma_far_enough(value: real, cost: real, bound: real)
    requires
        cost < 0real,
    ensures
        far_enough(value, cost, bound) >= 0real,
        value + cost * far_enough(value, cost, bound) < bound,
{
    if value < bound {
        assert(cost * 0real == 0real) by (nonlinear_arith);
    } else {
        let k = -cost;
        let d = value - bound;
        let q = d / k;
        assert(q >= 0real && k * q == d) by (nonlinear_arith)
            requires
                k > 0real,
                d >= 0real,
                q == d / k,
        ;
        assert(cost * (q + 1real) == -d - k) by (nonlinear_arith)
            requires
                k * q == d,
                cost == -k,
        ;
    }
}

} // verus!
