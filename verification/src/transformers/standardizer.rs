//! The standard form of a linear model: the objective is minimised, every
//! constraint is an equality with a right-hand side that is not below zero,
//! and every variable is at least zero.
//!
//! A constraint `<=` is given a slack variable, a constraint `>=` a surplus
//! variable and an artificial one, and an equality an artificial one.
use vstd::prelude::*;
use vstd::string::*;
use crate::fraction::Fraction;
use crate::math::{Comparison, OptimizationType};
use crate::text::{nat_text, owned, usize_to_string};
use crate::transformers::linear_model::{all_well_formed, sized, LinearConstraint, LinearModel};

verus! {

/// What a column of a model in standard form is.
#[derive(Clone, Copy, Debug, PartialEq, Eq, Structural)]
pub enum ColumnKind {
    /// A variable of the model.
    Decision,
    /// The slack of the constraint with the given place.
    Slack(usize),
    /// The surplus of the constraint with the given place.
    Surplus(usize),
    /// The artificial variable of the constraint with the given place.
    Artificial(usize),
}

/// An equality between a linear combination of the variables and a number.
#[derive(Debug, PartialEq)]
pub struct EqualityConstraint {
    pub coefficients: Vec<Fraction>,
    pub rhs: Fraction,
}

impl EqualityConstraint {
    pub fn new(coefficients: Vec<Fraction>, rhs: Fraction) -> (r: EqualityConstraint)
        ensures
            r.coefficients == coefficients,
            r.rhs == rhs,
    {
        EqualityConstraint { coefficients, rhs }
    }

    pub fn get_coefficients(&self) -> (r: &Vec<Fraction>)
        ensures
            r@ == self.coefficients@,
    {
        &self.coefficients
    }

    pub fn get_rhs(&self) -> (r: Fraction)
        ensures
            r == self.rhs,
    {
        self.rhs
    }
}

/// A linear model in standard form.
#[derive(Debug)]
pub struct StandardLinearModel {
    pub variables: Vec<String>,
    pub objective: Vec<Fraction>,
    pub objective_offset: Fraction,
    pub constraints: Vec<EqualityConstraint>,
    /// What each column is: the variables of the model first, then the
    /// variables that were added.
    pub columns: Vec<ColumnKind>,
    /// The direction asked for was `Max`: the objective was negated, and the
    /// value found is to be negated back.
    pub flip_objective: bool,
}

/// The fractions of a list, each with its sign turned.
pub open spec fn negated(items: Seq<Fraction>) -> Seq<Fraction> {
    Seq::new(items.len(), |i: int| Fraction { num: (-items[i].num) as i64, den: items[i].den })
}

/// The coefficients of a constraint in standard form over `n` variables:
/// filled up with zeros, and negated where the right-hand side is below zero.
pub open spec fn normal_coefficients(c: LinearConstraint, n: nat) -> Seq<Fraction> {
    if c.rhs.num < 0 {
        negated(sized(c.coefficients@, n))
    } else {
        sized(c.coefficients@, n)
    }
}

/// The right-hand side of a constraint in standard form: its magnitude.
pub open spec fn normal_rhs(c: LinearConstraint) -> Fraction {
    if c.rhs.num < 0 {
        Fraction { num: (-c.rhs.num) as i64, den: c.rhs.den }
    } else {
        c.rhs
    }
}

/// The comparison of a constraint in standard form: turned round where the
/// right-hand side is below zero.
pub open spec fn normal_comparison(c: LinearConstraint) -> Comparison {
    if c.rhs.num < 0 {
        c.constraint_type.flipped()
    } else {
        c.constraint_type
    }
}

/// The columns that the constraints up to but without `upto` add: a slack
/// for `<=`, a surplus and an artificial variable for `>=`, an artificial
/// variable for `=`.
pub open spec fn added_columns(constraints: Seq<LinearConstraint>, upto: int) -> Seq<ColumnKind>
    decreases upto,
{
    if upto <= 0 || upto > constraints.len() {
        Seq::<ColumnKind>::empty()
    } else {
        let i = (upto - 1) as usize;
        added_columns(constraints, upto - 1) + match normal_comparison(constraints[upto - 1]) {
            Comparison::LowerOrEqual => seq![ColumnKind::Slack(i)],
            Comparison::UpperOrEqual => seq![ColumnKind::Surplus(i), ColumnKind::Artificial(i)],
            Comparison::Equal => seq![ColumnKind::Artificial(i)],
        }
    }
}

/// The coefficient of an added column in the constraint `row`: one for the
/// slack and the artificial variable of that constraint, minus one for its
/// surplus, and zero for the columns of other constraints.
pub open spec fn added_coefficient(kind: ColumnKind, row: usize) -> Fraction {
    match kind {
        ColumnKind::Decision => Fraction { num: 0, den: 1 },
        ColumnKind::Slack(i) => if i == row {
            Fraction { num: 1, den: 1 }
        } else {
            Fraction { num: 0, den: 1 }
        },
        ColumnKind::Surplus(i) => if i == row {
            Fraction { num: -1i64, den: 1 }
        } else {
            Fraction { num: 0, den: 1 }
        },
        ColumnKind::Artificial(i) => if i == row {
            Fraction { num: 1, den: 1 }
        } else {
            Fraction { num: 0, den: 1 }
        },
    }
}

/// The coefficients of the added columns in the constraint `row`.
pub open spec fn added_coefficients(columns: Seq<ColumnKind>, row: usize) -> Seq<Fraction> {
    Seq::new(columns.len(), |k: int| added_coefficient(columns[k], row))
}

/// The name of an added column.
pub open spec fn column_name(kind: ColumnKind) -> Seq<char> {
    match kind {
        ColumnKind::Decision => Seq::<char>::empty(),
        ColumnKind::Slack(i) => "$s_"@ + nat_text(i as nat),
        ColumnKind::Surplus(i) => "$r_"@ + nat_text(i as nat),
        ColumnKind::Artificial(i) => "$a_"@ + nat_text(i as nat),
    }
}

/// The names of the added columns.
pub open spec fn column_names(columns: Seq<ColumnKind>) -> Seq<Seq<char>> {
    Seq::new(columns.len(), |k: int| column_name(columns[k]))
}

/// As many times zero.
pub open spec fn zeros(count: nat) -> Seq<Fraction> {
    Seq::new(count, |i: int| Fraction { num: 0, den: 1 })
}

/// As many times the kind of a variable of the model.
pub open spec fn decisions(count: nat) -> Seq<ColumnKind> {
    Seq::new(count, |i: int| ColumnKind::Decision)
}

impl LinearModel {
    /// The objective and every constraint have at most as many coefficients
    /// as the model has variables.
    pub open spec fn fits_variables(&self) -> bool {
        &&& self.objective.len() <= self.variables.len()
        &&& forall|i: int|
            0 <= i < self.constraints.len() ==> (#[trigger] self.constraints[i]).coefficients.len()
                <= self.variables.len()
    }

    /// The objective of the standard form over the variables of the model:
    /// filled up with zeros, negated where the maximum is asked for, and all
    /// zero where any feasible point is asked for.
    pub open spec fn standard_objective(&self) -> Seq<Fraction> {
        match self.optimization_type {
            OptimizationType::Min => sized(self.objective@, self.variables.len() as nat),
            OptimizationType::Max => negated(sized(self.objective@, self.variables.len() as nat)),
            OptimizationType::Satisfy => zeros(self.variables.len() as nat),
        }
    }

    /// The offset of the objective of the standard form.
    pub open spec fn standard_offset(&self) -> Fraction {
        match self.optimization_type {
            OptimizationType::Min => self.objective_offset,
            OptimizationType::Max => Fraction {
                num: (-self.objective_offset.num) as i64,
                den: self.objective_offset.den,
            },
            OptimizationType::Satisfy => Fraction { num: 0, den: 1 },
        }
    }
}

impl StandardLinearModel {
    /// Every number of the model is well formed, and every row has one
    /// coefficient for each column.
    pub open spec fn well_formed(&self) -> bool {
        &&& self.objective_offset.well_formed()
        &&& all_well_formed(self.objective@)
        &&& self.objective.len() == self.columns.len()
        &&& self.variables.len() == self.columns.len()
        &&& forall|i: int|
            0 <= i < self.constraints.len() ==> {
                &&& all_well_formed((#[trigger] self.constraints[i]).coefficients@)
                &&& self.constraints[i].rhs.well_formed()
                &&& self.constraints[i].coefficients.len() == self.columns.len()
            }
    }

    /// The model is the standard form of `model`.
    pub open spec fn is_standard_form_of(&self, model: &LinearModel) -> bool {
        let n = model.variables.len() as nat;
        let added = added_columns(model.constraints@, model.constraints.len() as int);
        &&& self.columns@ == decisions(n) + added
        &&& self.variables.deep_view() == model.variables.deep_view() + column_names(added)
        &&& self.objective@ == model.standard_objective() + zeros(added.len())
        &&& self.objective_offset == model.standard_offset()
        &&& self.flip_objective == (model.optimization_type == OptimizationType::Max)
        &&& self.constraints.len() == model.constraints.len()
        &&& forall|i: int|
            0 <= i < self.constraints.len() ==> {
                &&& (#[trigger] self.constraints[i]).coefficients@ == normal_coefficients(
                    model.constraints[i],
                    n,
                ) + added_coefficients(added, i as usize)
                &&& self.constraints[i].rhs == normal_rhs(model.constraints[i])
            }
    }

    pub fn get_variables(&self) -> (r: &Vec<String>)
        ensures
            r@ == self.variables@,
    {
        &self.variables
    }

    pub fn get_objective(&self) -> (r: &Vec<Fraction>)
        ensures
            r@ == self.objective@,
    {
        &self.objective
    }

    pub fn get_constraints(&self) -> (r: &Vec<EqualityConstraint>)
        ensures
            r@ == self.constraints@,
    {
        &self.constraints
    }

    pub fn get_objective_offset(&self) -> (r: Fraction)
        ensures
            r == self.objective_offset,
    {
        self.objective_offset
    }
}

/// The rows of a model in standard form.
pub open spec fn standard_rows(constraints: Seq<EqualityConstraint>) -> Seq<Seq<Fraction>> {
    Seq::new(constraints.len(), |i: int| constraints[i].coefficients@)
}

/// The right-hand sides of a model in standard form.
pub open spec fn standard_sides(constraints: Seq<EqualityConstraint>) -> Seq<Fraction> {
    Seq::new(constraints.len(), |i: int| constraints[i].rhs)
}

/// A model in standard form as a mathematical value: what each column is,
/// the objective with its offset, the rows with their right-hand sides, and
/// how many names of variables there are.
pub struct StandardView {
    pub columns: Seq<ColumnKind>,
    pub objective: Seq<Fraction>,
    pub offset: Fraction,
    pub rows: Seq<Seq<Fraction>>,
    pub sides: Seq<Fraction>,
    pub names: nat,
}

impl View for StandardLinearModel {
    type V = StandardView;

    open spec fn view(&self) -> StandardView {
        StandardView {
            columns: self.columns@,
            objective: self.objective@,
            offset: self.objective_offset,
            rows: standard_rows(self.constraints@),
            sides: standard_sides(self.constraints@),
            names: self.variables.len() as nat,
        }
    }
}

/// The standard form of a model, as a mathematical value.
pub open spec fn standard_view_of(model: &LinearModel) -> StandardView {
    let n = model.variables.len() as nat;
    let added = added_columns(model.constraints@, model.constraints.len() as int);
    StandardView {
        columns: decisions(n) + added,
        objective: model.standard_objective() + zeros(added.len()),
        offset: model.standard_offset(),
        rows: Seq::new(
            model.constraints.len() as nat,
            |i: int| normal_coefficients(model.constraints[i], n) + added_coefficients(
                added,
                i as usize,
            ),
        ),
        sides: Seq::new(model.constraints.len() as nat, |i: int| normal_rhs(model.constraints[i])),
        names: n + added.len(),
    }
}

/// A model that is the standard form of `model` has the view of that
/// standard form.
pub proof fn lemma_standard_view(standard: &StandardLinearModel, model: &LinearModel)
    requires
        standard.is_standard_form_of(model),
    ensures
        standard@ == standard_view_of(model),
{
    let n = model.variables.len() as nat;
    let added = added_columns(model.constraints@, model.constraints.len() as int);
    assert(standard@.rows =~= standard_view_of(model).rows);
    assert(standard@.sides =~= standard_view_of(model).sides);
    assert(standard.variables.deep_view().len() == standard.variables.len());
    assert(model.variables.deep_view().len() == model.variables.len());
    assert(column_names(added).len() == added.len());
}

/// In the standard form of a model every right-hand side is at least zero,
/// and every added variable occurs in one constraint only: the constraint
/// that it was added for, where a slack and an artificial variable have the
/// coefficient one and a surplus the coefficient minus one.
pub proof fn lemma_standard_form(standard: &StandardLinearModel, model: &LinearModel)
    requires
        model.well_formed(),
        standard.is_standard_form_of(model),
    ensures
        forall|i: int|
            0 <= i < standard.constraints.len() ==> (#[trigger] standard.constraints[i]).rhs.num
                >= 0,
        forall|i: int, k: int|
            0 <= i < standard.constraints.len() && model.variables.len() <= k
                < standard.columns.len() ==> {
                let entry = (#[trigger] standard.constraints[i]).coefficients[k];
                match #[trigger] standard.columns[k] {
                    ColumnKind::Decision => false,
                    ColumnKind::Slack(row) => row < standard.constraints.len() && entry == if row
                        == i {
                        Fraction { num: 1, den: 1 }
                    } else {
                        Fraction { num: 0, den: 1 }
                    },
                    ColumnKind::Surplus(row) => row < standard.constraints.len() && entry == if row
                        == i {
                        Fraction { num: -1i64, den: 1 }
                    } else {
                        Fraction { num: 0, den: 1 }
                    },
                    ColumnKind::Artificial(row) => row < standard.constraints.len() && entry
                        == if row == i {
                        Fraction { num: 1, den: 1 }
                    } else {
                        Fraction { num: 0, den: 1 }
                    },
                }
            },
{
    let n = model.variables.len() as nat;
    let added = added_columns(model.constraints@, model.constraints.len() as int);
    lemma_added_columns(model.constraints@, model.constraints.len() as int);
    assert forall|i: int, k: int|
        0 <= i < standard.constraints.len() && model.variables.len() <= k
            < standard.columns.len() implies {
        let entry = (#[trigger] standard.constraints[i]).coefficients[k];
        match #[trigger] standard.columns[k] {
            ColumnKind::Decision => false,
            ColumnKind::Slack(row) => row < standard.constraints.len() && entry == if row == i {
                Fraction { num: 1, den: 1 }
            } else {
                Fraction { num: 0, den: 1 }
            },
            ColumnKind::Surplus(row) => row < standard.constraints.len() && entry == if row == i {
                Fraction { num: -1i64, den: 1 }
            } else {
                Fraction { num: 0, den: 1 }
            },
            ColumnKind::Artificial(row) => row < standard.constraints.len() && entry == if row
                == i {
                Fraction { num: 1, den: 1 }
            } else {
                Fraction { num: 0, den: 1 }
            },
        }
    } by {
        let row = standard.constraints[i].coefficients@;
        assert(row == normal_coefficients(model.constraints[i], n) + added_coefficients(
            added,
            i as usize,
        ));
        assert(row[k] == added_coefficients(added, i as usize)[k - n]);
        assert(standard.columns[k] == added[k - n]);
    }
}

/// Every added column is the column of a constraint of the model, and none
/// is the column of a variable of the model.
pub proof fn lemma_added_columns(constraints: Seq<LinearConstraint>, upto: int)
    requires
        0 <= upto <= constraints.len(),
    ensures
        forall|k: int|
            0 <= k < added_columns(constraints, upto).len() ==> match (
            #[trigger] added_columns(constraints, upto)[k]) {
                ColumnKind::Decision => false,
                ColumnKind::Slack(row) => row < upto,
                ColumnKind::Surplus(row) => row < upto,
                ColumnKind::Artificial(row) => row < upto,
            },
    decreases upto,
{
    if upto > 0 {
        lemma_added_columns(constraints, upto - 1);
    }
}

/// The name of an added column.
fn name_of(kind: ColumnKind) -> (r: String)
    ensures
        r@ == column_name(kind),
{
    match kind {
        ColumnKind::Decision => String::new(),
        ColumnKind::Slack(i) => {
            let mut out = owned("$s_");
            out.append(usize_to_string(i).as_str());
            out
        },
        ColumnKind::Surplus(i) => {
            let mut out = owned("$r_");
            out.append(usize_to_string(i).as_str());
            out
        },
        ColumnKind::Artificial(i) => {
            let mut out = owned("$a_");
            out.append(usize_to_string(i).as_str());
            out
        },
    }
}

/// The coefficient of an added column in the constraint `row`.
fn coefficient_of(kind: ColumnKind, row: usize) -> (r: Fraction)
    ensures
        r == added_coefficient(kind, row),
        r.well_formed(),
{
    match kind {
        ColumnKind::Decision => Fraction::zero(),
        ColumnKind::Slack(i) => if i == row {
            Fraction::one()
        } else {
            Fraction::zero()
        },
        ColumnKind::Surplus(i) => if i == row {
            Fraction { num: -1, den: 1 }
        } else {
            Fraction::zero()
        },
        ColumnKind::Artificial(i) => if i == row {
            Fraction::one()
        } else {
            Fraction::zero()
        },
    }
}

/// The first `size` entries of the list, with zeros where it has fewer,
/// and negated where `negate` is set.
fn sized_copy(items: &Vec<Fraction>, size: usize, negate: bool) -> (r: Vec<Fraction>)
    requires
        all_well_formed(items@),
    ensures
        r@ == if negate {
            negated(sized(items@, size as nat))
        } else {
            sized(items@, size as nat)
        },
        all_well_formed(r@),
{
    let mut out: Vec<Fraction> = Vec::new();
    let mut i: usize = 0;
    while i < size
        invariant
            i <= size,
            all_well_formed(items@),
            all_well_formed(out@),
            out.len() == i,
            forall|j: int|
                0 <= j < i ==> out[j] == if negate {
                    negated(sized(items@, size as nat))[j]
                } else {
                    sized(items@, size as nat)[j]
                },
        decreases size - i,
    {
        let entry = if i < items.len() {
            assert(items[i as int].well_formed());
            items[i]
        } else {
            Fraction::zero()
        };
        let entry = if negate {
            entry.negate()
        } else {
            entry
        };
        out.push(entry);
        i = i + 1;
    }
    assert(out@ =~= if negate {
        negated(sized(items@, size as nat))
    } else {
        sized(items@, size as nat)
    });
    out
}

/// The standard form of `model`; an error where the objective or a
/// constraint of the model has more coefficients than the model has
/// variables.
pub fn to_standard_form(model: LinearModel) -> (r: Result<StandardLinearModel, ()>)
    requires
        model.well_formed(),
    ensures
        r is Ok <==> model.fits_variables(),
        r is Ok ==> r->Ok_0.well_formed() && r->Ok_0.is_standard_form_of(&model),
{
    standard_form_of(&model)
}

/// The standard form of `model`; an error where the objective or a
/// constraint of the model has more coefficients than the model has
/// variables.
pub fn standard_form_of(model: &LinearModel) -> (r: Result<StandardLinearModel, ()>)
    requires
        model.well_formed(),
    ensures
        r is Ok <==> model.fits_variables(),
        r is Ok ==> r->Ok_0.well_formed() && r->Ok_0.is_standard_form_of(model),
{
    let n = model.variables.len();
    if model.objective.len() > n {
        return Err(());
    }
    let mut i: usize = 0;
    while i < model.constraints.len()
        invariant
            i <= model.constraints.len(),
            n == model.variables.len(),
            forall|j: int|
                0 <= j < i ==> (#[trigger] model.constraints[j]).coefficients.len() <= n,
        decreases model.constraints.len() - i,
    {
        if model.constraints[i].coefficients.len() > n {
            return Err(());
        }
        i = i + 1;
    }
    // The columns that the constraints add.
    let mut added: Vec<ColumnKind> = Vec::new();
    let mut i: usize = 0;
    while i < model.constraints.len()
        invariant
            i <= model.constraints.len(),
            added@ == added_columns(model.constraints@, i as int),
        decreases model.constraints.len() - i,
    {
        let c = &model.constraints[i];
        let comparison = if c.rhs.num < 0 {
            c.constraint_type.flip()
        } else {
            c.constraint_type
        };
        let ghost before = added@;
        match comparison {
            Comparison::LowerOrEqual => {
                added.push(ColumnKind::Slack(i));
                assert(added@ =~= before + seq![ColumnKind::Slack(i)]);
            },
            Comparison::UpperOrEqual => {
                added.push(ColumnKind::Surplus(i));
                added.push(ColumnKind::Artificial(i));
                assert(added@ =~= before + seq![ColumnKind::Surplus(i), ColumnKind::Artificial(i)]);
            },
            Comparison::Equal => {
                added.push(ColumnKind::Artificial(i));
                assert(added@ =~= before + seq![ColumnKind::Artificial(i)]);
            },
        }
        i = i + 1;
    }
    let ghost all_added = added@;
    // The rows.
    let mut constraints: Vec<EqualityConstraint> = Vec::new();
    let mut i: usize = 0;
    while i < model.constraints.len()
        invariant
            i <= model.constraints.len(),
            n == model.variables.len(),
            model.well_formed(),
            added@ == all_added,
            constraints.len() == i,
            forall|j: int|
                0 <= j < i ==> {
                    &&& (#[trigger] constraints[j]).coefficients@ == normal_coefficients(
                        model.constraints[j],
                        n as nat,
                    ) + added_coefficients(all_added, j as usize)
                    &&& constraints[j].rhs == normal_rhs(model.constraints[j])
                    &&& all_well_formed(constraints[j].coefficients@)
                    &&& constraints[j].rhs.well_formed()
                },
        decreases model.constraints.len() - i,
    {
        let c = &model.constraints[i];
        assert(c.well_formed());
        let negative = c.rhs.num < 0;
        let mut row = sized_copy(&c.coefficients, n, negative);
        let ghost head = row@;
        let mut k: usize = 0;
        while k < added.len()
            invariant
                k <= added.len(),
                added@ == all_added,
                all_well_formed(row@),
                row@ == head + added_coefficients(all_added, i).take(k as int),
            decreases added.len() - k,
        {
            let ghost before = row@;
            row.push(coefficient_of(added[k], i));
            assert(row@ =~= head + added_coefficients(all_added, i).take(k + 1));
            k = k + 1;
        }
        assert(added_coefficients(all_added, i).take(k as int) =~= added_coefficients(
            all_added,
            i,
        ));
        let rhs = if negative {
            c.rhs.negate()
        } else {
            c.rhs
        };
        constraints.push(EqualityConstraint { coefficients: row, rhs });
        i = i + 1;
    }
    // The objective, the names and the kinds of the columns.
    let (mut objective, offset) = match model.optimization_type {
        OptimizationType::Min => (sized_copy(&model.objective, n, false), model.objective_offset),
        OptimizationType::Max => (
            sized_copy(&model.objective, n, true),
            model.objective_offset.negate(),
        ),
        OptimizationType::Satisfy => {
            let empty: Vec<Fraction> = Vec::new();
            let zero = sized_copy(&empty, n, false);
            assert(zero@ =~= zeros(n as nat));
            (zero, Fraction::zero())
        },
    };
    let mut variables = crate::primitives::primitive::duplicate_strings(&model.variables);
    let mut columns: Vec<ColumnKind> = Vec::new();
    let mut i: usize = 0;
    while i < n
        invariant
            i <= n,
            columns@ == decisions(i as nat),
        decreases n - i,
    {
        columns.push(ColumnKind::Decision);
        assert(columns@ =~= decisions((i + 1) as nat));
        i = i + 1;
    }
    let ghost base_objective = objective@;
    let ghost base_names = variables.deep_view();
    let mut k: usize = 0;
    while k < added.len()
        invariant
            k <= added.len(),
            added@ == all_added,
            all_well_formed(objective@),
            objective@ == base_objective + zeros(k as nat),
            variables.deep_view() == base_names + column_names(all_added).take(k as int),
            columns@ == decisions(n as nat) + all_added.take(k as int),
        decreases added.len() - k,
    {
        let ghost names_before = variables.deep_view();
        objective.push(Fraction::zero());
        variables.push(name_of(added[k]));
        columns.push(added[k]);
        proof {
            assert(objective@ =~= base_objective + zeros((k + 1) as nat));
            assert(variables.deep_view() =~= names_before.push(column_name(all_added[k as int])));
            assert(variables.deep_view() =~= base_names + column_names(all_added).take(k + 1));
            assert(columns@ =~= decisions(n as nat) + all_added.take(k + 1));
        }
        k = k + 1;
    }
    proof {
        assert(all_added.take(k as int) =~= all_added);
        assert(column_names(all_added).take(k as int) =~= column_names(all_added));
    }
    let flip_objective = matches!(model.optimization_type, OptimizationType::Max);
    Ok(
        StandardLinearModel {
            variables,
            objective,
            objective_offset: offset,
            constraints,
            columns,
            flip_objective,
        },
    )
}

impl LinearModel {
    /// The standard form of the model.
    pub fn into_standard_form(self) -> (r: Result<StandardLinearModel, ()>)
        requires
            self.well_formed(),
        ensures
            r is Ok <==> self.fits_variables(),
            r is Ok ==> r->Ok_0.well_formed() && r->Ok_0.is_standard_form_of(&self),
    {
        to_standard_form(self)
    }
}

} // verus!
