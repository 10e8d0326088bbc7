//! From the expanded model to the linear model: every expression is brought
//! into the form of a constant plus a sum of variables with coefficients,
//! and is refused where it has no such form.
use vstd::prelude::*;
use vstd::string::*;
use crate::fraction::{reduced, Fraction};
use crate::math::{Op, UnOp};
use crate::number::pow10;
use crate::parser::exp::{exp_text, Exp, ExpView};
use crate::parser::transformer::{Condition, ConditionView, Problem, ProblemView};
use crate::solvers::tableau::zero;
use crate::text::same_text;
use crate::transformers::linear_model::{all_well_formed, LinearConstraint, LinearModel};

verus! {

/// Why an expanded model has no linear model.
#[derive(Debug, PartialEq)]
pub enum LinearizationError {
    /// The expression with the given text is not linear in the variables.
    NonLinear(String),
    /// A coefficient does not fit into a fraction of 64 bits.
    Overflow,
    /// An expression is divided by zero.
    DivisionByZero,
}

/// An error of the linearization as a mathematical value.
pub enum LinearizationErrorView {
    NonLinear(Seq<char>),
    Overflow,
    DivisionByZero,
}

impl View for LinearizationError {
    type V = LinearizationErrorView;

    open spec fn view(&self) -> LinearizationErrorView {
        match self {
            LinearizationError::NonLinear(s) => LinearizationErrorView::NonLinear(s@),
            LinearizationError::Overflow => LinearizationErrorView::Overflow,
            LinearizationError::DivisionByZero => LinearizationErrorView::DivisionByZero,
        }
    }
}

/// A constant plus a sum of variables with coefficients. No variable occurs
/// twice among the terms; the terms stand in the order in which their
/// variables first occurred.
#[derive(Debug)]
pub struct LinearForm {
    pub terms: Vec<(String, Fraction)>,
    pub constant: Fraction,
}

/// A term as a mathematical value.
pub type TermView = (Seq<char>, Fraction);

/// A linear form as a mathematical value.
pub struct LinearFormView {
    pub terms: Seq<TermView>,
    pub constant: Fraction,
}

/// The views of a list of terms.
pub open spec fn term_views(terms: Seq<(String, Fraction)>) -> Seq<TermView> {
    Seq::new(terms.len(), |i: int| (terms[i].0@, terms[i].1))
}

impl View for LinearForm {
    type V = LinearFormView;

    open spec fn view(&self) -> LinearFormView {
        LinearFormView { terms: term_views(self.terms@), constant: self.constant }
    }
}

/// Every coefficient of the terms is well formed.
pub open spec fn terms_well_formed(terms: Seq<TermView>) -> bool {
    forall|i: int| 0 <= i < terms.len() ==> (#[trigger] terms[i]).1.well_formed()
}

impl LinearFormView {
    /// Every number of the form is well formed.
    pub open spec fn well_formed(self) -> bool {
        terms_well_formed(self.terms) && self.constant.well_formed()
    }
}

/// The place, from `from` on, of the term of the variable `name`.
pub open spec fn term_index(terms: Seq<TermView>, name: Seq<char>, from: int) -> Option<int>
    decreases terms.len() - from,
{
    if from < 0 || from >= terms.len() {
        None
    } else if terms[from].0 == name {
        Some(from)
    } else {
        term_index(terms, name, from + 1)
    }
}

/// The coefficient of the variable `name` among the terms: zero where it
/// has no term.
pub open spec fn coefficient_of(terms: Seq<TermView>, name: Seq<char>) -> Fraction {
    match term_index(terms, name, 0) {
        Some(i) => terms[i].1,
        None => zero(),
    }
}

/// The terms with `coefficient` more of the variable `name`; `None` where
/// the sum of the coefficients does not fit.
pub open spec fn with_term(terms: Seq<TermView>, name: Seq<char>, coefficient: Fraction) -> Option<
    Seq<TermView>,
> {
    match term_index(terms, name, 0) {
        Some(i) => match terms[i].1.sum(coefficient) {
            Some(s) => Some(terms.update(i, (name, s))),
            None => None,
        },
        None => Some(terms.push((name, coefficient))),
    }
}

/// The terms with the terms of `other`, from `from` on, added to them.
pub open spec fn merged(terms: Seq<TermView>, other: Seq<TermView>, from: int) -> Option<
    Seq<TermView>,
>
    decreases other.len() - from,
{
    if from < 0 || from >= other.len() {
        Some(terms)
    } else {
        match with_term(terms, other[from].0, other[from].1) {
            None => None,
            Some(next) => merged(next, other, from + 1),
        }
    }
}

/// The first `n` terms, each coefficient times `factor`.
pub open spec fn scaled_terms(terms: Seq<TermView>, factor: Fraction, n: int) -> Option<
    Seq<TermView>,
>
    decreases n,
{
    if n <= 0 {
        Some(Seq::<TermView>::empty())
    } else {
        match scaled_terms(terms, factor, n - 1) {
            None => None,
            Some(front) => match terms[n - 1].1.product(factor) {
                None => None,
                Some(p) => Some(front.push((terms[n - 1].0, p))),
            },
        }
    }
}

/// The sum of two linear forms.
pub open spec fn form_sum(f: LinearFormView, g: LinearFormView) -> Option<LinearFormView> {
    match merged(f.terms, g.terms, 0) {
        None => None,
        Some(terms) => match f.constant.sum(g.constant) {
            None => None,
            Some(constant) => Some(LinearFormView { terms, constant }),
        },
    }
}

/// A linear form times a number.
pub open spec fn form_scaled(f: LinearFormView, factor: Fraction) -> Option<LinearFormView> {
    match scaled_terms(f.terms, factor, f.terms.len() as int) {
        None => None,
        Some(terms) => match f.constant.product(factor) {
            None => None,
            Some(constant) => Some(LinearFormView { terms, constant }),
        },
    }
}

/// Minus one.
pub open spec fn minus_one() -> Fraction {
    Fraction { num: -1i64, den: 1 }
}

/// The fraction that a decimal of an expression stands for.
pub open spec fn number_fraction(n: crate::number::Number) -> Option<Fraction> {
    if n.scale <= 18 {
        reduced(n.signed(), pow10(n.scale as nat) as int)
    } else {
        None
    }
}

/// The linear form of an expression: a number is a constant, a variable a
/// term with the coefficient one; sums, differences and negations are taken
/// term by term; a product needs a side without terms, and a quotient a
/// divisor without terms that is not zero. Absolute values, minima and
/// maxima have no linear form.
pub open spec fn linear_form(e: ExpView) -> Result<LinearFormView, LinearizationErrorView>
    decreases e,
{
    match e {
        ExpView::Number(n) => match number_fraction(n) {
            Some(constant) => Ok(LinearFormView { terms: Seq::<TermView>::empty(), constant }),
            None => Err(LinearizationErrorView::Overflow),
        },
        ExpView::Variable(name) => Ok(
            LinearFormView {
                terms: seq![(name, Fraction { num: 1, den: 1 })],
                constant: zero(),
            },
        ),
        ExpView::UnOp(_, inner) => match linear_form(*inner) {
            Err(e) => Err(e),
            Ok(f) => match form_scaled(f, minus_one()) {
                Some(g) => Ok(g),
                None => Err(LinearizationErrorView::Overflow),
            },
        },
        ExpView::BinOp(op, lhs, rhs) => match linear_form(*lhs) {
            Err(e) => Err(e),
            Ok(f) => match linear_form(*rhs) {
                Err(e) => Err(e),
                Ok(g) => combined_forms(op, f, g, exp_text(e)),
            },
        },
        _ => Err(LinearizationErrorView::NonLinear(exp_text(e))),
    }
}

/// The linear form of an operation on two expressions with the linear forms
/// `f` and `g`; `text` is the text of the operation.
pub open spec fn combined_forms(op: Op, f: LinearFormView, g: LinearFormView, text: Seq<char>)
    -> Result<LinearFormView, LinearizationErrorView> {
    match op {
        Op::Add => match form_sum(f, g) {
            Some(h) => Ok(h),
            None => Err(LinearizationErrorView::Overflow),
        },
        Op::Sub => match form_scaled(g, minus_one()) {
            None => Err(LinearizationErrorView::Overflow),
            Some(negated) => match form_sum(f, negated) {
                Some(h) => Ok(h),
                None => Err(LinearizationErrorView::Overflow),
            },
        },
        Op::Mul => if g.terms.len() == 0 {
            match form_scaled(f, g.constant) {
                Some(h) => Ok(h),
                None => Err(LinearizationErrorView::Overflow),
            }
        } else if f.terms.len() == 0 {
            match form_scaled(g, f.constant) {
                Some(h) => Ok(h),
                None => Err(LinearizationErrorView::Overflow),
            }
        } else {
            Err(LinearizationErrorView::NonLinear(text))
        },
        Op::Div => if g.terms.len() != 0 {
            Err(LinearizationErrorView::NonLinear(text))
        } else if g.constant.num == 0 {
            Err(LinearizationErrorView::DivisionByZero)
        } else {
            match (Fraction { num: 1, den: 1 }).quotient(g.constant) {
                None => Err(LinearizationErrorView::Overflow),
                Some(inverse) => match form_scaled(f, inverse) {
                    Some(h) => Ok(h),
                    None => Err(LinearizationErrorView::Overflow),
                },
            }
        },
    }
}

/// Adding a term keeps the coefficients well formed.
pub proof fn lemma_with_term(terms: Seq<TermView>, name: Seq<char>, coefficient: Fraction)
    requires
        terms_well_formed(terms),
        coefficient.well_formed(),
        with_term(terms, name, coefficient) is Some,
    ensures
        terms_well_formed(with_term(terms, name, coefficient)->Some_0),
{
    lemma_term_index(terms, name, 0);
    match term_index(terms, name, 0) {
        Some(i) => {
            assert(terms[i].1.well_formed());
            crate::fraction::lemma_sum_value(terms[i].1, coefficient);
        },
        None => {},
    }
}

/// What `term_index` finds.
pub proof fn lemma_term_index(terms: Seq<TermView>, name: Seq<char>, from: int)
    requires
        0 <= from <= terms.len(),
    ensures
        match term_index(terms, name, from) {
            Some(i) => from <= i < terms.len() && terms[i].0 == name,
            None => forall|k: int| from <= k < terms.len() ==> (#[trigger] terms[k]).0 != name,
        },
    decreases terms.len() - from,
{
    if from < terms.len() && terms[from].0 != name {
        lemma_term_index(terms, name, from + 1);
    }
}

impl LinearForm {
    /// The form of the constant `constant`.
    pub fn constant(constant: Fraction) -> (r: LinearForm)
        ensures
            r@ == (LinearFormView { terms: Seq::<TermView>::empty(), constant }),
    {
        let r = LinearForm { terms: Vec::new(), constant };
        assert(r@.terms =~= Seq::<TermView>::empty());
        r
    }

    /// The place of the term of the variable `name`.
    fn find(&self, name: &str) -> (r: Option<usize>)
        ensures
            match r {
                Some(i) => term_index(self@.terms, name@, 0) == Some(i as int) && i
                    < self.terms.len(),
                None => term_index(self@.terms, name@, 0) is None,
            },
    {
        let mut i: usize = 0;
        while i < self.terms.len()
            invariant
                i <= self.terms.len(),
                term_index(self@.terms, name@, 0) == term_index(self@.terms, name@, i as int),
            decreases self.terms.len() - i,
        {
            if same_text(self.terms[i].0.as_str(), name) {
                return Some(i);
            }
            i = i + 1;
        }
        None
    }

    /// The coefficient of the variable `name`.
    pub fn coefficient(&self, name: &str) -> (r: Fraction)
        ensures
            r == coefficient_of(self@.terms, name@),
    {
        match self.find(name) {
            Some(i) => self.terms[i].1,
            None => Fraction::zero(),
        }
    }

    /// Adds `coefficient` of the variable `name` to the form. The form is
    /// left as it was where the sum of the coefficients does not fit.
    pub fn add_term(&mut self, name: &str, coefficient: Fraction) -> (r: bool)
        requires
            old(self)@.well_formed(),
            coefficient.well_formed(),
        ensures
            final(self).constant == old(self).constant,
            final(self)@.well_formed(),
            match with_term(old(self)@.terms, name@, coefficient) {
                Some(terms) => r && final(self)@.terms == terms,
                None => !r && final(self)@ == old(self)@,
            },
    {
        proof {
            if with_term(self@.terms, name@, coefficient) is Some {
                lemma_with_term(self@.terms, name@, coefficient);
            }
        }
        match self.find(name) {
            Some(i) => {
                assert(self@.terms[i as int].1.well_formed());
                match self.terms[i].1.add(&coefficient) {
                    Some(s) => {
                        let ghost before = self@.terms;
                        self.terms.set(i, (name.to_owned(), s));
                        assert(self@.terms =~= before.update(i as int, (name@, s)));
                        true
                    },
                    None => false,
                }
            },
            None => {
                let ghost before = self@.terms;
                self.terms.push((name.to_owned(), coefficient));
                assert(self@.terms =~= before.push((name@, coefficient)));
                true
            },
        }
    }

    /// The sum of the two forms; `None` where a number does not fit.
    pub fn plus(self, other: &LinearForm) -> (r: Option<LinearForm>)
        requires
            self@.well_formed(),
            other@.well_formed(),
        ensures
            match r {
                Some(h) => form_sum(self@, other@) == Some(h@) && h@.well_formed(),
                None => form_sum(self@, other@) is None,
            },
    {
        let mut out = self;
        let mut i: usize = 0;
        while i < other.terms.len()
            invariant
                i <= other.terms.len(),
                out@.well_formed(),
                other@.well_formed(),
                out.constant == self.constant,
                merged(self@.terms, other@.terms, 0) == merged(out@.terms, other@.terms, i as int),
            decreases other.terms.len() - i,
        {
            assert(other@.terms[i as int] == (other.terms[i as int].0@, other.terms[i as int].1));
            assert(other@.terms[i as int].1.well_formed());
            if !out.add_term(other.terms[i].0.as_str(), other.terms[i].1) {
                return None;
            }
            i = i + 1;
        }
        match out.constant.add(&other.constant) {
            Some(constant) => {
                out.constant = constant;
                Some(out)
            },
            None => None,
        }
    }

    /// The form times `factor`; `None` where a number does not fit.
    pub fn times(&self, factor: &Fraction) -> (r: Option<LinearForm>)
        requires
            self@.well_formed(),
            factor.well_formed(),
        ensures
            match r {
                Some(h) => form_scaled(self@, *factor) == Some(h@) && h@.well_formed(),
                None => form_scaled(self@, *factor) is None,
            },
    {
        let mut terms: Vec<(String, Fraction)> = Vec::new();
        let mut i: usize = 0;
        assert(term_views(terms@) =~= Seq::<TermView>::empty());
        while i < self.terms.len()
            invariant
                i <= self.terms.len(),
                self@.well_formed(),
                factor.well_formed(),
                terms_well_formed(term_views(terms@)),
                scaled_terms(self@.terms, *factor, i as int) == Some(term_views(terms@)),
            decreases self.terms.len() - i,
        {
            assert(self@.terms[i as int] == (self.terms[i as int].0@, self.terms[i as int].1));
            assert(self@.terms[i as int].1.well_formed());
            match self.terms[i].1.mul(factor) {
                Some(p) => {
                    let ghost before = term_views(terms@);
                    terms.push((self.terms[i].0.clone(), p));
                    assert(term_views(terms@) =~= before.push((self@.terms[i as int].0, p)));
                },
                None => {
                    proof {
                        lemma_scaled_fails(self@.terms, *factor, i + 1, self.terms.len() as int);
                    }
                    return None;
                },
            }
            i = i + 1;
        }
        match self.constant.mul(factor) {
            Some(constant) => Some(LinearForm { terms, constant }),
            None => None,
        }
    }
}

/// Where scaling some terms fails, scaling more fails.
pub proof fn lemma_scaled_fails(terms: Seq<TermView>, factor: Fraction, upto: int, n: int)
    requires
        0 <= upto <= n,
        scaled_terms(terms, factor, upto) is None,
    ensures
        scaled_terms(terms, factor, n) is None,
    decreases n - upto,
{
    if upto < n {
        lemma_scaled_fails(terms, factor, upto + 1, n);
    }
}

/// The result is the one expected.
pub open spec fn gives(
    r: Result<LinearForm, LinearizationError>,
    expected: Result<LinearFormView, LinearizationErrorView>,
) -> bool {
    match r {
        Ok(f) => expected == Ok::<LinearFormView, LinearizationErrorView>(f@) && f@.well_formed(),
        Err(e) => expected == Err::<LinearFormView, LinearizationErrorView>(e@),
    }
}

/// The linear form of an operation on two expressions with the linear forms
/// `f` and `g`.
fn combine_forms(op: Op, f: LinearForm, g: LinearForm, whole: &Exp) -> (r: Result<
    LinearForm,
    LinearizationError,
>)
    requires
        f@.well_formed(),
        g@.well_formed(),
    ensures
        gives(r, combined_forms(op, f@, g@, exp_text(whole@))),
{
    let minus = Fraction { num: -1, den: 1 };
    match op {
        Op::Add => match f.plus(&g) {
            Some(h) => Ok(h),
            None => Err(LinearizationError::Overflow),
        },
        Op::Sub => match g.times(&minus) {
            None => Err(LinearizationError::Overflow),
            Some(negated) => match f.plus(&negated) {
                Some(h) => Ok(h),
                None => Err(LinearizationError::Overflow),
            },
        },
        Op::Mul => {
            assert(g@.terms.len() == g.terms.len());
            assert(f@.terms.len() == f.terms.len());
            if g.terms.len() == 0 {
                match f.times(&g.constant) {
                    Some(h) => Ok(h),
                    None => Err(LinearizationError::Overflow),
                }
            } else if f.terms.len() == 0 {
                match g.times(&f.constant) {
                    Some(h) => Ok(h),
                    None => Err(LinearizationError::Overflow),
                }
            } else {
                Err(LinearizationError::NonLinear(whole.to_string()))
            }
        },
        Op::Div => {
            assert(g@.terms.len() == g.terms.len());
            if g.terms.len() != 0 {
                Err(LinearizationError::NonLinear(whole.to_string()))
            } else if g.constant.num == 0 {
                Err(LinearizationError::DivisionByZero)
            } else {
                match Fraction::one().div(&g.constant) {
                    None => Err(LinearizationError::Overflow),
                    Some(inverse) => match f.times(&inverse) {
                        Some(h) => Ok(h),
                        None => Err(LinearizationError::Overflow),
                    },
                }
            }
        },
    }
}

/// The linear form of the expression.
pub fn to_linear_form(e: &Exp) -> (r: Result<LinearForm, LinearizationError>)
    ensures
        gives(r, linear_form(e@)),
    decreases e,
{
    match e {
        Exp::Number(n) => match Fraction::from_number(n) {
            Some(constant) => Ok(LinearForm::constant(constant)),
            None => Err(LinearizationError::Overflow),
        },
        Exp::Variable(name) => {
            let mut terms: Vec<(String, Fraction)> = Vec::new();
            terms.push((name.clone(), Fraction::one()));
            let form = LinearForm { terms, constant: Fraction::zero() };
            assert(form@.terms =~= seq![(name@, Fraction { num: 1, den: 1 })]);
            Ok(form)
        },
        Exp::UnOp(_, inner) => {
            let f = to_linear_form(inner)?;
            match f.times(&Fraction { num: -1, den: 1 }) {
                Some(g) => Ok(g),
                None => Err(LinearizationError::Overflow),
            }
        },
        Exp::BinOp(op, lhs, rhs) => {
            let f = to_linear_form(lhs)?;
            let g = to_linear_form(rhs)?;
            combine_forms(*op, f, g, e)
        },
        _ => Err(LinearizationError::NonLinear(e.to_string())),
    }
}

/// The names with those of the terms, from `from` on, that are not among
/// them yet added at the end.
pub open spec fn with_names(names: Seq<Seq<char>>, terms: Seq<TermView>, from: int) -> Seq<
    Seq<char>,
>
    decreases terms.len() - from,
{
    if from < 0 || from >= terms.len() {
        names
    } else if names.contains(terms[from].0) {
        with_names(names, terms, from + 1)
    } else {
        with_names(names.push(terms[from].0), terms, from + 1)
    }
}

/// The coefficients of the variables `names` among the terms.
pub open spec fn coefficients_for(names: Seq<Seq<char>>, terms: Seq<TermView>) -> Seq<Fraction> {
    Seq::new(names.len(), |j: int| coefficient_of(terms, names[j]))
}

/// The linear form of a condition: that of its left side less that of its
/// right side.
pub open spec fn condition_form(c: ConditionView) -> Result<
    LinearFormView,
    LinearizationErrorView,
> {
    match linear_form(c.lhs) {
        Err(e) => Err(e),
        Ok(f) => match linear_form(c.rhs) {
            Err(e) => Err(e),
            Ok(g) => match form_scaled(g, minus_one()) {
                None => Err(LinearizationErrorView::Overflow),
                Some(negated) => match form_sum(f, negated) {
                    Some(h) => Ok(h),
                    None => Err(LinearizationErrorView::Overflow),
                },
            },
        },
    }
}

/// The linear forms of the conditions, from `from` on.
pub open spec fn condition_forms(conditions: Seq<ConditionView>, from: int) -> Result<
    Seq<LinearFormView>,
    LinearizationErrorView,
>
    decreases conditions.len() - from,
{
    if from < 0 || from >= conditions.len() {
        Ok(Seq::<LinearFormView>::empty())
    } else {
        match condition_form(conditions[from]) {
            Err(e) => Err(e),
            Ok(f) => match condition_forms(conditions, from + 1) {
                Err(e) => Err(e),
                Ok(rest) => Ok(seq![f] + rest),
            },
        }
    }
}

/// The names of the variables of the forms up to but without `upto`, in the
/// order in which they first occur, behind `names`.
pub open spec fn all_names(names: Seq<Seq<char>>, forms: Seq<LinearFormView>, upto: int) -> Seq<
    Seq<char>,
>
    decreases upto,
{
    if upto <= 0 || upto > forms.len() {
        names
    } else {
        with_names(all_names(names, forms, upto - 1), forms[upto - 1].terms, 0)
    }
}

/// The views of a list of forms.
pub open spec fn form_views(forms: Seq<LinearForm>) -> Seq<LinearFormView> {
    Seq::new(forms.len(), |i: int| forms[i]@)
}

/// The linear form of the condition.
pub fn to_condition_form(c: &Condition) -> (r: Result<LinearForm, LinearizationError>)
    ensures
        gives(r, condition_form(c@)),
{
    let f = to_linear_form(&c.lhs)?;
    let g = to_linear_form(&c.rhs)?;
    match g.times(&Fraction { num: -1, den: 1 }) {
        None => Err(LinearizationError::Overflow),
        Some(negated) => match f.plus(&negated) {
            Some(h) => Ok(h),
            None => Err(LinearizationError::Overflow),
        },
    }
}

/// Whether `name` is among `names`.
fn has_name(names: &Vec<String>, name: &str) -> (r: bool)
    ensures
        r == names.deep_view().contains(name@),
{
    let ghost texts = names.deep_view();
    let mut i: usize = 0;
    while i < names.len()
        invariant
            i <= names.len(),
            texts == names.deep_view(),
            forall|k: int| 0 <= k < i ==> texts[k] != name@,
        decreases names.len() - i,
    {
        assert(texts[i as int] == names[i as int]@);
        if same_text(names[i].as_str(), name) {
            return true;
        }
        i = i + 1;
    }
    false
}

/// Adds to `names` the variables of the form that are not among them yet.
fn add_names(names: &mut Vec<String>, form: &LinearForm)
    ensures
        final(names).deep_view() == with_names(old(names).deep_view(), form@.terms, 0),
{
    let mut i: usize = 0;
    while i < form.terms.len()
        invariant
            i <= form.terms.len(),
            with_names(old(names).deep_view(), form@.terms, 0) == with_names(
                names.deep_view(),
                form@.terms,
                i as int,
            ),
        decreases form.terms.len() - i,
    {
        assert(form@.terms[i as int].0 == form.terms[i as int].0@);
        if !has_name(names, form.terms[i].0.as_str()) {
            let ghost before = names.deep_view();
            names.push(form.terms[i].0.clone());
            assert(names.deep_view() =~= before.push(form@.terms[i as int].0));
        }
        i = i + 1;
    }
}

/// The coefficients of the variables `names` in the form.
fn coefficients_of(names: &Vec<String>, form: &LinearForm) -> (r: Vec<Fraction>)
    requires
        form@.well_formed(),
    ensures
        r@ == coefficients_for(names.deep_view(), form@.terms),
        all_well_formed(r@),
{
    let ghost texts = names.deep_view();
    let mut out: Vec<Fraction> = Vec::new();
    let mut j: usize = 0;
    while j < names.len()
        invariant
            j <= names.len(),
            texts == names.deep_view(),
            form@.well_formed(),
            out.len() == j,
            all_well_formed(out@),
            forall|k: int| 0 <= k < j ==> out[k] == coefficient_of(form@.terms, texts[k]),
        decreases names.len() - j,
    {
        assert(texts[j as int] == names[j as int]@);
        let c = form.coefficient(names[j].as_str());
        proof {
            lemma_term_index(form@.terms, texts[j as int], 0);
        }
        out.push(c);
        j = j + 1;
    }
    assert(out@ =~= coefficients_for(texts, form@.terms));
    out
}

/// The linear model of an expanded model, as a mathematical value: the
/// variables in the order in which they first occur, in the objective and
/// then in the conditions; the coefficients and the offset of the objective;
/// and for each condition the coefficients of its left side less its right
/// side, compared with what is left of the constants on the right.
pub open spec fn is_linear_model_of(model: &LinearModel, problem: ProblemView) -> bool {
    &&& linear_form(problem.objective.rhs) is Ok
    &&& condition_forms(problem.conditions, 0) is Ok
    &&& {
        let objective = linear_form(problem.objective.rhs)->Ok_0;
        let forms = condition_forms(problem.conditions, 0)->Ok_0;
        let names = all_names(
            with_names(Seq::<Seq<char>>::empty(), objective.terms, 0),
            forms,
            forms.len() as int,
        );
        &&& model.variables.deep_view() == names
        &&& model.optimization_type == problem.objective.objective_type
        &&& model.objective@ == coefficients_for(names, objective.terms)
        &&& model.objective_offset == objective.constant
        &&& model.constraints.len() == problem.conditions.len()
        &&& forms.len() == problem.conditions.len()
        &&& forall|i: int|
            0 <= i < model.constraints.len() ==> {
                &&& (#[trigger] model.constraints[i]).coefficients@ == coefficients_for(
                    names,
                    forms[i].terms,
                )
                &&& model.constraints[i].constraint_type == problem.conditions[i].condition_type
                &&& model.constraints[i].rhs == (Fraction {
                    num: (-forms[i].constant.num) as i64,
                    den: forms[i].constant.den,
                })
            }
    }
}

/// The error with which the linearization of an expanded model fails: that
/// of the objective, or else that of the first condition that fails.
pub open spec fn linearization_error(problem: ProblemView) -> Option<LinearizationErrorView> {
    match linear_form(problem.objective.rhs) {
        Err(e) => Some(e),
        Ok(_) => match condition_forms(problem.conditions, 0) {
            Err(e) => Some(e),
            Ok(_) => None,
        },
    }
}

/// The linear model of an expanded model; the error of the first expression
/// that has no linear form.
pub fn linearize(problem: &Problem) -> (r: Result<LinearModel, LinearizationError>)
    ensures
        match r {
            Ok(model) => model.well_formed() && model.fits_variables() && is_linear_model_of(
                &model,
                problem@,
            ),
            Err(e) => linearization_error(problem@) == Some(e@),
        },
{
    let objective = to_linear_form(&problem.objective.rhs)?;
    let mut forms: Vec<LinearForm> = Vec::new();
    let mut i: usize = 0;
    assert(form_views(forms@) =~= Seq::<LinearFormView>::empty());
    while i < problem.conditions.len()
        invariant
            i <= problem.conditions.len(),
            forms.len() == i,
            linear_form(problem@.objective.rhs) == Ok::<LinearFormView, LinearizationErrorView>(
                objective@,
            ),
            forall|k: int| 0 <= k < i ==> (#[trigger] forms[k])@.well_formed(),
            condition_forms(problem@.conditions, 0) == match condition_forms(
                problem@.conditions,
                i as int,
            ) {
                Ok(rest) => Ok::<Seq<LinearFormView>, LinearizationErrorView>(
                    form_views(forms@) + rest,
                ),
                Err(e) => Err::<Seq<LinearFormView>, LinearizationErrorView>(e),
            },
        decreases problem.conditions.len() - i,
    {
        assert(problem@.conditions[i as int] == problem.conditions[i as int]@);
        let form = match to_condition_form(&problem.conditions[i]) {
            Ok(f) => f,
            Err(e) => {
                return Err(e);
            },
        };
        let ghost before = form_views(forms@);
        forms.push(form);
        proof {
            assert(form_views(forms@) =~= before.push(form@));
            match condition_forms(problem@.conditions, i + 1) {
                Ok(rest) => {
                    assert(before + (seq![form@] + rest) =~= form_views(forms@) + rest);
                },
                Err(_) => {},
            }
        }
        i = i + 1;
    }
    let ghost all_forms = form_views(forms@);
    assert(all_forms + Seq::<LinearFormView>::empty() =~= all_forms);
    // The variables.
    let mut names: Vec<String> = Vec::new();
    assert(names.deep_view() =~= Seq::<Seq<char>>::empty());
    add_names(&mut names, &objective);
    let ghost base = names.deep_view();
    let mut k: usize = 0;
    while k < forms.len()
        invariant
            k <= forms.len(),
            all_forms == form_views(forms@),
            names.deep_view() == all_names(base, all_forms, k as int),
        decreases forms.len() - k,
    {
        assert(all_forms[k as int] == forms[k as int]@);
        add_names(&mut names, &forms[k]);
        k = k + 1;
    }
    // The rows.
    let mut constraints: Vec<LinearConstraint> = Vec::new();
    let mut k: usize = 0;
    while k < forms.len()
        invariant
            k <= forms.len(),
            forms.len() == problem.conditions.len(),
            all_forms == form_views(forms@),
            constraints.len() == k,
            forall|j: int| 0 <= j < forms.len() ==> (#[trigger] forms[j])@.well_formed(),
            forall|j: int|
                0 <= j < k ==> {
                    &&& (#[trigger] constraints[j]).coefficients@ == coefficients_for(
                        names.deep_view(),
                        all_forms[j].terms,
                    )
                    &&& constraints[j].constraint_type == problem@.conditions[j].condition_type
                    &&& constraints[j].rhs == (Fraction {
                        num: (-all_forms[j].constant.num) as i64,
                        den: all_forms[j].constant.den,
                    })
                    &&& constraints[j].well_formed()
                    &&& constraints[j].coefficients.len() == names.len()
                },
        decreases forms.len() - k,
    {
        assert(all_forms[k as int] == forms[k as int]@);
        assert(forms[k as int]@.well_formed());
        assert(problem@.conditions[k as int] == problem.conditions[k as int]@);
        let coefficients = coefficients_of(&names, &forms[k]);
        assert(coefficients.len() == names.len()) by {
            assert(names.deep_view().len() == names.len());
        }
        constraints.push(
            LinearConstraint::new(
                coefficients,
                problem.conditions[k].condition_type,
                forms[k].constant.negate(),
            ),
        );
        k = k + 1;
    }
    let coefficients = coefficients_of(&names, &objective);
    assert(coefficients.len() == names.len()) by {
        assert(names.deep_view().len() == names.len());
    }
    let model = LinearModel::new(
        coefficients,
        problem.objective.objective_type,
        objective.constant,
        constraints,
        names,
    );
    Ok(model)
}

} // verus!
