//! Linear models: variables in a fixed order, an objective over them, and
//! constraints that each compare a linear combination of the variables with
//! a number.
use vstd::prelude::*;
use vstd::string::*;
use crate::fraction::Fraction;
use crate::math::{Comparison, OptimizationType, VariableDomain};
use crate::text::{join, join_text, owned};

verus! {

/// Every fraction of the list is well formed.
pub open spec fn all_well_formed(items: Seq<Fraction>) -> bool {
    forall|i: int| 0 <= i < items.len() ==> (#[trigger] items[i]).well_formed()
}

/// The first `size` entries of the list, with zeros where it has fewer.
pub open spec fn sized(items: Seq<Fraction>, size: nat) -> Seq<Fraction> {
    Seq::new(
        size,
        |i: int|
            if i < items.len() {
                items[i]
            } else {
                Fraction { num: 0, den: 1 }
            },
    )
}

/// A linear constraint: the coefficients of the variables, a comparison, and
/// the number that the combination is compared with.
#[derive(Debug, PartialEq)]
pub struct LinearConstraint {
    pub coefficients: Vec<Fraction>,
    pub rhs: Fraction,
    pub constraint_type: Comparison,
}

impl LinearConstraint {
    /// Every number of the constraint is well formed.
    pub open spec fn well_formed(&self) -> bool {
        all_well_formed(self.coefficients@) && self.rhs.well_formed()
    }

    /// Whether every number of the constraint is well formed.
    pub fn is_well_formed(&self) -> (r: bool)
        ensures
            r == self.well_formed(),
    {
        let mut i: usize = 0;
        while i < self.coefficients.len()
            invariant
                i <= self.coefficients.len(),
                forall|k: int| 0 <= k < i ==> (#[trigger] self.coefficients[k]).well_formed(),
            decreases self.coefficients.len() - i,
        {
            if !(self.coefficients[i].den > 0 && self.coefficients[i].num > i64::MIN) {
                return false;
            }
            i = i + 1;
        }
        self.rhs.den > 0 && self.rhs.num > i64::MIN
    }

    pub fn new(coefficients: Vec<Fraction>, constraint_type: Comparison, rhs: Fraction) -> (r:
        LinearConstraint)
        ensures
            r.coefficients == coefficients,
            r.constraint_type == constraint_type,
            r.rhs == rhs,
    {
        LinearConstraint { coefficients, rhs, constraint_type }
    }

    pub fn get_coefficients(&self) -> (r: &Vec<Fraction>)
        ensures
            r@ == self.coefficients@,
    {
        &self.coefficients
    }

    pub fn get_rhs(&self) -> (r: Fraction)
        ensures
            r == self.rhs,
    {
        self.rhs
    }

    pub fn get_constraint_type(&self) -> (r: &Comparison)
        ensures
            *r == self.constraint_type,
    {
        &self.constraint_type
    }

    pub fn into_parts(self) -> (r: (Vec<Fraction>, Comparison, Fraction))
        ensures
            r.0 == self.coefficients,
            r.1 == self.constraint_type,
            r.2 == self.rhs,
    {
        (self.coefficients, self.constraint_type, self.rhs)
    }

    /// Gives the constraint `size` coefficients: those behind the place
    /// `size` are dropped, and zeros are added where there are fewer.
    pub fn ensure_size(&mut self, size: usize)
        ensures
            final(self).coefficients@ == sized(old(self).coefficients@, size as nat),
            final(self).rhs == old(self).rhs,
            final(self).constraint_type == old(self).constraint_type,
            old(self).well_formed() ==> final(self).well_formed(),
    {
        self.coefficients.truncate(size);
        while self.coefficients.len() < size
            invariant
                self.coefficients.len() <= size,
                self.coefficients.len() < size ==> self.coefficients.len() >= old(
                    self,
                ).coefficients.len(),
                self.rhs == old(self).rhs,
                self.constraint_type == old(self).constraint_type,
                self.coefficients@ == sized(
                    old(self).coefficients@,
                    self.coefficients.len() as nat,
                ),
            decreases size - self.coefficients.len(),
        {
            let ghost before = self.coefficients@;
            self.coefficients.push(Fraction::zero());
            assert(self.coefficients@ =~= sized(
                old(self).coefficients@,
                self.coefficients.len() as nat,
            ));
        }
    }

    /// A copy of the coefficients.
    pub fn wasm_get_coefficients(&self) -> (r: Vec<Fraction>)
        ensures
            r@ == self.coefficients@,
    {
        copy_fractions(&self.coefficients)
    }

    pub fn wasm_get_rhs(&self) -> (r: Fraction)
        ensures
            r == self.rhs,
    {
        self.rhs
    }

    pub fn wasm_get_constraint_type(&self) -> (r: Comparison)
        ensures
            r == self.constraint_type,
    {
        self.constraint_type
    }

    /// A copy of the constraint.
    pub fn duplicate(&self) -> (r: LinearConstraint)
        ensures
            r.coefficients@ == self.coefficients@,
            r.rhs == self.rhs,
            r.constraint_type == self.constraint_type,
    {
        LinearConstraint {
            coefficients: copy_fractions(&self.coefficients),
            rhs: self.rhs,
            constraint_type: self.constraint_type,
        }
    }
}

impl Clone for LinearConstraint {
    fn clone(&self) -> (r: LinearConstraint)
        ensures
            r.coefficients@ == self.coefficients@,
            r.rhs == self.rhs,
            r.constraint_type == self.constraint_type,
    {
        self.duplicate()
    }
}

/// A copy of a list of fractions.
pub fn copy_fractions(items: &Vec<Fraction>) -> (r: Vec<Fraction>)
    ensures
        r@ == items@,
{
    let mut out: Vec<Fraction> = Vec::new();
    let mut i: usize = 0;
    while i < items.len()
        invariant
            i <= items.len(),
            out@ == items@.take(i as int),
        decreases items.len() - i,
    {
        out.push(items[i]);
        assert(out@ =~= items@.take(i + 1));
        i = i + 1;
    }
    assert(items@.take(i as int) =~= items@);
    out
}

/// The text of a term of a linear combination: the sign, the magnitude of
/// the coefficient unless it is one, and the name of the variable. The first
/// term of a combination has its sign only where it is a minus, and directly
/// in front; every other term has its sign and a blank in front.
pub open spec fn term_text(name: Seq<char>, value: Fraction, is_first: bool) -> Seq<char> {
    let magnitude = Fraction {
        num: (if value.num < 0 {
            -value.num
        } else {
            value.num as int
        }) as i64,
        den: value.den,
    };
    let amount = if magnitude.num == 1 && magnitude.den == 1 {
        Seq::<char>::empty()
    } else {
        magnitude.text()
    };
    if is_first {
        (if value.num < 0 {
            "-"@
        } else {
            Seq::<char>::empty()
        }) + amount + name
    } else {
        (if value.num < 0 {
            "- "@
        } else {
            "+ "@
        }) + amount + name
    }
}

/// The text of a term of a linear combination.
pub fn format_var(name: &str, value: Fraction, is_first: bool) -> (r: String)
    requires
        value.well_formed(),
    ensures
        r@ == term_text(name@, value, is_first),
{
    let magnitude = Fraction { num: if value.num < 0 {
        -value.num
    } else {
        value.num
    }, den: value.den };
    let mut out = if is_first {
        if value.num < 0 {
            owned("-")
        } else {
            String::new()
        }
    } else {
        if value.num < 0 {
            owned("- ")
        } else {
            owned("+ ")
        }
    };
    if !(magnitude.num == 1 && magnitude.den == 1) {
        out.append(magnitude.to_string().as_str());
    }
    out.append(name);
    proof {
        let amount = if magnitude.num == 1 && magnitude.den == 1 {
            Seq::<char>::empty()
        } else {
            magnitude.text()
        };
        let sign = if is_first {
            if value.num < 0 {
                "-"@
            } else {
                Seq::<char>::empty()
            }
        } else {
            if value.num < 0 {
                "- "@
            } else {
                "+ "@
            }
        };
        assert(out@ =~= sign + amount + name@);
    }
    out
}

/// The terms of a linear combination, from `from` on: one for each
/// coefficient that is not zero. `started` tells whether a term stands in
/// front of them.
pub open spec fn term_texts(
    names: Seq<Seq<char>>,
    coefficients: Seq<Fraction>,
    from: int,
    started: bool,
) -> Seq<Seq<char>>
    decreases coefficients.len() - from,
{
    if from < 0 || from >= coefficients.len() || from >= names.len() {
        Seq::<Seq<char>>::empty()
    } else if coefficients[from].num == 0 {
        term_texts(names, coefficients, from + 1, started)
    } else {
        seq![term_text(names[from], coefficients[from], !started)] + term_texts(
            names,
            coefficients,
            from + 1,
            true,
        )
    }
}

/// The text of a linear combination: its terms, separated by blanks.
pub open spec fn combination_text(names: Seq<Seq<char>>, coefficients: Seq<Fraction>) -> Seq<
    char,
> {
    join_text(term_texts(names, coefficients, 0, false), " "@)
}

/// The text of a linear combination of the variables `names`.
pub fn format_combination(names: &Vec<String>, coefficients: &Vec<Fraction>) -> (r: String)
    requires
        all_well_formed(coefficients@),
    ensures
        r@ == combination_text(names.deep_view(), coefficients@),
{
    let ghost texts = names.deep_view();
    let mut parts: Vec<String> = Vec::new();
    let mut started = false;
    let mut i: usize = 0;
    while i < coefficients.len() && i < names.len()
        invariant
            i <= coefficients.len(),
            i <= names.len(),
            texts == names.deep_view(),
            all_well_formed(coefficients@),
            term_texts(texts, coefficients@, 0, false) == parts.deep_view() + term_texts(
                texts,
                coefficients@,
                i as int,
                started,
            ),
        decreases coefficients.len() - i,
    {
        assert(texts[i as int] == names[i as int]@);
        assert(coefficients[i as int].well_formed());
        if coefficients[i].num != 0 {
            let ghost before = parts.deep_view();
            let term = format_var(names[i].as_str(), coefficients[i], !started);
            parts.push(term);
            proof {
                assert(parts.deep_view() =~= before.push(term@));
                assert(before + (seq![term@] + term_texts(texts, coefficients@, i + 1, true))
                    =~= parts.deep_view() + term_texts(texts, coefficients@, i + 1, true));
            }
            started = true;
        }
        i = i + 1;
    }
    assert(parts.deep_view() + Seq::<Seq<char>>::empty() =~= parts.deep_view());
    join(&parts, " ")
}

/// A linear model.
#[derive(Debug)]
pub struct LinearModel {
    pub variables: Vec<String>,
    pub objective_offset: Fraction,
    pub optimization_type: OptimizationType,
    pub objective: Vec<Fraction>,
    pub constraints: Vec<LinearConstraint>,
    pub domain: Vec<VariableDomain>,
}

/// The text of the offset of an objective: nothing for zero, else its sign
/// and its magnitude behind the terms.
pub open spec fn offset_text(offset: Fraction) -> Seq<char> {
    if offset.num == 0 {
        Seq::<char>::empty()
    } else if offset.num < 0 {
        " - "@ + (Fraction { num: (-offset.num) as i64, den: offset.den }).text()
    } else {
        " + "@ + offset.text()
    }
}

/// The text of a constraint of a model over the variables `names`.
pub open spec fn constraint_text(names: Seq<Seq<char>>, c: LinearConstraint) -> Seq<char> {
    "    "@ + combination_text(names, c.coefficients@) + " "@ + c.constraint_type.text() + " "@
        + c.rhs.text()
}

/// The texts of the constraints of a model.
pub open spec fn constraint_texts(names: Seq<Seq<char>>, items: Seq<LinearConstraint>) -> Seq<
    Seq<char>,
> {
    Seq::new(items.len(), |i: int| constraint_text(names, items[i]))
}

impl LinearModel {
    /// Every number of the model is well formed.
    pub open spec fn well_formed(&self) -> bool {
        &&& self.objective_offset.well_formed()
        &&& all_well_formed(self.objective@)
        &&& forall|i: int|
            0 <= i < self.constraints.len() ==> (#[trigger] self.constraints[i]).well_formed()
    }

    /// The text of the model: what is asked of which combination, `s.t.`,
    /// and the constraints one to a line.
    pub open spec fn text(&self) -> Seq<char> {
        self.optimization_type.text() + " "@ + combination_text(
            self.variables.deep_view(),
            self.objective@,
        ) + offset_text(self.objective_offset) + "\ns.t.\n"@ + join_text(
            constraint_texts(self.variables.deep_view(), self.constraints@),
            "\n"@,
        )
    }

    /// The model with the given parts, every variable a real number that is
    /// not below zero.
    /// Whether every number of the model is well formed: what the solvers
    /// ask of a model.
    pub fn is_well_formed(&self) -> (r: bool)
        ensures
            r == self.well_formed(),
    {
        if !(self.objective_offset.den > 0 && self.objective_offset.num > i64::MIN) {
            return false;
        }
        let mut i: usize = 0;
        while i < self.objective.len()
            invariant
                i <= self.objective.len(),
                forall|k: int| 0 <= k < i ==> (#[trigger] self.objective[k]).well_formed(),
            decreases self.objective.len() - i,
        {
            if !(self.objective[i].den > 0 && self.objective[i].num > i64::MIN) {
                return false;
            }
            i = i + 1;
        }
        let mut j: usize = 0;
        while j < self.constraints.len()
            invariant
                j <= self.constraints.len(),
                all_well_formed(self.objective@),
                forall|k: int| 0 <= k < j ==> (#[trigger] self.constraints[k]).well_formed(),
            decreases self.constraints.len() - j,
        {
            if !self.constraints[j].is_well_formed() {
                return false;
            }
            j = j + 1;
        }
        true
    }

    pub fn new(
        objective: Vec<Fraction>,
        optimization_type: OptimizationType,
        objective_offset: Fraction,
        constraints: Vec<LinearConstraint>,
        variables: Vec<String>,
    ) -> (r: LinearModel)
        ensures
            r.objective == objective,
            r.optimization_type == optimization_type,
            r.objective_offset == objective_offset,
            r.constraints == constraints,
            r.variables == variables,
            r.domain@ == Seq::new(variables.len() as nat, |i: int| VariableDomain::NonNegativeReal),
    {
        let mut domain: Vec<VariableDomain> = Vec::new();
        let mut i: usize = 0;
        while i < variables.len()
            invariant
                i <= variables.len(),
                domain@ == Seq::new(i as nat, |j: int| VariableDomain::NonNegativeReal),
            decreases variables.len() - i,
        {
            domain.push(VariableDomain::NonNegativeReal);
            assert(domain@ =~= Seq::new((i + 1) as nat, |j: int| VariableDomain::NonNegativeReal));
            i = i + 1;
        }
        LinearModel {
            objective,
            constraints,
            optimization_type,
            variables,
            objective_offset,
            domain,
        }
    }

    /// The model with the domains `domain` for its variables.
    pub fn with_domain(self, domain: Vec<VariableDomain>) -> (r: LinearModel)
        ensures
            r.objective == self.objective,
            r.optimization_type == self.optimization_type,
            r.objective_offset == self.objective_offset,
            r.constraints == self.constraints,
            r.variables == self.variables,
            r.domain == domain,
    {
        LinearModel {
            objective: self.objective,
            constraints: self.constraints,
            optimization_type: self.optimization_type,
            variables: self.variables,
            objective_offset: self.objective_offset,
            domain,
        }
    }

    pub fn into_parts(self) -> (r: (
        Vec<Fraction>,
        OptimizationType,
        Fraction,
        Vec<LinearConstraint>,
        Vec<String>,
    ))
        ensures
            r.0 == self.objective,
            r.1 == self.optimization_type,
            r.2 == self.objective_offset,
            r.3 == self.constraints,
            r.4 == self.variables,
    {
        (
            self.objective,
            self.optimization_type,
            self.objective_offset,
            self.constraints,
            self.variables,
        )
    }

    pub fn get_optimization_type(&self) -> (r: &OptimizationType)
        ensures
            *r == self.optimization_type,
    {
        &self.optimization_type
    }

    pub fn get_objective(&self) -> (r: &Vec<Fraction>)
        ensures
            r@ == self.objective@,
    {
        &self.objective
    }

    pub fn get_constraints(&self) -> (r: &Vec<LinearConstraint>)
        ensures
            r@ == self.constraints@,
    {
        &self.constraints
    }

    pub fn get_variables(&self) -> (r: &Vec<String>)
        ensures
            r@ == self.variables@,
    {
        &self.variables
    }

    pub fn get_objective_offset(&self) -> (r: Fraction)
        ensures
            r == self.objective_offset,
    {
        self.objective_offset
    }

    pub fn get_domain(&self) -> (r: &Vec<VariableDomain>)
        ensures
            r@ == self.domain@,
    {
        &self.domain
    }

    pub fn to_string(&self) -> (r: String)
        requires
            self.well_formed(),
        ensures
            r@ == self.text(),
    {
        let mut lines: Vec<String> = Vec::new();
        let mut i: usize = 0;
        while i < self.constraints.len()
            invariant
                i <= self.constraints.len(),
                self.well_formed(),
                lines.len() == i,
                forall|j: int|
                    0 <= j < i ==> lines[j]@ == constraint_text(
                        self.variables.deep_view(),
                        self.constraints[j],
                    ),
            decreases self.constraints.len() - i,
        {
            let c = &self.constraints[i];
            assert(c.well_formed());
            let mut line = owned("    ");
            line.append(format_combination(&self.variables, &c.coefficients).as_str());
            line.append(" ");
            line.append(c.constraint_type.to_string().as_str());
            line.append(" ");
            line.append(c.rhs.to_string().as_str());
            lines.push(line);
            i = i + 1;
        }
        assert(lines.deep_view() =~= constraint_texts(
            self.variables.deep_view(),
            self.constraints@,
        ));
        let mut out = self.optimization_type.to_string();
        out.append(" ");
        out.append(format_combination(&self.variables, &self.objective).as_str());
        if self.objective_offset.num < 0 {
            out.append(" - ");
            out.append(self.objective_offset.negate().to_string().as_str());
        } else if self.objective_offset.num > 0 {
            out.append(" + ");
            out.append(self.objective_offset.to_string().as_str());
        }
        out.append("\ns.t.\n");
        out.append(join(&lines, "\n").as_str());
        proof {
            let head = self.optimization_type.text() + " "@ + combination_text(
                self.variables.deep_view(),
                self.objective@,
            );
            let tail = "\ns.t.\n"@ + join_text(
                constraint_texts(self.variables.deep_view(), self.constraints@),
                "\n"@,
            );
            assert(out@ =~= head + offset_text(self.objective_offset) + tail);
        }
        out
    }

    /// A copy of the objective.
    pub fn wasm_get_objective(&self) -> (r: Vec<Fraction>)
        ensures
            r@ == self.objective@,
    {
        copy_fractions(&self.objective)
    }

    /// A copy of the constraints.
    pub fn wasm_get_constraints(&self) -> (r: Vec<LinearConstraint>)
        ensures
            r.len() == self.constraints.len(),
            forall|i: int|
                0 <= i < r.len() ==> (#[trigger] r[i]).coefficients@
                    == self.constraints[i].coefficients@ && r[i].rhs == self.constraints[i].rhs
                    && r[i].constraint_type == self.constraints[i].constraint_type,
    {
        let mut out: Vec<LinearConstraint> = Vec::new();
        let mut i: usize = 0;
        while i < self.constraints.len()
            invariant
                i <= self.constraints.len(),
                out.len() == i,
                forall|j: int|
                    0 <= j < i ==> (#[trigger] out[j]).coefficients@
                        == self.constraints[j].coefficients@ && out[j].rhs
                        == self.constraints[j].rhs && out[j].constraint_type
                        == self.constraints[j].constraint_type,
            decreases self.constraints.len() - i,
        {
            out.push(self.constraints[i].duplicate());
            i = i + 1;
        }
        out
    }

    /// A copy of the names of the variables.
    pub fn wasm_get_variables(&self) -> (r: Vec<String>)
        ensures
            r.deep_view() == self.variables.deep_view(),
    {
        crate::primitives::primitive::duplicate_strings(&self.variables)
    }

    pub fn wasm_get_objective_offset(&self) -> (r: Fraction)
        ensures
            r == self.objective_offset,
    {
        self.objective_offset
    }

    pub fn wasm_get_optimization_type(&self) -> (r: OptimizationType)
        ensures
            r == self.optimization_type,
    {
        self.optimization_type
    }

    pub fn wasm_to_string(&self) -> (r: String)
        requires
            self.well_formed(),
        ensures
            r@ == self.text(),
    {
        self.to_string()
    }
}

} // verus!
