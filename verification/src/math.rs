//! Operators, comparisons and the direction of an optimisation.
use vstd::prelude::*;
use crate::text::owned;

verus! {

/// How the two sides of a constraint are compared.
#[derive(Clone, Copy, Debug, PartialEq, Eq, Structural)]
pub enum Comparison {
    LowerOrEqual,
    UpperOrEqual,
    Equal,
}

impl Comparison {
    pub open spec fn text(self) -> Seq<char> {
        match self {
            Comparison::LowerOrEqual => "<="@,
            Comparison::UpperOrEqual => ">="@,
            Comparison::Equal => "="@,
        }
    }

    pub fn to_string(&self) -> (r: String)
        ensures
            r@ == self.text(),
    {
        match self {
            Comparison::LowerOrEqual => owned("<="),
            Comparison::UpperOrEqual => owned(">="),
            Comparison::Equal => owned("="),
        }
    }

    /// The comparison that holds of `-a` and `-b` where this one holds of `a`
    /// and `b`.
    pub open spec fn flipped(self) -> Comparison {
        match self {
            Comparison::LowerOrEqual => Comparison::UpperOrEqual,
            Comparison::UpperOrEqual => Comparison::LowerOrEqual,
            Comparison::Equal => Comparison::Equal,
        }
    }

    pub fn flip(&self) -> (r: Comparison)
        ensures
            r == self.flipped(),
    {
        match self {
            Comparison::LowerOrEqual => Comparison::UpperOrEqual,
            Comparison::UpperOrEqual => Comparison::LowerOrEqual,
            Comparison::Equal => Comparison::Equal,
        }
    }
}

/// A binary operator of the language.
#[derive(Clone, Copy, Debug, PartialEq, Eq, Structural)]
pub enum Op {
    Add,
    Sub,
    Mul,
    Div,
}

impl Op {
    /// How tightly the operator binds: `*` and `/` bind tighter than `+` and
    /// `-`.
    pub open spec fn precedence_spec(self) -> u8 {
        match self {
            Op::Add => 1,
            Op::Sub => 1,
            Op::Mul => 2,
            Op::Div => 2,
        }
    }

    pub open spec fn text(self) -> Seq<char> {
        match self {
            Op::Add => "+"@,
            Op::Sub => "-"@,
            Op::Mul => "*"@,
            Op::Div => "/"@,
        }
    }

    /// The operator is `+` or `-`.
    pub open spec fn is_additive(self) -> bool {
        self == Op::Add || self == Op::Sub
    }

    pub fn precedence(&self) -> (r: u8)
        ensures
            r == self.precedence_spec(),
    {
        match self {
            Op::Add => 1,
            Op::Sub => 1,
            Op::Mul => 2,
            Op::Div => 2,
        }
    }

    pub fn to_string(&self) -> (r: String)
        ensures
            r@ == self.text(),
    {
        match self {
            Op::Add => owned("+"),
            Op::Sub => owned("-"),
            Op::Mul => owned("*"),
            Op::Div => owned("/"),
        }
    }
}

/// A unary operator of the language.
#[derive(Clone, Copy, Debug, PartialEq, Eq, Structural)]
pub enum UnOp {
    Neg,
}

impl UnOp {
    pub open spec fn text(self) -> Seq<char> {
        "-"@
    }

    pub fn to_string(&self) -> (r: String)
        ensures
            r@ == self.text(),
    {
        owned("-")
    }
}

/// What is asked of the objective.
#[derive(Clone, Copy, Debug, PartialEq, Eq, Structural)]
pub enum OptimizationType {
    Min,
    Max,
    Satisfy,
}

impl OptimizationType {
    pub open spec fn text(self) -> Seq<char> {
        match self {
            OptimizationType::Min => "min"@,
            OptimizationType::Max => "max"@,
            OptimizationType::Satisfy => "solve"@,
        }
    }

    pub fn to_string(&self) -> (r: String)
        ensures
            r@ == self.text(),
    {
        match self {
            OptimizationType::Min => owned("min"),
            OptimizationType::Max => owned("max"),
            OptimizationType::Satisfy => owned("solve"),
        }
    }
}

/// The values that a decision variable may take.
#[derive(Clone, Copy, Debug, PartialEq, Eq, Structural)]
pub enum VariableDomain {
    Real,
    NonNegativeReal,
    Integer,
    Boolean,
}

impl VariableDomain {
    pub open spec fn text(self) -> Seq<char> {
        match self {
            VariableDomain::Real => "Real"@,
            VariableDomain::NonNegativeReal => "NonNegativeReal"@,
            VariableDomain::Integer => "Integer"@,
            VariableDomain::Boolean => "Boolean"@,
        }
    }

    pub fn to_string(&self) -> (r: String)
        ensures
            r@ == self.text(),
    {
        match self {
            VariableDomain::Real => owned("Real"),
            VariableDomain::NonNegativeReal => owned("NonNegativeReal"),
            VariableDomain::Integer => owned("Integer"),
            VariableDomain::Boolean => owned("Boolean"),
        }
    }
}

/// The names `x0`, `x1`, ... of `n` variables.
pub open spec fn variable_names(n: nat) -> Seq<Seq<char>> {
    Seq::new(n, |i: int| "x"@ + crate::text::nat_text(i as nat))
}

/// The names `x0`, `x1`, ..., one for each of `n` variables.
pub fn create_variable_names(n: usize) -> (r: Vec<String>)
    ensures
        r.deep_view() == variable_names(n as nat),
{
    let mut variables: Vec<String> = Vec::new();
    let mut i: usize = 0;
    while i < n
        invariant
            i <= n,
            variables.len() == i,
            forall|j: int| 0 <= j < i ==> variables[j]@ == "x"@ + crate::text::nat_text(j as nat),
        decreases n - i,
    {
        let digits = crate::text::usize_to_string(i);
        variables.push(crate::text::concat("x", digits.as_str()));
        i = i + 1;
    }
    assert(variables.deep_view() =~= variable_names(n as nat));
    variables
}

} // verus!
