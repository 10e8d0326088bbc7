//! Expanded expressions: what is left of an expression of the language once
//! every iteration is unrolled and every name resolved.
use vstd::prelude::*;
use vstd::string::*;
use crate::math::{Op, UnOp};
use crate::number::Number;
use crate::text::{join, join_text, owned};

verus! {

/// An expanded expression.
#[derive(Debug, PartialEq)]
pub enum Exp {
    Number(Number),
    Variable(String),
    Mod(Box<Exp>),
    Min(Vec<Exp>),
    Max(Vec<Exp>),
    BinOp(Op, Box<Exp>, Box<Exp>),
    UnOp(UnOp, Box<Exp>),
}

/// An expanded expression as a mathematical value.
pub enum ExpView {
    Number(Number),
    Variable(Seq<char>),
    Mod(Box<ExpView>),
    Min(Seq<ExpView>),
    Max(Seq<ExpView>),
    BinOp(Op, Box<ExpView>, Box<ExpView>),
    UnOp(UnOp, Box<ExpView>),
}

/// The views of a list of expressions.
pub open spec fn exp_views(items: Seq<Exp>) -> Seq<ExpView>
    decreases items,
{
    Seq::new(
        items.len(),
        |i: int|
            if 0 <= i < items.len() {
                items[i].model()
            } else {
                ExpView::Number(Number { negative: false, magnitude: 0, scale: 0 })
            },
    )
}

impl Exp {
    pub open spec fn model(&self) -> ExpView
        decreases self,
    {
        match self {
            Exp::Number(n) => ExpView::Number(*n),
            Exp::Variable(s) => ExpView::Variable(s@),
            Exp::Mod(e) => ExpView::Mod(Box::new(e.model())),
            Exp::Min(v) => ExpView::Min(exp_views(v@)),
            Exp::Max(v) => ExpView::Max(exp_views(v@)),
            Exp::BinOp(op, l, r) => ExpView::BinOp(*op, Box::new(l.model()), Box::new(r.model())),
            Exp::UnOp(op, e) => ExpView::UnOp(*op, Box::new(e.model())),
        }
    }
}

impl View for Exp {
    type V = ExpView;

    open spec fn view(&self) -> ExpView {
        self.model()
    }
}

impl ExpView {
    /// The expression is a sum or a difference.
    pub open spec fn is_sum(self) -> bool {
        self matches ExpView::BinOp(op, _, _) && op.is_additive()
    }

    /// The expression is a negation.
    pub open spec fn is_negation(self) -> bool {
        self is UnOp
    }
}

/// The operation `op` on two flat expressions, with the product or the
/// quotient pushed inwards:
///
/// - `(a ± b) * r` becomes `a * r ± b * r`, and `l * (a ± b)` becomes
///   `l * a ± l * b`;
/// - `(-a) * r` and `l * (-b)` become `-(a * r)` and `-(l * b)`;
/// - `(a ± b) / r` becomes `a / r ± b / r`;
///
/// each with the new products and quotients pushed inwards in turn. Any
/// other operation is left as it is.
pub open spec fn distributed(op: Op, l: ExpView, r: ExpView) -> ExpView
    decreases l, r,
{
    if op == Op::Mul && l.is_sum() {
        match l {
            ExpView::BinOp(inner, a, b) => ExpView::BinOp(
                inner,
                Box::new(distributed(Op::Mul, *a, r)),
                Box::new(distributed(Op::Mul, *b, r)),
            ),
            _ => l,
        }
    } else if op == Op::Mul && r.is_sum() {
        match r {
            ExpView::BinOp(inner, a, b) => ExpView::BinOp(
                inner,
                Box::new(distributed(Op::Mul, l, *a)),
                Box::new(distributed(Op::Mul, l, *b)),
            ),
            _ => r,
        }
    } else if op == Op::Mul && l.is_negation() {
        match l {
            ExpView::UnOp(neg, a) => ExpView::UnOp(neg, Box::new(distributed(Op::Mul, *a, r))),
            _ => l,
        }
    } else if op == Op::Mul && r.is_negation() {
        match r {
            ExpView::UnOp(neg, b) => ExpView::UnOp(neg, Box::new(distributed(Op::Mul, l, *b))),
            _ => r,
        }
    } else if op == Op::Div && l.is_sum() {
        match l {
            ExpView::BinOp(inner, a, b) => ExpView::BinOp(
                inner,
                Box::new(distributed(Op::Div, *a, r)),
                Box::new(distributed(Op::Div, *b, r)),
            ),
            _ => l,
        }
    } else {
        ExpView::BinOp(op, Box::new(l), Box::new(r))
    }
}

/// The expressions of a list, each flattened.
pub open spec fn flatten_all(items: Seq<ExpView>) -> Seq<ExpView>
    decreases items, 0nat,
{
    Seq::new(
        items.len(),
        |i: int|
            if 0 <= i < items.len() {
                flatten(items[i])
            } else {
                ExpView::Number(Number { negative: false, magnitude: 0, scale: 0 })
            },
    )
}

/// Pushes products and quotients over sums, differences and negations: the
/// two sides of an operation are flattened first, and then the operation is
/// pushed inwards over them, as [`distributed`] says. What a negation
/// negates, what stands between bars, and every expression of the list of a
/// minimum or maximum is flattened.
pub open spec fn flatten(e: ExpView) -> ExpView
    decreases e, 0nat,
{
    match e {
        ExpView::BinOp(op, l, r) => distributed(op, flatten(*l), flatten(*r)),
        ExpView::UnOp(op, inner) => ExpView::UnOp(op, Box::new(flatten(*inner))),
        ExpView::Mod(inner) => ExpView::Mod(Box::new(flatten(*inner))),
        ExpView::Min(items) => ExpView::Min(flatten_all(items)),
        ExpView::Max(items) => ExpView::Max(flatten_all(items)),
        _ => e,
    }
}

impl ExpView {
    /// Nowhere in the expression is there anything left to push inwards: no
    /// product has a sum, a difference or a negation as a side, and no
    /// quotient has a sum or a difference as its left side.
    pub open spec fn is_flat(self) -> bool
        decreases self,
    {
        match self {
            ExpView::BinOp(op, l, r) => {
                &&& !(op == Op::Mul && (l.is_sum() || r.is_sum() || l.is_negation()
                    || r.is_negation()))
                &&& !(op == Op::Div && l.is_sum())
                &&& l.is_flat()
                &&& r.is_flat()
            },
            ExpView::UnOp(_, inner) => inner.is_flat(),
            ExpView::Mod(inner) => inner.is_flat(),
            ExpView::Min(items) => forall|i: int| 0 <= i < items.len() ==> (#[trigger] items[i]).is_flat(),
            ExpView::Max(items) => forall|i: int| 0 <= i < items.len() ==> (#[trigger] items[i]).is_flat(),
            _ => true,
        }
    }
}

/// An operation pushed inwards over two flat expressions is flat.
pub proof fn lemma_distributed_is_flat(op: Op, l: ExpView, r: ExpView)
    requires
        l.is_flat(),
        r.is_flat(),
    ensures
        distributed(op, l, r).is_flat(),
    decreases l, r,
{
    if op == Op::Mul && l.is_sum() {
        match l {
            ExpView::BinOp(_, a, b) => {
                lemma_distributed_is_flat(Op::Mul, *a, r);
                lemma_distributed_is_flat(Op::Mul, *b, r);
            },
            _ => {},
        }
    } else if op == Op::Mul && r.is_sum() {
        match r {
            ExpView::BinOp(_, a, b) => {
                lemma_distributed_is_flat(Op::Mul, l, *a);
                lemma_distributed_is_flat(Op::Mul, l, *b);
            },
            _ => {},
        }
    } else if op == Op::Mul && l.is_negation() {
        match l {
            ExpView::UnOp(_, a) => {
                lemma_distributed_is_flat(Op::Mul, *a, r);
            },
            _ => {},
        }
    } else if op == Op::Mul && r.is_negation() {
        match r {
            ExpView::UnOp(_, b) => {
                lemma_distributed_is_flat(Op::Mul, l, *b);
            },
            _ => {},
        }
    } else if op == Op::Div && l.is_sum() {
        match l {
            ExpView::BinOp(_, a, b) => {
                lemma_distributed_is_flat(Op::Div, *a, r);
                lemma_distributed_is_flat(Op::Div, *b, r);
            },
            _ => {},
        }
    }
}

/// What flattening gives is flat.
pub proof fn lemma_flatten_is_flat(e: ExpView)
    ensures
        flatten(e).is_flat(),
    decreases e,
{
    match e {
        ExpView::BinOp(op, l, r) => {
            lemma_flatten_is_flat(*l);
            lemma_flatten_is_flat(*r);
            lemma_distributed_is_flat(op, flatten(*l), flatten(*r));
        },
        ExpView::UnOp(_, inner) => {
            lemma_flatten_is_flat(*inner);
        },
        ExpView::Mod(inner) => {
            lemma_flatten_is_flat(*inner);
        },
        ExpView::Min(items) => {
            let all = flatten_all(items);
            assert forall|i: int| 0 <= i < all.len() implies (#[trigger] all[i]).is_flat() by {
                lemma_flatten_is_flat(items[i]);
                assert(all[i] == flatten(items[i]));
            }
            assert(flatten(e) == ExpView::Min(all));
            assert(ExpView::Min(all).is_flat());
        },
        ExpView::Max(items) => {
            let all = flatten_all(items);
            assert forall|i: int| 0 <= i < all.len() implies (#[trigger] all[i]).is_flat() by {
                lemma_flatten_is_flat(items[i]);
                assert(all[i] == flatten(items[i]));
            }
            assert(flatten(e) == ExpView::Max(all));
            assert(ExpView::Max(all).is_flat());
        },
        _ => {},
    }
}

/// Flattening leaves an expression as it is exactly when the expression is
/// flat.
pub proof fn lemma_flatten_fixed_point(e: ExpView)
    ensures
        flatten(e) == e <==> e.is_flat(),
    decreases e,
{
    lemma_flatten_is_flat(e);
    match e {
        ExpView::BinOp(op, l, r) => {
            lemma_flatten_fixed_point(*l);
            lemma_flatten_fixed_point(*r);
        },
        ExpView::UnOp(_, inner) => {
            lemma_flatten_fixed_point(*inner);
        },
        ExpView::Mod(inner) => {
            lemma_flatten_fixed_point(*inner);
        },
        ExpView::Min(items) => {
            if e.is_flat() {
                assert forall|i: int| 0 <= i < items.len() implies flatten_all(items)[i]
                    == items[i] by {
                    lemma_flatten_fixed_point(items[i]);
                }
                assert(flatten_all(items) =~= items);
            }
        },
        ExpView::Max(items) => {
            if e.is_flat() {
                assert forall|i: int| 0 <= i < items.len() implies flatten_all(items)[i]
                    == items[i] by {
                    lemma_flatten_fixed_point(items[i]);
                }
                assert(flatten_all(items) =~= items);
            }
        },
        _ => {},
    }
}

/// Flattening twice gives what flattening once gives.
pub proof fn lemma_flatten_idempotent(e: ExpView)
    ensures
        flatten(flatten(e)) == flatten(e),
{
    lemma_flatten_is_flat(e);
    lemma_flatten_fixed_point(flatten(e));
}

/// The texts of a list of expressions.
pub open spec fn exp_texts(items: Seq<ExpView>) -> Seq<Seq<char>>
    decreases items, 0nat,
{
    Seq::new(
        items.len(),
        |i: int|
            if 0 <= i < items.len() {
                exp_text(items[i])
            } else {
                Seq::<char>::empty()
            },
    )
}

/// The text of an expression. The two sides of an operation are written with
/// round brackets where they bind looser than the operation; what a negation
/// negates stands in round brackets unless it is an operation itself.
pub open spec fn exp_text(e: ExpView) -> Seq<char>
    decreases e, 0nat,
{
    match e {
        ExpView::Number(n) => n.text(),
        ExpView::Variable(name) => name,
        ExpView::Mod(inner) => "|"@ + exp_text(*inner) + "|"@,
        ExpView::Min(items) => "min{ "@ + join_text(exp_texts(items), ", "@) + " }"@,
        ExpView::Max(items) => "max{ "@ + join_text(exp_texts(items), ", "@) + " }"@,
        ExpView::BinOp(op, l, r) => exp_text_within(*l, op.precedence_spec()) + " "@ + op.text()
            + " "@ + exp_text_within(*r, op.precedence_spec()),
        ExpView::UnOp(op, inner) => if inner.is_operation() {
            op.text() + exp_text(*inner)
        } else {
            op.text() + "("@ + exp_text(*inner) + ")"@
        },
    }
}

/// The text of an expression that is a side of an operation of the
/// precedence `outer`: an operation that binds looser than that stands in
/// round brackets.
pub open spec fn exp_text_within(e: ExpView, outer: u8) -> Seq<char>
    decreases e, 1nat,
{
    match e {
        ExpView::BinOp(op, l, r) => {
            let inner = exp_text_within(*l, op.precedence_spec()) + " "@ + op.text() + " "@
                + exp_text_within(*r, op.precedence_spec());
            if op.precedence_spec() < outer {
                "("@ + inner + ")"@
            } else {
                inner
            }
        },
        _ => exp_text(e),
    }
}

impl ExpView {
    /// The expression is an operation on one or two expressions.
    pub open spec fn is_operation(self) -> bool {
        self is BinOp || self is UnOp
    }
}

impl Exp {
    /// A copy of the expression.
    pub fn duplicate(&self) -> (r: Exp)
        ensures
            r@ == self@,
        decreases self,
    {
        match self {
            Exp::Number(n) => Exp::Number(*n),
            Exp::Variable(s) => Exp::Variable(s.clone()),
            Exp::Mod(e) => Exp::Mod(Box::new(e.duplicate())),
            Exp::Min(v) => {
                let mut out: Vec<Exp> = Vec::new();
                let mut i: usize = 0;
                while i < v.len()
                    invariant
                        i <= v.len(),
                        self is Min,
                        self->Min_0 == *v,
                        out.len() == i,
                        forall|j: int| 0 <= j < i ==> out[j]@ == v[j]@,
                    decreases v.len() - i,
                {
                    out.push(v[i].duplicate());
                    i = i + 1;
                }
                assert(exp_views(out@) =~= exp_views(v@));
                Exp::Min(out)
            },
            Exp::Max(v) => {
                let mut out: Vec<Exp> = Vec::new();
                let mut i: usize = 0;
                while i < v.len()
                    invariant
                        i <= v.len(),
                        self is Max,
                        self->Max_0 == *v,
                        out.len() == i,
                        forall|j: int| 0 <= j < i ==> out[j]@ == v[j]@,
                    decreases v.len() - i,
                {
                    out.push(v[i].duplicate());
                    i = i + 1;
                }
                assert(exp_views(out@) =~= exp_views(v@));
                Exp::Max(out)
            },
            Exp::BinOp(op, l, r) => Exp::BinOp(
                *op,
                Box::new(l.duplicate()),
                Box::new(r.duplicate()),
            ),
            Exp::UnOp(op, e) => Exp::UnOp(*op, Box::new(e.duplicate())),
        }
    }

    /// The operation `op` on the two expressions, in a box.
    pub fn make_binop(op: Op, lhs: Exp, rhs: Exp) -> (r: Box<Exp>)
        ensures
            r@ == ExpView::BinOp(op, Box::new(lhs@), Box::new(rhs@)),
    {
        Box::new(Exp::BinOp(op, Box::new(lhs), Box::new(rhs)))
    }

    /// The expression in a box.
    pub fn to_box(self) -> (r: Box<Exp>)
        ensures
            *r == self,
    {
        Box::new(self)
    }

    /// Whether the expression is an operation on one or two expressions.
    pub fn is_leaf(&self) -> (r: bool)
        ensures
            r == self@.is_operation(),
    {
        match self {
            Exp::BinOp(_, _, _) => true,
            Exp::UnOp(_, _) => true,
            _ => false,
        }
    }

    /// Whether the expression is a sum or a difference.
    pub fn is_sum(&self) -> (r: bool)
        ensures
            r == self@.is_sum(),
    {
        match self {
            Exp::BinOp(Op::Add, _, _) => true,
            Exp::BinOp(Op::Sub, _, _) => true,
            _ => false,
        }
    }

    /// Whether the expression is a negation.
    pub fn is_negation(&self) -> (r: bool)
        ensures
            r == self@.is_negation(),
    {
        match self {
            Exp::UnOp(_, _) => true,
            _ => false,
        }
    }

    /// The operator and the two sides of an operation on two expressions.
    fn into_sides(self) -> (r: (Op, Exp, Exp))
        requires
            self@ is BinOp,
        ensures
            self@ == ExpView::BinOp(r.0, Box::new(r.1@), Box::new(r.2@)),
    {
        match self {
            Exp::BinOp(op, l, r) => (op, *l, *r),
            other => (Op::Add, other.duplicate(), other),
        }
    }

    /// The operator of a negation and what it negates.
    fn into_negated(self) -> (r: (UnOp, Exp))
        requires
            self@ is UnOp,
        ensures
            self@ == ExpView::UnOp(r.0, Box::new(r.1@)),
    {
        match self {
            Exp::UnOp(op, e) => (op, *e),
            other => (UnOp::Neg, other),
        }
    }

    /// The operation `op` on two flat expressions, with the product or the
    /// quotient pushed inwards.
    fn distribute(op: Op, l: Exp, r: Exp) -> (out: Exp)
        requires
            l@.is_flat(),
            r@.is_flat(),
        ensures
            out@ == distributed(op, l@, r@),
            out@.is_flat(),
        decreases l@, r@,
    {
        proof {
            lemma_distributed_is_flat(op, l@, r@);
        }
        let is_mul = matches!(op, Op::Mul);
        let is_div = matches!(op, Op::Div);
        if is_mul && l.is_sum() {
            let (inner, a, b) = l.into_sides();
            let c = r.duplicate();
            Exp::BinOp(
                inner,
                Box::new(Exp::distribute(Op::Mul, a, c)),
                Box::new(Exp::distribute(Op::Mul, b, r)),
            )
        } else if is_mul && r.is_sum() {
            let (inner, a, b) = r.into_sides();
            let c = l.duplicate();
            Exp::BinOp(
                inner,
                Box::new(Exp::distribute(Op::Mul, c, a)),
                Box::new(Exp::distribute(Op::Mul, l, b)),
            )
        } else if is_mul && l.is_negation() {
            let (neg, a) = l.into_negated();
            Exp::UnOp(neg, Box::new(Exp::distribute(Op::Mul, a, r)))
        } else if is_mul && r.is_negation() {
            let (neg, b) = r.into_negated();
            Exp::UnOp(neg, Box::new(Exp::distribute(Op::Mul, l, b)))
        } else if is_div && l.is_sum() {
            let (inner, a, b) = l.into_sides();
            let c = r.duplicate();
            Exp::BinOp(
                inner,
                Box::new(Exp::distribute(Op::Div, a, c)),
                Box::new(Exp::distribute(Op::Div, b, r)),
            )
        } else {
            Exp::BinOp(op, Box::new(l), Box::new(r))
        }
    }

    /// Pushes products and quotients over sums, differences and negations.
    /// What comes out is flat, so that flattening it again changes nothing.
    pub fn flatten(self) -> (r: Exp)
        ensures
            r@ == flatten(self@),
            r@.is_flat(),
        decreases self@, 0nat,
    {
        proof {
            lemma_flatten_is_flat(self@);
        }
        match self {
            Exp::BinOp(op, l, r) => {
                proof {
                    lemma_flatten_is_flat(l@);
                    lemma_flatten_is_flat(r@);
                }
                Exp::distribute(op, l.flatten(), r.flatten())
            },
            Exp::UnOp(op, inner) => Exp::UnOp(op, Box::new(inner.flatten())),
            Exp::Mod(inner) => Exp::Mod(Box::new(inner.flatten())),
            Exp::Min(items) => Exp::Min(Exp::flatten_list(&items)),
            Exp::Max(items) => Exp::Max(Exp::flatten_list(&items)),
            other => other,
        }
    }

    /// The expressions of a list, each flattened.
    fn flatten_list(items: &Vec<Exp>) -> (r: Vec<Exp>)
        ensures
            exp_views(r@) == flatten_all(exp_views(items@)),
        decreases exp_views(items@), 0nat,
    {
        let mut out: Vec<Exp> = Vec::new();
        let mut i: usize = 0;
        while i < items.len()
            invariant
                i <= items.len(),
                out.len() == i,
                forall|j: int| 0 <= j < i ==> (#[trigger] out[j])@ == flatten(items[j]@),
            decreases items.len() - i,
        {
            assert(exp_views(items@)[i as int] == items[i as int]@);
            out.push(items[i].duplicate().flatten());
            i = i + 1;
        }
        assert(exp_views(out@) =~= flatten_all(exp_views(items@)));
        out
    }

    /// The texts of the expressions of a list.
    fn texts(items: &Vec<Exp>) -> (r: Vec<String>)
        ensures
            r.deep_view() == exp_texts(exp_views(items@)),
        decreases items, 1nat,
    {
        let mut parts: Vec<String> = Vec::new();
        let mut i: usize = 0;
        while i < items.len()
            invariant
                i <= items.len(),
                parts.len() == i,
                forall|j: int| 0 <= j < i ==> parts[j]@ == exp_text(items[j]@),
            decreases items.len() - i,
        {
            parts.push(items[i].to_string());
            i = i + 1;
        }
        assert(parts.deep_view() =~= exp_texts(exp_views(items@)));
        parts
    }

    /// The text of the expression.
    pub fn to_string(&self) -> (r: String)
        ensures
            r@ == exp_text(self@),
        decreases self, 0nat,
    {
        match self {
            Exp::Number(value) => value.to_string(),
            Exp::Variable(name) => name.clone(),
            Exp::Mod(exp) => {
                let mut out = owned("|");
                out.append(exp.to_string().as_str());
                out.append("|");
                out
            },
            Exp::Min(exps) => {
                let parts = Exp::texts(exps);
                let mut out = owned("min{ ");
                out.append(join(&parts, ", ").as_str());
                out.append(" }");
                out
            },
            Exp::Max(exps) => {
                let parts = Exp::texts(exps);
                let mut out = owned("max{ ");
                out.append(join(&parts, ", ").as_str());
                out.append(" }");
                out
            },
            Exp::BinOp(operator, lhs, rhs) => {
                let mut out = lhs.to_string_with_precedence(operator.precedence());
                out.append(" ");
                out.append(operator.to_string().as_str());
                out.append(" ");
                out.append(rhs.to_string_with_precedence(operator.precedence()).as_str());
                out
            },
            Exp::UnOp(op, exp) => {
                let mut out = op.to_string();
                if exp.is_leaf() {
                    out.append(exp.to_string().as_str());
                } else {
                    out.append("(");
                    out.append(exp.to_string().as_str());
                    out.append(")");
                }
                out
            },
        }
    }

    /// The text of the expression as a side of an operation of the precedence
    /// `last_precedence`.
    pub fn to_string_with_precedence(&self, last_precedence: u8) -> (r: String)
        ensures
            r@ == exp_text_within(self@, last_precedence),
        decreases self, 1nat,
    {
        match self {
            Exp::BinOp(op, lhs, rhs) => {
                let precedence = op.precedence();
                let mut inner = lhs.to_string_with_precedence(precedence);
                inner.append(" ");
                inner.append(op.to_string().as_str());
                inner.append(" ");
                inner.append(rhs.to_string_with_precedence(precedence).as_str());
                if precedence < last_precedence {
                    let mut out = owned("(");
                    out.append(inner.as_str());
                    out.append(")");
                    out
                } else {
                    inner
                }
            },
            _ => self.to_string(),
        }
    }
}

impl Clone for Exp {
    fn clone(&self) -> (r: Exp)
        ensures
            r@ == self@,
    {
        self.duplicate()
    }
}

} // verus!
