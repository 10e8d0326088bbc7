//! The kind of an expression in scopes of kinds.
use vstd::prelude::*;
use vstd::string::*;
use crate::error::ErrorView;
use crate::parser::evaluator::{
    lemma_size_exp_positive, size_call, size_exp, size_exps, size_parameter,
};
use crate::parser::pre_exp::{AddressableAccess, BuiltinFunction, Parameter, PreExp};
use crate::parser::printer::pre_exp_text;
use crate::parser::transformer::lookup;
use crate::primitives::kind::{can_apply_binary, can_apply_unary, kind_text, KindView};
use crate::text::nat_text;

verus! {

/// A frame of kinds as a mathematical value.
pub type KindFrame = Map<Seq<char>, KindView>;

/// A stack of frames of kinds as a mathematical value, the innermost last.
pub type KindContext = Seq<KindFrame>;

/// How many times a kind is an iterable of an iterable.
pub open spec fn depth_of(k: KindView) -> nat
    decreases k,
{
    match k {
        KindView::Iterable(inner) => 1 + depth_of(*inner),
        _ => 0,
    }
}

/// The kind that is left once every `Iterable` around a kind is taken away.
pub open spec fn innermost(k: KindView) -> KindView
    decreases k,
{
    match k {
        KindView::Iterable(inner) => innermost(*inner),
        _ => k,
    }
}

/// The kind that a name stands for, and `Undefined` where it is not
/// declared.
pub open spec fn declared_kind(ctx: KindContext, name: Seq<char>) -> KindView {
    match lookup(ctx, name) {
        Some(k) => k,
        None => KindView::Undefined,
    }
}

/// The message for an index that is no number.
pub open spec fn index_kind_text(got: KindView, access: Seq<char>) -> Seq<char> {
    "Expected value of type \"Number\" to index array, got \""@ + kind_text(got)
        + "\", check the definition of \""@ + access + "\""@
}

/// The message for an access into something with more dimensions than the
/// access has indexes.
pub open spec fn dimensions_text(name: Seq<char>, indexes: nat, dimensions: nat) -> Seq<char> {
    "Indexing "@ + name + " with "@ + nat_text(indexes) + " indexes, but it only has "@
        + nat_text(dimensions) + " dimensions"@
}

/// The kind of an argument of a built-in function.
pub open spec fn parameter_kind(p: Parameter, ctx: KindContext) -> KindView
    decreases size_parameter(p), 0nat,
{
    match p {
        Parameter::Number(_) => KindView::Number,
        Parameter::String(_) => KindView::String,
        Parameter::Variable(name) => declared_kind(ctx, name@),
        Parameter::CompoundVariable(c) => declared_kind(ctx, c.name@),
        Parameter::ArrayAccess(a) => match accessed_kind(a, ctx) {
            Ok(k) => k,
            Err(_) => KindView::Undefined,
        },
        Parameter::FunctionCall(f) => call_kind(*f, ctx),
    }
}

/// The kind of what a call of a built-in function gives.
pub open spec fn call_kind(f: BuiltinFunction, ctx: KindContext) -> KindView
    decreases size_call(f), 0nat,
{
    match f {
        BuiltinFunction::Edges(_) => KindView::Iterable(Box::new(KindView::GraphEdge)),
        BuiltinFunction::Nodes(_) => KindView::Iterable(Box::new(KindView::GraphNode)),
        BuiltinFunction::NeighbourEdges(_) => KindView::Iterable(Box::new(KindView::GraphEdge)),
        BuiltinFunction::NeighboursOf(_) => KindView::Iterable(Box::new(KindView::GraphEdge)),
        BuiltinFunction::Len(_) => KindView::Number,
        BuiltinFunction::Enumerate(x) => match parameter_kind(x.array, ctx) {
            KindView::Iterable(element) => KindView::Iterable(
                Box::new(KindView::Tuple(seq![*element, KindView::Number])),
            ),
            _ => KindView::Undefined,
        },
        BuiltinFunction::Range(_) => KindView::Iterable(Box::new(KindView::Number)),
    }
}

/// The error for the first access, from `from` on, that is no number.
pub open spec fn unindexable(accesses: Seq<PreExp>, ctx: KindContext, from: int) -> Option<
    ErrorView,
>
    decreases size_exps(accesses, from), 1nat,
{
    if from < 0 || from >= accesses.len() {
        None
    } else {
        proof {
            lemma_size_exp_positive(accesses[from]);
        }
        if !(kind_of(accesses[from], ctx) is Number) {
            Some(
                ErrorView::WrongArgument(
                    index_kind_text(kind_of(accesses[from], ctx), pre_exp_text(accesses[from])),
                ),
            )
        } else {
            unindexable(accesses, ctx, from + 1)
        }
    }
}

/// The count of the dimensions of a kind as far as it can be counted.
pub open spec fn counted_depth(k: KindView) -> nat {
    if depth_of(k) > usize::MAX {
        usize::MAX as nat
    } else {
        depth_of(k)
    }
}

/// The kind of what an access leads to: `MissingVariable` where the name is
/// not declared, `WrongArgument` for the first index that is no number, and
/// `OutOfBounds` where what the name stands for has more dimensions than the
/// access has indexes; else the kind that is left once every `Iterable` is
/// taken away.
pub open spec fn accessed_kind(a: AddressableAccess, ctx: KindContext) -> Result<
    KindView,
    ErrorView,
>
    decreases size_exps(a.accesses@, 0), 2nat,
{
    match lookup(ctx, a.name@) {
        None => Err(ErrorView::MissingVariable(a.name@)),
        Some(v) => match unindexable(a.accesses@, ctx, 0) {
            Some(e) => Err(e),
            None => if depth_of(v) > a.accesses.len() {
                Err(
                    ErrorView::OutOfBounds(
                        dimensions_text(a.name@, a.accesses.len() as nat, counted_depth(v)),
                    ),
                )
            } else {
                Ok(innermost(v))
            },
        },
    }
}

/// The kind of an expression in the scopes `ctx`. An expression whose kind
/// cannot be told is of the kind `Undefined`.
pub open spec fn kind_of(e: PreExp, ctx: KindContext) -> KindView
    decreases size_exp(e), 0nat,
{
    match e {
        PreExp::Number(_) => KindView::Number,
        PreExp::Variable(name) => declared_kind(ctx, name.value@),
        PreExp::CompoundVariable(c) => declared_kind(ctx, c.value.name@),
        PreExp::ArrayAccess(a) => match accessed_kind(a.value, ctx) {
            Ok(k) => k,
            Err(_) => KindView::Undefined,
        },
        PreExp::FunctionCall(_, f) => call_kind(f, ctx),
        PreExp::BinaryOperation(op, l, r) => if can_apply_binary(
            kind_of(*l, ctx),
            op.value,
            kind_of(*r, ctx),
        ) {
            kind_of(*l, ctx)
        } else {
            KindView::Undefined
        },
        PreExp::UnaryOperation(op, x) => if can_apply_unary(kind_of(*x, ctx), op.value) {
            kind_of(*x, ctx)
        } else {
            KindView::Undefined
        },
        PreExp::Mod(_, _) => KindView::Number,
        PreExp::BlockFunction(_) => KindView::Number,
        PreExp::BlockScopedFunction(_) => KindView::Number,
    }
}

} // verus!
