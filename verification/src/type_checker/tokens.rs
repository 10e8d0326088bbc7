//! The map of the tokens of a model with their kinds: every expression is
//! noted at the place where it stands, with the kind that it has in the
//! scopes around it, and every name that a block binds with the kind of what
//! it is bound to.
use std::collections::HashMap;
use vstd::prelude::*;
use vstd::string::*;
use crate::error::{ErrorView, TransformError};
use crate::parser::evaluator::{
    lemma_size_exp_positive, lemma_size_exps_member, outer, size_exp, size_exps, size_sets,
};
use crate::parser::pre_exp::{
    DomainVariable, IterableSet, PreCondition, PreExp, PreProblem, VariableType,
};
use crate::parser::printer::lemma_size_sets_member;
use crate::primitives::kind::{KindView, PrimitiveKind};
use crate::span::Spanned;
use crate::type_checker::checker::{bind_kinds, bound_kinds, leave, problem_context, problem_scopes};
use crate::type_checker::kinds::{declared_kind, kind_of, KindContext};
use crate::type_checker::type_checker_context::{
    constant_tokens, token_map_view, with_token, TokenMap, TypeCheckable, TypeCheckerContext,
    TypedToken,
};

verus! {

/// The name that an expression is, where it is one.
pub open spec fn identifier_of(e: PreExp) -> Option<Seq<char>> {
    match e {
        PreExp::Variable(name) => Some(name.value@),
        _ => None,
    }
}

/// The tokens `tokens` and those of the names of a list, from `from` on,
/// each with the kind that it is declared with in `ctx`.
pub open spec fn names_noted(
    names: Seq<Spanned<String>>,
    from: int,
    ctx: KindContext,
    tokens: TokenMap,
) -> TokenMap
    decreases names.len() - from,
{
    if from < 0 || from >= names.len() {
        tokens
    } else {
        names_noted(
            names,
            from + 1,
            ctx,
            with_token(
                tokens,
                names[from].span,
                declared_kind(ctx, names[from].value@),
                Some(names[from].value@),
            ),
        )
    }
}

/// The tokens `tokens` and those of the names that an iteration set binds.
pub open spec fn pattern_noted(var: VariableType, ctx: KindContext, tokens: TokenMap) -> TokenMap {
    match var {
        VariableType::Single(name) => with_token(
            tokens,
            name.span,
            declared_kind(ctx, name.value@),
            Some(name.value@),
        ),
        VariableType::Tuple(names) => names_noted(names@, 0, ctx, tokens),
    }
}

/// The tokens `tokens` and those of the iteration sets of a list, from
/// `from` on, with the scopes in which all their names are declared. Where
/// a producer is no iterable, or names cannot be bound, the tokens end with
/// those of that producer, and there are no such scopes.
pub open spec fn sets_noted(sets: Seq<IterableSet>, from: int, ctx: KindContext, tokens: TokenMap)
    -> (Option<KindContext>, TokenMap)
    decreases size_sets(sets, from), 1nat,
{
    if from < 0 || from >= sets.len() {
        (Some(ctx), tokens)
    } else {
        let after = exp_noted(sets[from].iterator.value, ctx, tokens);
        match kind_of(sets[from].iterator.value, ctx) {
            KindView::Iterable(element) => match bound_kinds(ctx, sets[from].var, *element) {
                Ok(inner) => sets_noted(
                    sets,
                    from + 1,
                    inner,
                    pattern_noted(sets[from].var, inner, after),
                ),
                Err(_) => (None, after),
            },
            _ => (None, after),
        }
    }
}

/// The tokens `tokens` and those of the expressions of a list, from `from`
/// on.
pub open spec fn exps_noted(items: Seq<PreExp>, from: int, ctx: KindContext, tokens: TokenMap)
    -> TokenMap
    decreases size_exps(items, from), 1nat,
{
    if from < 0 || from >= items.len() {
        tokens
    } else {
        proof {
            lemma_size_exp_positive(items[from]);
        }
        exps_noted(items, from + 1, ctx, exp_noted(items[from], ctx, tokens))
    }
}

/// The tokens `tokens` and those of an expression: first those of its
/// parts, from left to right, then the expression itself, at its place and
/// with the kind that it has in `ctx`. The parts of a block are noted in
/// the scopes of its iteration sets; the arguments of a call have no places
/// and are not noted.
pub open spec fn exp_noted(e: PreExp, ctx: KindContext, tokens: TokenMap) -> TokenMap
    decreases size_exp(e), 0nat,
{
    let parts = match e {
        PreExp::Number(_) => tokens,
        PreExp::Variable(_) => tokens,
        PreExp::CompoundVariable(_) => tokens,
        PreExp::FunctionCall(_, _) => tokens,
        PreExp::Mod(_, x) => exp_noted(*x, ctx, tokens),
        PreExp::UnaryOperation(_, x) => exp_noted(*x, ctx, tokens),
        PreExp::BinaryOperation(_, l, r) => exp_noted(*r, ctx, exp_noted(*l, ctx, tokens)),
        PreExp::ArrayAccess(a) => exps_noted(a.value.accesses@, 0, ctx, tokens),
        PreExp::BlockFunction(f) => exps_noted(f.value.exps@, 0, ctx, tokens),
        PreExp::BlockScopedFunction(f) => match sets_noted(
            f.value.iters@,
            0,
            ctx.push(Map::<Seq<char>, KindView>::empty()),
            tokens,
        ) {
            (Some(inner), found) => exp_noted(*f.value.exp, inner, found),
            (None, found) => found,
        },
    };
    with_token(parts, e.span_spec(), kind_of(e, ctx), identifier_of(e))
}

/// The tokens `tokens` and those of a condition: those of its iteration
/// sets, and then, in their scopes, those of its two sides.
pub open spec fn condition_noted(c: PreCondition, ctx: KindContext, tokens: TokenMap) -> TokenMap {
    match sets_noted(c.iteration@, 0, ctx.push(Map::<Seq<char>, KindView>::empty()), tokens) {
        (Some(inner), found) => exp_noted(c.rhs, inner, exp_noted(c.lhs, inner, found)),
        (None, found) => found,
    }
}

/// The tokens `tokens` and those of the conditions of a list, from `from`
/// on.
pub open spec fn conditions_noted(
    items: Seq<PreCondition>,
    from: int,
    ctx: KindContext,
    tokens: TokenMap,
) -> TokenMap
    decreases items.len() - from,
{
    if from < 0 || from >= items.len() {
        tokens
    } else {
        conditions_noted(items, from + 1, ctx, condition_noted(items[from], ctx, tokens))
    }
}

/// The tokens `tokens` and those of the names of the variables of a list,
/// from `from` on: each is a number.
pub open spec fn variables_noted(variables: Seq<DomainVariable>, from: int, tokens: TokenMap)
    -> TokenMap
    decreases variables.len() - from,
{
    if from < 0 || from >= variables.len() {
        tokens
    } else {
        variables_noted(
            variables,
            from + 1,
            with_token(
                tokens,
                variables[from].name.span,
                KindView::Number,
                Some(variables[from].name.value@),
            ),
        )
    }
}

/// The tokens of a model with the variables `variables`: the names of its
/// constants, the names of its variables, its objective, and its
/// conditions, in this order; the error of a variable that cannot be
/// declared.
pub open spec fn problem_tokens(p: PreProblem, variables: Seq<DomainVariable>) -> Result<
    TokenMap,
    ErrorView,
> {
    match problem_scopes(p, variables) {
        Err(e) => Err(e),
        Ok(ctx) => Ok(
            conditions_noted(
                p.conditions@,
                0,
                ctx,
                exp_noted(
                    p.objective.rhs,
                    ctx,
                    variables_noted(
                        variables,
                        0,
                        constant_tokens(p.constants@, p.constants.len() as int),
                    ),
                ),
            ),
        ),
    }
}

/// Notes the names of a list with the kinds that `context` declares them
/// with.
fn note_names(names: &Vec<Spanned<String>>, context: &mut TypeCheckerContext)
    requires
        old(context).well_formed(),
    ensures
        final(context).well_formed(),
        final(context)@ == old(context)@,
        final(context).tokens() == names_noted(names@, 0, old(context)@, old(context).tokens()),
{
    let mut i: usize = 0;
    while i < names.len()
        invariant
            i <= names.len(),
            context.well_formed(),
            context@ == old(context)@,
            names_noted(names@, 0, old(context)@, old(context).tokens()) == names_noted(
                names@,
                i as int,
                context@,
                context.tokens(),
            ),
        decreases names.len() - i,
    {
        let kind = context.kind_of_name(names[i].value.as_str());
        context.note_token(kind, names[i].span, Some(names[i].value.clone()));
        i = i + 1;
    }
}

/// Notes the names that an iteration set binds.
fn note_pattern(var: &VariableType, context: &mut TypeCheckerContext)
    requires
        old(context).well_formed(),
    ensures
        final(context).well_formed(),
        final(context)@ == old(context)@,
        final(context).tokens() == pattern_noted(*var, old(context)@, old(context).tokens()),
{
    match var {
        VariableType::Single(name) => {
            let kind = context.kind_of_name(name.value.as_str());
            context.note_token(kind, name.span, Some(name.value.clone()));
        },
        VariableType::Tuple(names) => note_names(names, context),
    }
}

/// Notes the iteration sets of a list and declares their names in the
/// innermost frame of `context`. Tells whether every set could be bound.
pub(crate) fn note_sets(sets: &Vec<IterableSet>, context: &mut TypeCheckerContext) -> (r: bool)
    requires
        old(context).well_formed(),
    ensures
        final(context).well_formed(),
        final(context)@.len() == old(context)@.len(),
        outer(final(context)@) == outer(old(context)@),
        final(context).tokens() == sets_noted(sets@, 0, old(context)@, old(context).tokens()).1,
        r ==> sets_noted(sets@, 0, old(context)@, old(context).tokens()).0 == Some(
            final(context)@,
        ),
        !r ==> sets_noted(sets@, 0, old(context)@, old(context).tokens()).0 is None,
    decreases size_sets(sets@, 0), 1nat,
{
    let mut i: usize = 0;
    while i < sets.len()
        invariant
            i <= sets.len(),
            context.well_formed(),
            context@.len() == old(context)@.len(),
            outer(context@) == outer(old(context)@),
            sets_noted(sets@, 0, old(context)@, old(context).tokens()) == sets_noted(
                sets@,
                i as int,
                context@,
                context.tokens(),
            ),
        decreases sets.len() - i,
    {
        proof {
            lemma_size_sets_member(sets@, 0, i as int);
        }
        let set = &sets[i];
        set.iterator.value.note(context);
        let kind = set.iterator.value.infer(context);
        match kind {
            PrimitiveKind::Iterable(element) => {
                match bind_kinds(&set.var, &element, context) {
                    Ok(_) => {
                        note_pattern(&set.var, context);
                    },
                    Err(_) => {
                        return false;
                    },
                }
            },
            _ => {
                return false;
            },
        }
        i = i + 1;
    }
    true
}

/// Notes the expressions of a list.
fn note_all(items: &Vec<PreExp>, context: &mut TypeCheckerContext)
    requires
        old(context).well_formed(),
    ensures
        final(context).well_formed(),
        final(context)@ == old(context)@,
        final(context).tokens() == exps_noted(items@, 0, old(context)@, old(context).tokens()),
    decreases size_exps(items@, 0), 1nat,
{
    let mut i: usize = 0;
    while i < items.len()
        invariant
            i <= items.len(),
            context.well_formed(),
            context@ == old(context)@,
            exps_noted(items@, 0, old(context)@, old(context).tokens()) == exps_noted(
                items@,
                i as int,
                context@,
                context.tokens(),
            ),
        decreases items.len() - i,
    {
        proof {
            lemma_size_exps_member(items@, 0, i as int);
        }
        items[i].note(context);
        i = i + 1;
    }
}

impl PreExp {
    /// Notes the expression and its parts in the tokens of `context`. The
    /// scopes are left as they were found.
    pub fn note(&self, context: &mut TypeCheckerContext)
        requires
            old(context).well_formed(),
        ensures
            final(context).well_formed(),
            final(context)@ == old(context)@,
            final(context).tokens() == exp_noted(*self, old(context)@, old(context).tokens()),
        decreases size_exp(*self), 0nat,
    {
        let mut identifier: Option<String> = None;
        match self {
            PreExp::Number(_) => {},
            PreExp::Variable(name) => {
                identifier = Some(name.value.clone());
            },
            PreExp::CompoundVariable(_) => {},
            PreExp::FunctionCall(_, _) => {},
            PreExp::Mod(_, x) => x.note(context),
            PreExp::UnaryOperation(_, x) => x.note(context),
            PreExp::BinaryOperation(_, l, r) => {
                l.note(context);
                r.note(context);
            },
            PreExp::ArrayAccess(a) => note_all(&a.value.accesses, context),
            PreExp::BlockFunction(f) => note_all(&f.value.exps, context),
            PreExp::BlockScopedFunction(f) => {
                context.add_scope();
                assert(outer(context@) =~= old(context)@);
                if note_sets(&f.value.iters, context) {
                    f.value.exp.note(context);
                }
                leave(context);
            },
        }
        let kind = self.infer(context);
        context.note_token(kind, *self.span(), identifier);
    }
}

/// The tokens of a model with the variables `variables`, each with its
/// kind; the error of a variable that cannot be declared.
pub fn typed_tokens(problem: &PreProblem, variables: &Vec<DomainVariable>) -> (r: Result<
    HashMap<usize, TypedToken>,
    TransformError,
>)
    ensures
        match r {
            Ok(map) => problem_tokens(*problem, variables@) == Ok::<TokenMap, ErrorView>(
                token_map_view(map@),
            ),
            Err(e) => problem_tokens(*problem, variables@) == Err::<TokenMap, ErrorView>(e@),
        },
{
    let mut context = match problem_context(problem, variables) {
        Ok(c) => c,
        Err(e) => {
            return Err(e);
        },
    };
    let ghost ctx = context@;
    let ghost start = context.tokens();
    let mut i: usize = 0;
    while i < variables.len()
        invariant
            i <= variables.len(),
            context.well_formed(),
            context@ == ctx,
            variables_noted(variables@, 0, start) == variables_noted(
                variables@,
                i as int,
                context.tokens(),
            ),
        decreases variables.len() - i,
    {
        context.note_token(
            PrimitiveKind::Number,
            variables[i].name.span,
            Some(variables[i].name.value.clone()),
        );
        i = i + 1;
    }
    problem.objective.populate_token_type_map(&mut context);
    let ghost noted = context.tokens();
    let mut k: usize = 0;
    while k < problem.conditions.len()
        invariant
            k <= problem.conditions.len(),
            context.well_formed(),
            context@ == ctx,
            conditions_noted(problem.conditions@, 0, ctx, noted) == conditions_noted(
                problem.conditions@,
                k as int,
                ctx,
                context.tokens(),
            ),
        decreases problem.conditions.len() - k,
    {
        problem.conditions[k].populate_token_type_map(&mut context);
        k = k + 1;
    }
    Ok(context.into_token_map())
}

} // verus!
