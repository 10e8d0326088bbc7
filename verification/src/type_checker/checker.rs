//! The check of the tree of a model: every name must be declared, every
//! operator and built-in function must be given operands of the kinds that
//! it takes, and the body of every block must be a number.
use vstd::prelude::*;
use vstd::string::*;
use crate::error::{ErrorView, TransformError};
use crate::math::Op;
use crate::parser::evaluator::{
    destructure_text, lemma_size_exp_positive, lemma_size_exps_member, outer, pattern_names,
    size_call, size_exp, size_exps, size_parameter, size_sets, spanned,
};
use crate::parser::pre_exp::{
    name_texts, AddressableAccess, BuiltinFunction, DomainVariable, IterableSet, Parameter,
    PreCondition, PreExp, PreObjective, PreProblem, VariableType,
};
use crate::parser::printer::lemma_size_sets_member;
use crate::parser::transformer::{is_sink, lookup};
use crate::primitives::kind::{
    can_apply_binary, can_apply_unary, kind_text, kind_views, KindView, PrimitiveKind,
};
use crate::primitives::primitive::{wrong_argument, wrong_argument_text};
use crate::text::{owned, same_text, usize_to_string};
use crate::type_checker::kinds::{accessed_kind, kind_of, parameter_kind, KindContext};
use crate::type_checker::tokens::{condition_noted, exp_noted, note_sets};
use crate::type_checker::type_checker_context::{
    compound_checked, constant_kinds, constant_tokens, kinds_frame, TokenMap, TypeCheckable,
    TypeCheckerContext,
};

verus! {

/// The check that a kind is the one expected.
pub open spec fn expect_kind(expected: KindView, name: Seq<char>, got: KindView) -> Result<
    (),
    ErrorView,
> {
    if got == expected {
        Ok(())
    } else {
        Err(ErrorView::WrongArgument(wrong_argument_text(name, got)))
    }
}

/// The check that a kind is a kind of iterables.
pub open spec fn expect_iterable_kind(got: KindView) -> Result<(), ErrorView> {
    if got is Iterable {
        Ok(())
    } else {
        Err(ErrorView::WrongArgument(wrong_argument_text("Iterable"@, got)))
    }
}

/// The message for an operator on two operands of kinds that it does not
/// take.
pub open spec fn binary_kinds_text(op: Op, lhs: KindView, rhs: KindView) -> Seq<char> {
    "Cannot apply operator "@ + op.text() + " to operands of kind "@ + kind_text(lhs) + " and "@
        + kind_text(rhs)
}

/// The message for an operator on an operand of a kind that it does not
/// take.
pub open spec fn unary_kind_text(op: Seq<char>, operand: KindView) -> Seq<char> {
    "Cannot apply operator "@ + op + " to an operand of kind "@ + kind_text(operand)
}

/// What the check of an argument of a built-in function gives.
pub open spec fn parameter_checked(p: Parameter, ctx: KindContext) -> Result<(), ErrorView>
    decreases size_parameter(p), 0nat,
{
    match p {
        Parameter::Number(_) => Ok(()),
        Parameter::String(_) => Ok(()),
        Parameter::Variable(name) => match lookup(ctx, name@) {
            Some(_) => Ok(()),
            None => Err(ErrorView::MissingVariable(name@)),
        },
        Parameter::CompoundVariable(c) => match compound_checked(ctx, c.indexes.deep_view(), 0) {
            Err(e) => Err(e),
            Ok(_) => match lookup(ctx, c.name@) {
                Some(_) => Ok(()),
                None => Err(ErrorView::MissingVariable(c.name@)),
            },
        },
        Parameter::ArrayAccess(a) => access_checked(a, ctx),
        Parameter::FunctionCall(f) => call_checked(*f, ctx),
    }
}

/// What the check of one argument gives that must be of the kind
/// `expected`.
pub open spec fn argument_checked(
    p: Parameter,
    ctx: KindContext,
    expected: KindView,
    name: Seq<char>,
) -> Result<(), ErrorView>
    decreases size_parameter(p), 1nat,
{
    match parameter_checked(p, ctx) {
        Err(e) => Err(e),
        Ok(_) => expect_kind(expected, name, parameter_kind(p, ctx)),
    }
}

/// What the check of one argument gives that must be an iterable.
pub open spec fn iterable_argument_checked(p: Parameter, ctx: KindContext) -> Result<
    (),
    ErrorView,
>
    decreases size_parameter(p), 1nat,
{
    match parameter_checked(p, ctx) {
        Err(e) => Err(e),
        Ok(_) => expect_iterable_kind(parameter_kind(p, ctx)),
    }
}

/// What the check of a call of a built-in function gives: each argument is
/// checked and held to the kind that the function takes at its place.
pub open spec fn call_checked(f: BuiltinFunction, ctx: KindContext) -> Result<(), ErrorView>
    decreases size_call(f), 0nat,
{
    match f {
        BuiltinFunction::Edges(x) => argument_checked(x.of_graph, ctx, KindView::Graph, "Graph"@),
        BuiltinFunction::Nodes(x) => argument_checked(x.of_graph, ctx, KindView::Graph, "Graph"@),
        BuiltinFunction::NeighbourEdges(x) => argument_checked(
            x.of_node,
            ctx,
            KindView::GraphNode,
            "GraphNode"@,
        ),
        BuiltinFunction::NeighboursOf(x) => match argument_checked(
            x.of_node,
            ctx,
            KindView::String,
            "String"@,
        ) {
            Err(e) => Err(e),
            Ok(_) => argument_checked(x.in_graph, ctx, KindView::Graph, "Graph"@),
        },
        BuiltinFunction::Len(x) => iterable_argument_checked(x.of_iterable, ctx),
        BuiltinFunction::Enumerate(x) => iterable_argument_checked(x.array, ctx),
        BuiltinFunction::Range(x) => match argument_checked(
            x.from,
            ctx,
            KindView::Number,
            "Number"@,
        ) {
            Err(e) => Err(e),
            Ok(_) => argument_checked(x.to, ctx, KindView::Number, "Number"@),
        },
    }
}

/// What the check of the expressions of a list gives, from `from` on: the
/// error of the first that fails.
pub open spec fn exps_checked(items: Seq<PreExp>, ctx: KindContext, from: int) -> Result<
    (),
    ErrorView,
>
    decreases size_exps(items, from), 2nat,
{
    if from < 0 || from >= items.len() {
        Ok(())
    } else {
        proof {
            lemma_size_exp_positive(items[from]);
        }
        match type_checked(items[from], ctx) {
            Err(e) => Err(e),
            Ok(_) => exps_checked(items, ctx, from + 1),
        }
    }
}

/// The check that every expression of a list, from `from` on, is a number.
pub open spec fn all_numbers(items: Seq<PreExp>, ctx: KindContext, from: int) -> Result<
    (),
    ErrorView,
>
    decreases items.len() - from,
{
    if from < 0 || from >= items.len() {
        Ok(())
    } else {
        match expect_kind(KindView::Number, "Number"@, kind_of(items[from], ctx)) {
            Err(e) => Err(e),
            Ok(_) => all_numbers(items, ctx, from + 1),
        }
    }
}

/// What the check of an access gives: its indexes are checked, and the
/// access must lead to something.
pub open spec fn access_checked(a: AddressableAccess, ctx: KindContext) -> Result<(), ErrorView>
    decreases size_exps(a.accesses@, 0), 3nat,
{
    match exps_checked(a.accesses@, ctx, 0) {
        Err(e) => Err(e),
        Ok(_) => match accessed_kind(a, ctx) {
            Ok(_) => Ok(()),
            Err(e) => Err(e),
        },
    }
}

/// The scopes in which the names, from `from` on, are declared in the
/// innermost frame with the kinds at their places. The name `_` is passed
/// over; a name that any scope declares already is refused.
pub open spec fn declare_kinds(
    ctx: KindContext,
    names: Seq<Seq<char>>,
    kinds: Seq<KindView>,
    from: int,
) -> Result<KindContext, ErrorView>
    decreases names.len() - from,
{
    if from < 0 || from >= names.len() {
        Ok(ctx)
    } else if is_sink(names[from]) {
        declare_kinds(ctx, names, kinds, from + 1)
    } else if lookup(ctx, names[from]) is Some {
        Err(ErrorView::AlreadyExistingVariable(names[from]))
    } else {
        declare_kinds(
            ctx.update(ctx.len() - 1, ctx.last().insert(names[from], kinds[from])),
            names,
            kinds,
            from + 1,
        )
    }
}

/// The kinds of the parts that a value of the kind `k` spreads into, for a
/// pattern of `count` names: a tuple the kinds of its parts, an edge a text,
/// a number and a text, an iterable the kind of its elements for each name.
pub open spec fn spread_kinds(k: KindView, count: nat) -> Option<Seq<KindView>> {
    match k {
        KindView::Tuple(parts) => Some(parts),
        KindView::GraphEdge => Some(seq![KindView::String, KindView::Number, KindView::String]),
        KindView::Iterable(element) => Some(Seq::new(count, |i: int| *element)),
        _ => None,
    }
}

/// The scopes in which the names of an iteration set are declared for
/// elements of the kind `element`.
pub open spec fn bound_kinds(ctx: KindContext, var: VariableType, element: KindView) -> Result<
    KindContext,
    ErrorView,
> {
    match var {
        VariableType::Single(name) => declare_kinds(ctx, seq![name.value@], seq![element], 0),
        VariableType::Tuple(names) => match spread_kinds(element, names.len() as nat) {
            None => Err(ErrorView::Unspreadable(element)),
            Some(parts) => if parts.len() < names.len() {
                Err(ErrorView::WrongArgument(destructure_text(names.len() as nat, parts.len())))
            } else {
                declare_kinds(ctx, name_texts(names@), parts, 0)
            },
        },
    }
}

/// The scopes in which the names of the iteration sets, from `from` on, are
/// declared: for each set in turn its producer is checked, must be an
/// iterable, and its names are declared for the kind of its elements.
pub open spec fn sets_checked(sets: Seq<IterableSet>, from: int, ctx: KindContext) -> Result<
    KindContext,
    ErrorView,
>
    decreases size_sets(sets, from), 1nat,
{
    if from < 0 || from >= sets.len() {
        Ok(ctx)
    } else {
        match type_checked(sets[from].iterator.value, ctx) {
            Err(e) => Err(e),
            Ok(_) => match kind_of(sets[from].iterator.value, ctx) {
                KindView::Iterable(element) => match bound_kinds(ctx, sets[from].var, *element) {
                    Err(e) => Err(e),
                    Ok(inner) => sets_checked(sets, from + 1, inner),
                },
                other => Err(ErrorView::WrongArgument(wrong_argument_text("Iterable"@, other))),
            },
        }
    }
}

/// What the check of an expression gives, before its error is given its
/// place.
pub open spec fn raw_checked(e: PreExp, ctx: KindContext) -> Result<(), ErrorView>
    decreases size_exp(e), 0nat,
{
    match e {
        PreExp::Number(_) => Ok(()),
        PreExp::Variable(name) => match lookup(ctx, name.value@) {
            Some(_) => Ok(()),
            None => Err(ErrorView::MissingVariable(name.value@)),
        },
        PreExp::CompoundVariable(c) => match compound_checked(
            ctx,
            c.value.indexes.deep_view(),
            0,
        ) {
            Err(e) => Err(e),
            Ok(_) => match lookup(ctx, c.value.name@) {
                Some(_) => Ok(()),
                None => Err(ErrorView::MissingVariable(c.value.name@)),
            },
        },
        PreExp::ArrayAccess(a) => access_checked(a.value, ctx),
        PreExp::FunctionCall(_, f) => call_checked(f, ctx),
        PreExp::BinaryOperation(op, l, r) => match type_checked(*l, ctx) {
            Err(e) => Err(e),
            Ok(_) => match type_checked(*r, ctx) {
                Err(e) => Err(e),
                Ok(_) => if can_apply_binary(kind_of(*l, ctx), op.value, kind_of(*r, ctx)) {
                    Ok(())
                } else {
                    Err(
                        ErrorView::OperatorError(
                            binary_kinds_text(op.value, kind_of(*l, ctx), kind_of(*r, ctx)),
                        ),
                    )
                },
            },
        },
        PreExp::UnaryOperation(op, x) => match type_checked(*x, ctx) {
            Err(e) => Err(e),
            Ok(_) => if can_apply_unary(kind_of(*x, ctx), op.value) {
                Ok(())
            } else {
                Err(ErrorView::OperatorError(unary_kind_text(op.value.text(), kind_of(*x, ctx))))
            },
        },
        PreExp::Mod(_, x) => match type_checked(*x, ctx) {
            Err(e) => Err(e),
            Ok(_) => expect_kind(KindView::Number, "Number"@, kind_of(*x, ctx)),
        },
        PreExp::BlockFunction(f) => match exps_checked(f.value.exps@, ctx, 0) {
            Err(e) => Err(e),
            Ok(_) => all_numbers(f.value.exps@, ctx, 0),
        },
        PreExp::BlockScopedFunction(f) => match sets_checked(
            f.value.iters@,
            0,
            ctx.push(Map::<Seq<char>, KindView>::empty()),
        ) {
            Err(e) => Err(e),
            Ok(inner) => match type_checked(*f.value.exp, inner) {
                Err(e) => Err(e),
                Ok(_) => expect_kind(KindView::Number, "Number"@, kind_of(*f.value.exp, inner)),
            },
        },
    }
}

/// What the check of an expression gives in the scopes `ctx`. An error
/// carries the place of the expression.
pub open spec fn type_checked(e: PreExp, ctx: KindContext) -> Result<(), ErrorView>
    decreases size_exp(e), 1nat,
{
    spanned(raw_checked(e, ctx), e.span_spec())
}

/// What the check of an objective gives: its expression is checked and must
/// be a number.
pub open spec fn objective_checked(o: PreObjective, ctx: KindContext) -> Result<(), ErrorView> {
    match type_checked(o.rhs, ctx) {
        Err(e) => Err(e),
        Ok(_) => expect_kind(KindView::Number, "Number"@, kind_of(o.rhs, ctx)),
    }
}

/// What the check of a condition gives, before its error is given its place:
/// the names of its iteration sets are declared in a scope of their own, in
/// which its two sides are checked and must be numbers.
pub open spec fn raw_condition_checked(c: PreCondition, ctx: KindContext) -> Result<
    (),
    ErrorView,
> {
    match sets_checked(c.iteration@, 0, ctx.push(Map::<Seq<char>, KindView>::empty())) {
        Err(e) => Err(e),
        Ok(inner) => match type_checked(c.lhs, inner) {
            Err(e) => Err(e),
            Ok(_) => match type_checked(c.rhs, inner) {
                Err(e) => Err(e),
                Ok(_) => match expect_kind(KindView::Number, "Number"@, kind_of(c.lhs, inner)) {
                    Err(e) => Err(e),
                    Ok(_) => expect_kind(KindView::Number, "Number"@, kind_of(c.rhs, inner)),
                },
            },
        },
    }
}

/// What the check of a condition gives. An error carries the place of the
/// condition.
pub open spec fn condition_checked(c: PreCondition, ctx: KindContext) -> Result<(), ErrorView> {
    spanned(raw_condition_checked(c, ctx), c.span)
}

/// What the check of the conditions of a list gives, from `from` on.
pub open spec fn conditions_checked(items: Seq<PreCondition>, ctx: KindContext, from: int)
    -> Result<(), ErrorView>
    decreases items.len() - from,
{
    if from < 0 || from >= items.len() {
        Ok(())
    } else {
        match condition_checked(items[from], ctx) {
            Err(e) => Err(e),
            Ok(_) => conditions_checked(items, ctx, from + 1),
        }
    }
}

/// The names of the variables of a model.
pub open spec fn variable_names(variables: Seq<DomainVariable>) -> Seq<Seq<char>> {
    Seq::new(variables.len(), |i: int| variables[i].name.value@)
}

/// As many times the kind `Number`.
pub open spec fn numbers(count: nat) -> Seq<KindView> {
    Seq::new(count, |i: int| KindView::Number)
}

/// The scopes in which a model is checked: its constants with the kinds of
/// their values, and its variables, declared as numbers.
pub open spec fn problem_scopes(p: PreProblem, variables: Seq<DomainVariable>) -> Result<
    KindContext,
    ErrorView,
> {
    declare_kinds(
        seq![kinds_frame(constant_kinds(p.constants@))],
        variable_names(variables),
        numbers(variables.len()),
        0,
    )
}

/// What the check of a model gives: its constants are declared with the
/// kinds of their values and its variables as numbers, and in these scopes
/// the objective and every condition is checked.
pub open spec fn problem_checked(p: PreProblem, variables: Seq<DomainVariable>) -> Result<
    (),
    ErrorView,
> {
    match problem_scopes(p, variables) {
        Err(e) => Err(e),
        Ok(ctx) => match objective_checked(p.objective, ctx) {
            Err(e) => Err(e),
            Ok(_) => conditions_checked(p.conditions@, ctx, 0),
        },
    }
}

/// The result is the one expected.
pub open spec fn passes(r: Result<(), TransformError>, expected: Result<(), ErrorView>) -> bool {
    match r {
        Ok(_) => expected is Ok,
        Err(e) => expected == Err::<(), ErrorView>(e@),
    }
}

/// The check that `got` is the kind `expected`.
fn expect(expected: &PrimitiveKind, name: &str, got: &PrimitiveKind) -> (r: Result<
    (),
    TransformError,
>)
    ensures
        passes(r, expect_kind(expected@, name@, got@)),
{
    if got.same(expected) {
        Ok(())
    } else {
        Err(wrong_argument(name, got))
    }
}

/// The check that `got` is the kind `Number`.
fn expect_number(got: &PrimitiveKind) -> (r: Result<(), TransformError>)
    ensures
        passes(r, expect_kind(KindView::Number, "Number"@, got@)),
{
    expect(&PrimitiveKind::Number, "Number", got)
}

impl Parameter {
    /// Checks the argument in `context`.
    pub fn check(&self, context: &mut TypeCheckerContext) -> (r: Result<(), TransformError>)
        requires
            old(context).well_formed(),
        ensures
            final(context).well_formed(),
            final(context)@ == old(context)@,
            final(context).token_map == old(context).token_map,
            passes(r, parameter_checked(*self, old(context)@)),
        decreases size_parameter(*self), 0nat,
    {
        match self {
            Parameter::Number(_) => Ok(()),
            Parameter::String(_) => Ok(()),
            Parameter::Variable(name) => match context.get_value(name.as_str()) {
                Some(_) => Ok(()),
                None => Err(TransformError::MissingVariable(name.clone())),
            },
            Parameter::CompoundVariable(c) => {
                let indexes = c.indexes.as_slice();
                assert(indexes.deep_view() =~= c.indexes.deep_view());
                context.check_compound_variable(indexes)?;
                match context.get_value(c.name.as_str()) {
                    Some(_) => Ok(()),
                    None => Err(TransformError::MissingVariable(c.name.clone())),
                }
            },
            Parameter::ArrayAccess(a) => check_access(a, context),
            Parameter::FunctionCall(f) => f.check(context),
        }
    }

    /// Checks the argument, which must be of the kind `expected`.
    fn check_as(&self, context: &mut TypeCheckerContext, expected: &PrimitiveKind, name: &str) -> (r:
        Result<(), TransformError>)
        requires
            old(context).well_formed(),
        ensures
            final(context).well_formed(),
            final(context)@ == old(context)@,
            final(context).token_map == old(context).token_map,
            passes(r, argument_checked(*self, old(context)@, expected@, name@)),
        decreases size_parameter(*self), 1nat,
    {
        self.check(context)?;
        expect(expected, name, &self.infer(context))
    }

    /// Checks the argument, which must be an iterable.
    fn check_as_iterable(&self, context: &mut TypeCheckerContext) -> (r: Result<
        (),
        TransformError,
    >)
        requires
            old(context).well_formed(),
        ensures
            final(context).well_formed(),
            final(context)@ == old(context)@,
            final(context).token_map == old(context).token_map,
            passes(r, iterable_argument_checked(*self, old(context)@)),
        decreases size_parameter(*self), 1nat,
    {
        self.check(context)?;
        let kind = self.infer(context);
        match kind {
            PrimitiveKind::Iterable(_) => Ok(()),
            other => Err(wrong_argument("Iterable", &other)),
        }
    }
}

impl BuiltinFunction {
    /// Checks the call in `context`.
    pub fn check(&self, context: &mut TypeCheckerContext) -> (r: Result<(), TransformError>)
        requires
            old(context).well_formed(),
        ensures
            final(context).well_formed(),
            final(context)@ == old(context)@,
            final(context).token_map == old(context).token_map,
            passes(r, call_checked(*self, old(context)@)),
        decreases size_call(*self), 0nat,
    {
        match self {
            BuiltinFunction::Edges(x) => x.of_graph.check_as(context, &PrimitiveKind::Graph, "Graph"),
            BuiltinFunction::Nodes(x) => x.of_graph.check_as(context, &PrimitiveKind::Graph, "Graph"),
            BuiltinFunction::NeighbourEdges(x) => x.of_node.check_as(
                context,
                &PrimitiveKind::GraphNode,
                "GraphNode",
            ),
            BuiltinFunction::NeighboursOf(x) => {
                x.of_node.check_as(context, &PrimitiveKind::String, "String")?;
                x.in_graph.check_as(context, &PrimitiveKind::Graph, "Graph")
            },
            BuiltinFunction::Len(x) => x.of_iterable.check_as_iterable(context),
            BuiltinFunction::Enumerate(x) => x.array.check_as_iterable(context),
            BuiltinFunction::Range(x) => {
                x.from.check_as(context, &PrimitiveKind::Number, "Number")?;
                x.to.check_as(context, &PrimitiveKind::Number, "Number")
            },
        }
    }
}

/// Checks the expressions of a list.
fn check_all(items: &Vec<PreExp>, context: &mut TypeCheckerContext) -> (r: Result<
    (),
    TransformError,
>)
    requires
        old(context).well_formed(),
    ensures
        final(context).well_formed(),
        final(context)@ == old(context)@,
        final(context).token_map == old(context).token_map,
        passes(r, exps_checked(items@, old(context)@, 0)),
    decreases size_exps(items@, 0), 2nat,
{
    let mut i: usize = 0;
    while i < items.len()
        invariant
            i <= items.len(),
            context.well_formed(),
            context@ == old(context)@,
            context.token_map == old(context).token_map,
            exps_checked(items@, old(context)@, 0) == exps_checked(items@, old(context)@, i as int),
        decreases items.len() - i,
    {
        proof {
            lemma_size_exps_member(items@, 0, i as int);
        }
        match items[i].check(context) {
            Ok(_) => {},
            Err(e) => {
                return Err(e);
            },
        }
        i = i + 1;
    }
    Ok(())
}

/// Checks that every expression of a list is a number.
fn check_numbers(items: &Vec<PreExp>, context: &TypeCheckerContext) -> (r: Result<
    (),
    TransformError,
>)
    requires
        context.well_formed(),
    ensures
        passes(r, all_numbers(items@, context@, 0)),
{
    let mut i: usize = 0;
    while i < items.len()
        invariant
            i <= items.len(),
            context.well_formed(),
            all_numbers(items@, context@, 0) == all_numbers(items@, context@, i as int),
        decreases items.len() - i,
    {
        match expect_number(&items[i].infer(context)) {
            Ok(_) => {},
            Err(e) => {
                return Err(e);
            },
        }
        i = i + 1;
    }
    Ok(())
}

/// Checks an access.
fn check_access(a: &AddressableAccess, context: &mut TypeCheckerContext) -> (r: Result<
    (),
    TransformError,
>)
    requires
        old(context).well_formed(),
    ensures
        final(context).well_formed(),
        final(context)@ == old(context)@,
        final(context).token_map == old(context).token_map,
        passes(r, access_checked(*a, old(context)@)),
    decreases size_exps(a.accesses@, 0), 3nat,
{
    check_all(&a.accesses, context)?;
    match context.get_addressable_value(a) {
        Ok(_) => Ok(()),
        Err(e) => Err(e),
    }
}

/// Declares the names with the kinds at their places in the innermost frame
/// of `context`.
fn declare_all(names: &Vec<String>, kinds: &Vec<PrimitiveKind>, context: &mut TypeCheckerContext) -> (r:
    Result<(), TransformError>)
    requires
        old(context).well_formed(),
        kinds.len() >= names.len(),
    ensures
        final(context).well_formed(),
        final(context)@.len() == old(context)@.len(),
        outer(final(context)@) == outer(old(context)@),
        final(context).token_map == old(context).token_map,
        match r {
            Ok(_) => declare_kinds(old(context)@, names.deep_view(), kind_views(kinds@), 0) == Ok::<
                KindContext,
                ErrorView,
            >(final(context)@),
            Err(e) => declare_kinds(old(context)@, names.deep_view(), kind_views(kinds@), 0)
                == Err::<KindContext, ErrorView>(e@),
        },
{
    let ghost texts = names.deep_view();
    let ghost views = kind_views(kinds@);
    let ghost goal = declare_kinds(context@, texts, views, 0);
    let mut i: usize = 0;
    while i < names.len()
        invariant
            i <= names.len(),
            kinds.len() >= names.len(),
            texts == names.deep_view(),
            views == kind_views(kinds@),
            context.well_formed(),
            context@.len() == old(context)@.len(),
            outer(context@) == outer(old(context)@),
            context.token_map == old(context).token_map,
            goal == declare_kinds(old(context)@, texts, views, 0),
            goal == declare_kinds(context@, texts, views, i as int),
        decreases names.len() - i,
    {
        assert(texts[i as int] == names[i as int]@);
        assert(views[i as int] == kinds[i as int]@);
        if !same_text(names[i].as_str(), "_") {
            let ghost before = context@;
            match context.declare_variable(names[i].as_str(), kinds[i].duplicate(), true) {
                Ok(_) => {
                    assert(outer(context@) =~= outer(before));
                },
                Err(e) => {
                    return Err(e);
                },
            }
        }
        i = i + 1;
    }
    Ok(())
}

/// The names that an iteration set binds.
fn names_of(var: &VariableType) -> (r: Vec<String>)
    ensures
        r.deep_view() == pattern_names(*var),
{
    let mut out: Vec<String> = Vec::new();
    match var {
        VariableType::Single(name) => {
            out.push(name.value.clone());
            assert(out.deep_view() =~= pattern_names(*var));
        },
        VariableType::Tuple(names) => {
            let mut i: usize = 0;
            while i < names.len()
                invariant
                    i <= names.len(),
                    out.len() == i,
                    forall|j: int| 0 <= j < i ==> out[j]@ == names[j].value@,
                decreases names.len() - i,
            {
                out.push(names[i].value.clone());
                i = i + 1;
            }
            assert(out.deep_view() =~= pattern_names(*var));
        },
    }
    out
}

/// The kinds of the parts that a value of the kind `k` spreads into, for a
/// pattern of `count` names.
fn spread(k: &PrimitiveKind, count: usize) -> (r: Option<Vec<PrimitiveKind>>)
    ensures
        match r {
            Some(parts) => spread_kinds(k@, count as nat) == Some(kind_views(parts@)),
            None => spread_kinds(k@, count as nat) is None,
        },
{
    match k {
        PrimitiveKind::Tuple(parts) => {
            let mut out: Vec<PrimitiveKind> = Vec::new();
            let mut i: usize = 0;
            while i < parts.len()
                invariant
                    i <= parts.len(),
                    out.len() == i,
                    forall|j: int| 0 <= j < i ==> out[j]@ == parts[j]@,
                decreases parts.len() - i,
            {
                out.push(parts[i].duplicate());
                i = i + 1;
            }
            assert(kind_views(out@) =~= kind_views(parts@));
            Some(out)
        },
        PrimitiveKind::GraphEdge => {
            let mut out: Vec<PrimitiveKind> = Vec::new();
            out.push(PrimitiveKind::String);
            out.push(PrimitiveKind::Number);
            out.push(PrimitiveKind::String);
            assert(kind_views(out@) =~= seq![
                KindView::String,
                KindView::Number,
                KindView::String,
            ]);
            Some(out)
        },
        PrimitiveKind::Iterable(element) => {
            let mut out: Vec<PrimitiveKind> = Vec::new();
            let mut i: usize = 0;
            while i < count
                invariant
                    i <= count,
                    out.len() == i,
                    forall|j: int| 0 <= j < i ==> out[j]@ == element@,
                decreases count - i,
            {
                out.push(element.duplicate());
                i = i + 1;
            }
            assert(kind_views(out@) =~= Seq::new(count as nat, |i: int| element@));
            Some(out)
        },
        _ => None,
    }
}

/// Declares the names of an iteration set in the innermost frame of
/// `context`, for elements of the kind `element`.
pub(crate) fn bind_kinds(
    var: &VariableType,
    element: &PrimitiveKind,
    context: &mut TypeCheckerContext,
) -> (r:
    Result<(), TransformError>)
    requires
        old(context).well_formed(),
    ensures
        final(context).well_formed(),
        final(context)@.len() == old(context)@.len(),
        outer(final(context)@) == outer(old(context)@),
        final(context).token_map == old(context).token_map,
        match r {
            Ok(_) => bound_kinds(old(context)@, *var, element@) == Ok::<KindContext, ErrorView>(
                final(context)@,
            ),
            Err(e) => bound_kinds(old(context)@, *var, element@) == Err::<KindContext, ErrorView>(
                e@,
            ),
        },
{
    let names = names_of(var);
    match var {
        VariableType::Single(_) => {
            let mut kinds: Vec<PrimitiveKind> = Vec::new();
            kinds.push(element.duplicate());
            assert(kind_views(kinds@) =~= seq![element@]);
            declare_all(&names, &kinds, context)
        },
        VariableType::Tuple(tuple) => {
            match spread(element, tuple.len()) {
                None => Err(TransformError::Unspreadable(element.duplicate())),
                Some(parts) => {
                    if parts.len() < tuple.len() {
                        let mut message = owned("Cannot destructure a value of ");
                        message.append(usize_to_string(parts.len()).as_str());
                        message.append(" parts into ");
                        message.append(usize_to_string(tuple.len()).as_str());
                        message.append(" names");
                        return Err(TransformError::WrongArgument(message));
                    }
                    declare_all(&names, &parts, context)
                },
            }
        },
    }
}

/// Checks the producers of the iteration sets and declares their names in
/// the innermost frame of `context`.
fn check_sets(sets: &Vec<IterableSet>, context: &mut TypeCheckerContext) -> (r: Result<
    (),
    TransformError,
>)
    requires
        old(context).well_formed(),
    ensures
        final(context).well_formed(),
        final(context)@.len() == old(context)@.len(),
        outer(final(context)@) == outer(old(context)@),
        final(context).token_map == old(context).token_map,
        match r {
            Ok(_) => sets_checked(sets@, 0, old(context)@) == Ok::<KindContext, ErrorView>(
                final(context)@,
            ),
            Err(e) => sets_checked(sets@, 0, old(context)@) == Err::<KindContext, ErrorView>(e@),
        },
    decreases size_sets(sets@, 0), 1nat,
{
    let mut i: usize = 0;
    while i < sets.len()
        invariant
            i <= sets.len(),
            context.well_formed(),
            context@.len() == old(context)@.len(),
            outer(context@) == outer(old(context)@),
            context.token_map == old(context).token_map,
            sets_checked(sets@, 0, old(context)@) == sets_checked(sets@, i as int, context@),
        decreases sets.len() - i,
    {
        proof {
            lemma_size_sets_member(sets@, 0, i as int);
        }
        let set = &sets[i];
        match set.iterator.value.check(context) {
            Ok(_) => {},
            Err(e) => {
                return Err(e);
            },
        }
        let kind = set.iterator.value.infer(context);
        match kind {
            PrimitiveKind::Iterable(element) => {
                match bind_kinds(&set.var, &element, context) {
                    Ok(_) => {},
                    Err(e) => {
                        return Err(e);
                    },
                }
            },
            other => {
                return Err(wrong_argument("Iterable", &other));
            },
        }
        i = i + 1;
    }
    Ok(())
}

/// Pops the innermost frame of `context`, which is not the bottom one.
pub(crate) fn leave(context: &mut TypeCheckerContext)
    requires
        old(context).well_formed(),
        old(context)@.len() >= 2,
    ensures
        final(context).well_formed(),
        final(context)@ == outer(old(context)@),
        final(context).token_map == old(context).token_map,
{
    let _ = context.pop_scope();
}

impl PreExp {
    /// Checks the expression, before its error is given its place.
    fn raw_check(&self, context: &mut TypeCheckerContext) -> (r: Result<(), TransformError>)
        requires
            old(context).well_formed(),
        ensures
            final(context).well_formed(),
            final(context)@ == old(context)@,
            final(context).token_map == old(context).token_map,
            passes(r, raw_checked(*self, old(context)@)),
        decreases size_exp(*self), 0nat,
    {
        match self {
            PreExp::Number(_) => Ok(()),
            PreExp::Variable(name) => match context.get_value(name.value.as_str()) {
                Some(_) => Ok(()),
                None => Err(TransformError::MissingVariable(name.value.clone())),
            },
            PreExp::CompoundVariable(c) => {
                let indexes = c.value.indexes.as_slice();
                assert(indexes.deep_view() =~= c.value.indexes.deep_view());
                context.check_compound_variable(indexes)?;
                match context.get_value(c.value.name.as_str()) {
                    Some(_) => Ok(()),
                    None => Err(TransformError::MissingVariable(c.value.name.clone())),
                }
            },
            PreExp::ArrayAccess(a) => check_access(&a.value, context),
            PreExp::FunctionCall(_, f) => f.check(context),
            PreExp::BinaryOperation(op, l, r) => {
                l.check(context)?;
                r.check(context)?;
                let lhs = l.infer(context);
                let rhs = r.infer(context);
                let ghost lhs_view = lhs@;
                let ghost rhs_view = rhs@;
                let mut message = owned("Cannot apply operator ");
                message.append(op.value.to_string().as_str());
                message.append(" to operands of kind ");
                message.append(lhs.to_string().as_str());
                message.append(" and ");
                message.append(rhs.to_string().as_str());
                if lhs.can_apply_binary_op(op.value, rhs) {
                    Ok(())
                } else {
                    Err(TransformError::OperatorError(message))
                }
            },
            PreExp::UnaryOperation(op, x) => {
                x.check(context)?;
                let kind = x.infer(context);
                if kind.can_apply_unary_op(op.value) {
                    Ok(())
                } else {
                    let mut message = owned("Cannot apply operator ");
                    message.append(op.value.to_string().as_str());
                    message.append(" to an operand of kind ");
                    message.append(kind.to_string().as_str());
                    Err(TransformError::OperatorError(message))
                }
            },
            PreExp::Mod(_, x) => {
                x.check(context)?;
                expect_number(&x.infer(context))
            },
            PreExp::BlockFunction(f) => {
                check_all(&f.value.exps, context)?;
                check_numbers(&f.value.exps, context)
            },
            PreExp::BlockScopedFunction(f) => {
                context.add_scope();
                assert(outer(context@) =~= old(context)@);
                match check_sets(&f.value.iters, context) {
                    Ok(_) => {},
                    Err(e) => {
                        leave(context);
                        return Err(e);
                    },
                }
                match f.value.exp.check(context) {
                    Ok(_) => {},
                    Err(e) => {
                        leave(context);
                        return Err(e);
                    },
                }
                let result = expect_number(&f.value.exp.infer(context));
                leave(context);
                result
            },
        }
    }

    /// Checks the expression in `context`. The scopes are left as they were
    /// found.
    pub fn check(&self, context: &mut TypeCheckerContext) -> (r: Result<(), TransformError>)
        requires
            old(context).well_formed(),
        ensures
            final(context).well_formed(),
            final(context)@ == old(context)@,
            final(context).token_map == old(context).token_map,
            passes(r, type_checked(*self, old(context)@)),
        decreases size_exp(*self), 1nat,
    {
        match self.raw_check(context) {
            Ok(_) => Ok(()),
            Err(e) => Err(e.to_spanned_error(self.span())),
        }
    }
}

impl TypeCheckable for PreExp {
    open spec fn checked(&self, ctx: KindContext) -> Result<(), ErrorView> {
        type_checked(*self, ctx)
    }

    fn type_check(&self, context: &mut TypeCheckerContext) -> (r: Result<(), TransformError>) {
        self.check(context)
    }

    open spec fn noted(&self, ctx: KindContext, tokens: TokenMap) -> TokenMap {
        exp_noted(*self, ctx, tokens)
    }

    fn populate_token_type_map(&self, context: &mut TypeCheckerContext) {
        self.note(context)
    }
}

impl TypeCheckable for PreObjective {
    open spec fn checked(&self, ctx: KindContext) -> Result<(), ErrorView> {
        objective_checked(*self, ctx)
    }

    fn type_check(&self, context: &mut TypeCheckerContext) -> (r: Result<(), TransformError>) {
        self.rhs.check(context)?;
        expect_number(&self.rhs.infer(context))
    }

    open spec fn noted(&self, ctx: KindContext, tokens: TokenMap) -> TokenMap {
        exp_noted(self.rhs, ctx, tokens)
    }

    fn populate_token_type_map(&self, context: &mut TypeCheckerContext) {
        self.rhs.note(context)
    }
}

impl TypeCheckable for PreCondition {
    open spec fn checked(&self, ctx: KindContext) -> Result<(), ErrorView> {
        condition_checked(*self, ctx)
    }

    fn type_check(&self, context: &mut TypeCheckerContext) -> (r: Result<(), TransformError>) {
        context.add_scope();
        assert(outer(context@) =~= old(context)@);
        match check_sets(&self.iteration, context) {
            Ok(_) => {},
            Err(e) => {
                leave(context);
                return Err(e.to_spanned_error(&self.span));
            },
        }
        match self.lhs.check(context) {
            Ok(_) => {},
            Err(e) => {
                leave(context);
                return Err(e.to_spanned_error(&self.span));
            },
        }
        match self.rhs.check(context) {
            Ok(_) => {},
            Err(e) => {
                leave(context);
                return Err(e.to_spanned_error(&self.span));
            },
        }
        let left = expect_number(&self.lhs.infer(context));
        let right = expect_number(&self.rhs.infer(context));
        leave(context);
        match left {
            Err(e) => Err(e.to_spanned_error(&self.span)),
            Ok(_) => match right {
                Err(e) => Err(e.to_spanned_error(&self.span)),
                Ok(_) => Ok(()),
            },
        }
    }

    open spec fn noted(&self, ctx: KindContext, tokens: TokenMap) -> TokenMap {
        condition_noted(*self, ctx, tokens)
    }

    fn populate_token_type_map(&self, context: &mut TypeCheckerContext) {
        context.add_scope();
        assert(outer(context@) =~= old(context)@);
        if note_sets(&self.iteration, context) {
            self.lhs.note(context);
            self.rhs.note(context);
        }
        leave(context);
    }
}

/// The scopes in which a model with the variables `variables` is checked:
/// its constants with the kinds of their values, and its variables as
/// numbers. A variable of the name of a constant, or of another variable,
/// is refused.
pub fn problem_context(problem: &PreProblem, variables: &Vec<DomainVariable>) -> (r: Result<
    TypeCheckerContext,
    TransformError,
>)
    ensures
        match r {
            Ok(context) => {
                &&& context.well_formed()
                &&& problem_scopes(*problem, variables@) == Ok::<KindContext, ErrorView>(context@)
                &&& context.tokens() == constant_tokens(
                    problem.constants@,
                    problem.constants.len() as int,
                )
            },
            Err(e) => problem_scopes(*problem, variables@) == Err::<KindContext, ErrorView>(e@),
        },
{
    let mut context = TypeCheckerContext::new_from_constants(&problem.constants);
    let mut names: Vec<String> = Vec::new();
    let mut kinds: Vec<PrimitiveKind> = Vec::new();
    let mut i: usize = 0;
    while i < variables.len()
        invariant
            i <= variables.len(),
            names.len() == i,
            kinds.len() == i,
            forall|j: int| 0 <= j < i ==> names[j]@ == variables[j].name.value@,
            forall|j: int| 0 <= j < i ==> kinds[j]@ == KindView::Number,
        decreases variables.len() - i,
    {
        names.push(variables[i].name.value.clone());
        kinds.push(PrimitiveKind::Number);
        i = i + 1;
    }
    assert(names.deep_view() =~= variable_names(variables@));
    assert(kind_views(kinds@) =~= numbers(variables.len() as nat));
    match declare_all(&names, &kinds, &mut context) {
        Ok(_) => Ok(context),
        Err(e) => Err(e),
    }
}

/// Checks a model whose variables are `variables`: `MissingVariable` for a
/// name that is neither a constant, nor a variable, nor bound by a block.
pub fn type_check_problem(problem: &PreProblem, variables: &Vec<DomainVariable>) -> (r: Result<
    (),
    TransformError,
>)
    ensures
        passes(r, problem_checked(*problem, variables@)),
{
    let mut context = problem_context(problem, variables)?;
    problem.objective.type_check(&mut context)?;
    let ghost ctx = context@;
    let mut k: usize = 0;
    while k < problem.conditions.len()
        invariant
            k <= problem.conditions.len(),
            context.well_formed(),
            context@ == ctx,
            conditions_checked(problem.conditions@, ctx, 0) == conditions_checked(
                problem.conditions@,
                ctx,
                k as int,
            ),
            problem_checked(*problem, variables@) == conditions_checked(
                problem.conditions@,
                ctx,
                0,
            ),
        decreases problem.conditions.len() - k,
    {
        match problem.conditions[k].type_check(&mut context) {
            Ok(_) => {},
            Err(e) => {
                return Err(e);
            },
        }
        k = k + 1;
    }
    Ok(())
}

} // verus!
