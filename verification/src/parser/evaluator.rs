//! What the tree of a model means: the value of an expression in a stack of
//! scopes, and the expanded expression that it unrolls to.
//!
//! The meaning is given by specification functions on the tree and on the
//! view of the scopes; the functions that compute it are proved to agree
//! with them, error for error.
use vstd::prelude::*;
use vstd::string::*;
use crate::error::{ErrorView, TransformError};
use crate::math::{Op, UnOp};
use crate::number::{integer_number, Number};
use crate::parser::exp::{exp_views, flatten, Exp, ExpView};
use crate::parser::frame::Frame;
use crate::parser::pre_exp::{
    name_texts, AddressableAccess, BlockFunctionKind, BlockScopedFunctionKind, BuiltinFunction,
    CompoundVariable, EdgesOfGraphFn, EnumerateArray, IterableSet, LenOfIterableFn,
    NeighbourOfNodeFn, NeighboursOfNodeInGraphFn, NodesOfGraphFn, NumericRange, Parameter, PreExp,
    VariableType,
};
use crate::parser::transformer::{
    flattened_compound, is_sink, lookup, ContextView, FrameView, TransformerContext,
};
use crate::primitives::graph::{node_not_found_text, Graph, GraphNode, GraphView, NodeView};
use crate::primitives::iterable::{
    operator_error_text, out_of_bounds_text, OperatorError, OperatorErrorView,
};
use crate::primitives::kind::{KindView, PrimitiveKind};
use crate::primitives::primitive::{
    primitive_kind, primitive_views, spread, tuple_views, wrong_argument, wrong_argument_text,
    IterableKind, IterableView, Primitive, PrimitiveView, Tuple,
};
use crate::span::InputSpan;
use crate::text::{nat_text, owned};

verus! {

/// How large an expression is: the count of its nodes.
pub open spec fn size_exp(e: PreExp) -> nat
    decreases e, 0nat,
{
    match e {
        PreExp::Number(_) => 1,
        PreExp::Variable(_) => 1,
        PreExp::CompoundVariable(_) => 1,
        PreExp::Mod(_, x) => 1 + size_exp(*x),
        PreExp::UnaryOperation(_, x) => 1 + size_exp(*x),
        PreExp::BinaryOperation(_, l, r) => 1 + size_exp(*l) + size_exp(*r),
        PreExp::ArrayAccess(a) => 1 + size_exps(a.value.accesses@, 0),
        PreExp::BlockFunction(f) => 1 + size_exps(f.value.exps@, 0),
        PreExp::BlockScopedFunction(f) => 1 + size_sets(f.value.iters@, 0) + size_exp(
            *f.value.exp,
        ),
        PreExp::FunctionCall(_, f) => 1 + size_call(f),
    }
}

/// How large the expressions of a list are together, from `from` on.
pub open spec fn size_exps(items: Seq<PreExp>, from: int) -> nat
    decreases items, items.len() - from,
{
    if from < 0 || from >= items.len() {
        0
    } else {
        size_exp(items[from]) + size_exps(items, from + 1)
    }
}

/// How large the iteration sets of a list are together, from `from` on.
pub open spec fn size_sets(items: Seq<IterableSet>, from: int) -> nat
    decreases items, items.len() - from,
{
    if from < 0 || from >= items.len() {
        0
    } else {
        1 + size_exp(items[from].iterator.value) + size_sets(items, from + 1)
    }
}

/// How large an argument is.
pub open spec fn size_parameter(p: Parameter) -> nat
    decreases p, 0nat,
{
    match p {
        Parameter::ArrayAccess(a) => 1 + size_exps(a.accesses@, 0),
        Parameter::FunctionCall(f) => 1 + size_call(*f),
        _ => 1,
    }
}

/// How large a call is.
pub open spec fn size_call(f: BuiltinFunction) -> nat
    decreases f, 0nat,
{
    match f {
        BuiltinFunction::Edges(x) => 1 + size_parameter(x.of_graph),
        BuiltinFunction::Nodes(x) => 1 + size_parameter(x.of_graph),
        BuiltinFunction::NeighbourEdges(x) => 1 + size_parameter(x.of_node),
        BuiltinFunction::NeighboursOf(x) => 1 + size_parameter(x.of_node) + size_parameter(
            x.in_graph,
        ),
        BuiltinFunction::Len(x) => 1 + size_parameter(x.of_iterable),
        BuiltinFunction::Enumerate(x) => 1 + size_parameter(x.array),
        BuiltinFunction::Range(x) => 1 + size_parameter(x.from) + size_parameter(x.to),
    }
}

/// Every expression has a node.
pub proof fn lemma_size_exp_positive(e: PreExp)
    ensures
        size_exp(e) >= 1,
{
}

/// The result with its error, if it is one, wrapped in the place `span`.
pub open spec fn spanned<T>(r: Result<T, ErrorView>, span: InputSpan) -> Result<T, ErrorView> {
    match r {
        Ok(v) => Ok(v),
        Err(e) => Err(ErrorView::SpannedError(span, Box::new(e), None)),
    }
}

/// The error for a value of another kind than the one expected.
pub open spec fn wrong_kind(expected: Seq<char>, got: PrimitiveView) -> ErrorView {
    ErrorView::WrongArgument(wrong_argument_text(expected, primitive_kind(got)))
}

/// The number that a value is.
pub open spec fn expect_number(v: PrimitiveView) -> Result<Number, ErrorView> {
    match v {
        PrimitiveView::Number(n) => Ok(n),
        _ => Err(wrong_kind("Number"@, v)),
    }
}

/// The whole number that a value is, where it fits into 64 bits with sign.
pub open spec fn expect_integer(v: PrimitiveView) -> Result<i64, ErrorView> {
    match v {
        PrimitiveView::Number(n) => if n.is_integer_spec() && i64::MIN <= n.integer_spec()
            <= i64::MAX {
            Ok(n.integer_spec() as i64)
        } else {
            Err(wrong_kind("Integer"@, v))
        },
        _ => Err(wrong_kind("Number"@, v)),
    }
}

/// The index or count that a value is.
pub open spec fn expect_usize(v: PrimitiveView) -> Result<usize, ErrorView> {
    match v {
        PrimitiveView::Number(n) => if !n.is_integer_spec() {
            Err(wrong_kind("Integer"@, v))
        } else if 0 <= n.integer_spec() <= usize::MAX {
            Ok(n.integer_spec() as usize)
        } else {
            Err(wrong_kind("Positive integer"@, v))
        },
        _ => Err(wrong_kind("Number"@, v)),
    }
}

/// The graph that a value is.
pub open spec fn expect_graph(v: PrimitiveView) -> Result<GraphView, ErrorView> {
    match v {
        PrimitiveView::Graph(g) => Ok(g),
        _ => Err(wrong_kind("Graph"@, v)),
    }
}

/// The node that a value is.
pub open spec fn expect_node(v: PrimitiveView) -> Result<NodeView, ErrorView> {
    match v {
        PrimitiveView::GraphNode(n) => Ok(n),
        _ => Err(wrong_kind("GraphNode"@, v)),
    }
}

/// The text that a value is.
pub open spec fn expect_string(v: PrimitiveView) -> Result<Seq<char>, ErrorView> {
    match v {
        PrimitiveView::String(s) => Ok(s),
        _ => Err(wrong_kind("String"@, v)),
    }
}

/// The iterable that a value is.
pub open spec fn expect_iterable(v: PrimitiveView) -> Result<IterableView, ErrorView> {
    match v {
        PrimitiveView::Iterable(i) => Ok(i),
        _ => Err(wrong_kind("Iterable"@, v)),
    }
}

/// What a name stands for; the error `MissingVariable` where it is not
/// declared.
pub open spec fn declared_value(ctx: ContextView, name: Seq<char>) -> Result<
    PrimitiveView,
    ErrorView,
> {
    match lookup(ctx, name) {
        Some(v) => Ok(v),
        None => Err(ErrorView::MissingVariable(name)),
    }
}

/// What a compound variable stands for.
pub open spec fn compound_value(ctx: ContextView, stem: Seq<char>, indexes: Seq<Seq<char>>)
    -> Result<PrimitiveView, ErrorView> {
    match flattened_compound(ctx, stem, indexes) {
        Ok(name) => declared_value(ctx, name),
        Err(e) => Err(e),
    }
}

/// The whole numbers from `from` up to but without `to`.
pub open spec fn range_numbers(from: int, to: int) -> Seq<Number> {
    Seq::new(
        (if to > from {
            to - from
        } else {
            0
        }) as nat,
        |i: int| integer_number(from + i),
    )
}

/// The elements of an iterable, each in a tuple with its position behind it.
pub open spec fn enumerated(i: IterableView) -> Seq<Seq<PrimitiveView>> {
    Seq::new(i.len(), |k: int| seq![i.element(k), PrimitiveView::Number(integer_number(k))])
}

/// The message for a result that the numbers of this crate cannot hold.
pub open spec fn unrepresentable_text(op: Op, a: Number, b: Number) -> Seq<char> {
    "The result of "@ + a.text() + " "@ + op.text() + " "@ + b.text()
        + " cannot be represented"@
}

/// What a binary operator gives for two values: sum, difference, product and
/// whole quotient of two numbers, and the two texts one after the other for
/// `+` on two texts. Every other pair of operands is refused.
pub open spec fn binary_value(op: Op, a: PrimitiveView, b: PrimitiveView) -> Result<
    PrimitiveView,
    ErrorView,
> {
    match a {
        PrimitiveView::Number(x) => match b {
            PrimitiveView::Number(y) => {
                let result = match op {
                    Op::Add => x.sum(y),
                    Op::Sub => x.difference(y),
                    Op::Mul => x.product(y),
                    Op::Div => x.quotient(y),
                };
                match result {
                    Some(n) => Ok(PrimitiveView::Number(n)),
                    None => Err(ErrorView::OperatorError(unrepresentable_text(op, x, y))),
                }
            },
            _ => Err(
                ErrorView::OperatorError(
                    operator_error_text(
                        OperatorErrorView::IncompatibleType {
                            operator: op,
                            expected: KindView::Number,
                            found: primitive_kind(b),
                        },
                    ),
                ),
            ),
        },
        PrimitiveView::String(x) => if op == Op::Add {
            match b {
                PrimitiveView::String(y) => Ok(PrimitiveView::String(x + y)),
                _ => Err(
                    ErrorView::OperatorError(
                        operator_error_text(
                            OperatorErrorView::IncompatibleType {
                                operator: op,
                                expected: KindView::String,
                                found: primitive_kind(b),
                            },
                        ),
                    ),
                ),
            }
        } else {
            Err(
                ErrorView::OperatorError(
                    operator_error_text(
                        OperatorErrorView::UnsupportedBinOperation {
                            operator: op,
                            found: primitive_kind(b),
                        },
                    ),
                ),
            )
        },
        _ => Err(
            ErrorView::OperatorError(
                operator_error_text(
                    OperatorErrorView::UnsupportedBinOperation {
                        operator: op,
                        found: primitive_kind(b),
                    },
                ),
            ),
        ),
    }
}

/// What a unary operator gives for a value: the negation of a number. Every
/// other operand is refused.
pub open spec fn unary_value(op: UnOp, v: PrimitiveView) -> Result<PrimitiveView, ErrorView> {
    match v {
        PrimitiveView::Number(x) => Ok(PrimitiveView::Number(x.negate_spec())),
        _ => Err(
            ErrorView::OperatorError(
                operator_error_text(
                    OperatorErrorView::UnsupportedUnOperation {
                        operator: op,
                        found: primitive_kind(v),
                    },
                ),
            ),
        ),
    }
}

/// The absolute value of a number.
pub open spec fn modulus_value(v: PrimitiveView) -> Result<PrimitiveView, ErrorView> {
    match v {
        PrimitiveView::Number(x) => Ok(PrimitiveView::Number(x.abs_spec())),
        _ => Err(wrong_kind("Number"@, v)),
    }
}

/// The message for a block function where a value is asked for.
pub open spec fn block_as_value_text() -> Seq<char> {
    "A block function has no value before the model is expanded"@
}

/// The value of an argument of a built-in function.
pub open spec fn parameter_value(p: Parameter, ctx: ContextView) -> Result<
    PrimitiveView,
    ErrorView,
>
    decreases size_parameter(p), 0nat, 0nat,
{
    match p {
        Parameter::Number(n) => Ok(PrimitiveView::Number(n)),
        Parameter::String(s) => Ok(PrimitiveView::String(s@)),
        Parameter::Variable(name) => declared_value(ctx, name@),
        Parameter::CompoundVariable(c) => compound_value(ctx, c.name@, c.indexes.deep_view()),
        Parameter::ArrayAccess(a) => addressable_value(a, ctx),
        Parameter::FunctionCall(f) => call_value(*f, ctx),
    }
}

/// What a call of a built-in function gives.
pub open spec fn call_value(f: BuiltinFunction, ctx: ContextView) -> Result<
    PrimitiveView,
    ErrorView,
>
    decreases size_call(f), 0nat, 0nat,
{
    match f {
        BuiltinFunction::Edges(x) => match parameter_value(x.of_graph, ctx) {
            Err(e) => Err(e),
            Ok(v) => match expect_graph(v) {
                Err(e) => Err(e),
                Ok(g) => Ok(PrimitiveView::Iterable(IterableView::Edges(g.edges()))),
            },
        },
        BuiltinFunction::Nodes(x) => match parameter_value(x.of_graph, ctx) {
            Err(e) => Err(e),
            Ok(v) => match expect_graph(v) {
                Err(e) => Err(e),
                Ok(g) => Ok(PrimitiveView::Iterable(IterableView::Nodes(g.vertices))),
            },
        },
        BuiltinFunction::NeighbourEdges(x) => match parameter_value(x.of_node, ctx) {
            Err(e) => Err(e),
            Ok(v) => match expect_node(v) {
                Err(e) => Err(e),
                Ok(n) => Ok(PrimitiveView::Iterable(IterableView::Edges(n.edges))),
            },
        },
        BuiltinFunction::NeighboursOf(x) => match parameter_value(x.of_node, ctx) {
            Err(e) => Err(e),
            Ok(v) => match expect_string(v) {
                Err(e) => Err(e),
                Ok(name) => match parameter_value(x.in_graph, ctx) {
                    Err(e) => Err(e),
                    Ok(w) => match expect_graph(w) {
                        Err(e) => Err(e),
                        Ok(g) => match g.neighbours_of(name) {
                            Some(edges) => Ok(
                                PrimitiveView::Iterable(IterableView::Edges(edges)),
                            ),
                            None => Err(ErrorView::NotFound(node_not_found_text(name))),
                        },
                    },
                },
            },
        },
        BuiltinFunction::Len(x) => match parameter_value(x.of_iterable, ctx) {
            Err(e) => Err(e),
            Ok(v) => match expect_iterable(v) {
                Err(e) => Err(e),
                Ok(i) => Ok(PrimitiveView::Number(integer_number(i.len() as int))),
            },
        },
        BuiltinFunction::Enumerate(x) => match parameter_value(x.array, ctx) {
            Err(e) => Err(e),
            Ok(v) => match expect_iterable(v) {
                Err(e) => Err(e),
                Ok(i) => Ok(PrimitiveView::Iterable(IterableView::Tuples(enumerated(i)))),
            },
        },
        BuiltinFunction::Range(x) => match parameter_value(x.from, ctx) {
            Err(e) => Err(e),
            Ok(v) => match expect_integer(v) {
                Err(e) => Err(e),
                Ok(from) => match parameter_value(x.to, ctx) {
                    Err(e) => Err(e),
                    Ok(w) => match expect_integer(w) {
                        Err(e) => Err(e),
                        Ok(to) => Ok(
                            PrimitiveView::Iterable(
                                IterableView::Numbers(range_numbers(from as int, to as int)),
                            ),
                        ),
                    },
                },
            },
        },
    }
}

/// The indexes that the accesses of a list, from `from` on, evaluate to.
pub open spec fn index_values(accesses: Seq<PreExp>, ctx: ContextView, from: int) -> Result<
    Seq<usize>,
    ErrorView,
>
    decreases size_exps(accesses, from), 1nat, 0nat,
{
    if from < 0 || from >= accesses.len() {
        Ok(Seq::<usize>::empty())
    } else {
        proof {
            lemma_size_exp_positive(accesses[from]);
        }
        match value_of(accesses[from], ctx) {
            Err(e) => Err(e),
            Ok(v) => match expect_usize(v) {
                Err(e) => Err(e),
                Ok(i) => match index_values(accesses, ctx, from + 1) {
                    Err(e) => Err(e),
                    Ok(rest) => Ok(seq![i] + rest),
                },
            },
        }
    }
}

/// What an access into an iterable leads to.
pub open spec fn addressable_value(a: AddressableAccess, ctx: ContextView) -> Result<
    PrimitiveView,
    ErrorView,
>
    decreases size_exps(a.accesses@, 0), 2nat, 0nat,
{
    match lookup(ctx, a.name@) {
        None => Err(ErrorView::MissingVariable(a.name@)),
        Some(v) => match index_values(a.accesses@, ctx, 0) {
            Err(e) => Err(e),
            Ok(path) => match expect_iterable(v) {
                Err(e) => Err(e),
                Ok(i) => match i.read(path) {
                    Some(p) => Ok(p),
                    None => Err(
                        ErrorView::OutOfBounds(
                            out_of_bounds_text(i.failing_index(path) as nat, i),
                        ),
                    ),
                },
            },
        },
    }
}

/// The value of an expression, before its error is given its place.
pub open spec fn raw_value(e: PreExp, ctx: ContextView) -> Result<PrimitiveView, ErrorView>
    decreases size_exp(e), 0nat, 0nat,
{
    match e {
        PreExp::Number(n) => Ok(PrimitiveView::Number(n.value)),
        PreExp::Variable(name) => declared_value(ctx, name.value@),
        PreExp::CompoundVariable(c) => compound_value(
            ctx,
            c.value.name@,
            c.value.indexes.deep_view(),
        ),
        PreExp::ArrayAccess(a) => addressable_value(a.value, ctx),
        PreExp::FunctionCall(_, f) => call_value(f, ctx),
        PreExp::BinaryOperation(op, l, r) => match value_of(*l, ctx) {
            Err(e) => Err(e),
            Ok(a) => match value_of(*r, ctx) {
                Err(e) => Err(e),
                Ok(b) => binary_value(op.value, a, b),
            },
        },
        PreExp::UnaryOperation(op, x) => match value_of(*x, ctx) {
            Err(e) => Err(e),
            Ok(v) => unary_value(op.value, v),
        },
        PreExp::Mod(_, x) => match value_of(*x, ctx) {
            Err(e) => Err(e),
            Ok(v) => modulus_value(v),
        },
        PreExp::BlockFunction(_) => Err(ErrorView::WrongArgument(block_as_value_text())),
        PreExp::BlockScopedFunction(_) => Err(ErrorView::WrongArgument(block_as_value_text())),
    }
}

/// The value of an expression in the scopes `ctx`. An error carries the
/// place of the expression.
pub open spec fn value_of(e: PreExp, ctx: ContextView) -> Result<PrimitiveView, ErrorView>
    decreases size_exp(e), 0nat, 1nat,
{
    spanned(raw_value(e, ctx), e.span_spec())
}

/// The names that an iteration set binds.
pub open spec fn pattern_names(var: VariableType) -> Seq<Seq<char>> {
    match var {
        VariableType::Single(name) => seq![name.value@],
        VariableType::Tuple(names) => name_texts(names@),
    }
}

/// The frame in which the names, from `from` on, are declared without a
/// value, on top of `frame`. The name `_` is passed over. A name that `frame`
/// or a scope of `ctx` declares already is refused.
pub open spec fn declare_names(
    ctx: ContextView,
    names: Seq<Seq<char>>,
    from: int,
    frame: FrameView,
) -> Result<FrameView, ErrorView>
    decreases names.len() - from,
{
    if from < 0 || from >= names.len() {
        Ok(frame)
    } else if is_sink(names[from]) {
        declare_names(ctx, names, from + 1, frame)
    } else if frame.dom().contains(names[from]) || lookup(ctx, names[from]) is Some {
        Err(ErrorView::AlreadyExistingVariable(names[from]))
    } else {
        declare_names(ctx, names, from + 1, frame.insert(names[from], PrimitiveView::Undefined))
    }
}

/// The frame in which each name, from `from` on, stands for the part at its
/// place, on top of `frame`. The name `_` is passed over.
pub open spec fn bind_names(
    names: Seq<Seq<char>>,
    parts: Seq<PrimitiveView>,
    from: int,
    frame: FrameView,
) -> FrameView
    decreases names.len() - from,
{
    if from < 0 || from >= names.len() {
        frame
    } else if is_sink(names[from]) {
        bind_names(names, parts, from + 1, frame)
    } else {
        bind_names(names, parts, from + 1, frame.insert(names[from], parts[from]))
    }
}

/// The message for an element with fewer parts than the pattern has names.
pub open spec fn destructure_text(names: nat, parts: nat) -> Seq<char> {
    "Cannot destructure a value of "@ + nat_text(parts) + " parts into "@ + nat_text(names)
        + " names"@
}

/// The frame that an iteration set binds for one element: one name stands
/// for the element, a tuple of names for the parts that the element spreads
/// into.
pub open spec fn bound_frame(var: VariableType, element: PrimitiveView) -> Result<
    FrameView,
    ErrorView,
> {
    match var {
        VariableType::Single(name) => Ok(
            bind_names(seq![name.value@], seq![element], 0, Map::<
                Seq<char>,
                PrimitiveView,
            >::empty()),
        ),
        VariableType::Tuple(names) => match spread(element) {
            None => Err(ErrorView::Unspreadable(primitive_kind(element))),
            Some(parts) => if parts.len() < names.len() {
                Err(ErrorView::WrongArgument(destructure_text(names.len() as nat, parts.len())))
            } else {
                Ok(
                    bind_names(name_texts(names@), parts, 0, Map::<
                        Seq<char>,
                        PrimitiveView,
                    >::empty()),
                )
            },
        },
    }
}

/// The sum of the first `n` expressions, added one by one to zero.
pub open spec fn fold_sum(items: Seq<ExpView>, n: int) -> ExpView
    decreases n,
{
    if n <= 0 {
        ExpView::Number(integer_number(0))
    } else {
        ExpView::BinOp(Op::Add, Box::new(fold_sum(items, n - 1)), Box::new(items[n - 1]))
    }
}

/// The product of the first `n` expressions, multiplied one by one to one.
pub open spec fn fold_product(items: Seq<ExpView>, n: int) -> ExpView
    decreases n,
{
    if n <= 0 {
        ExpView::Number(integer_number(1))
    } else {
        ExpView::BinOp(Op::Mul, Box::new(fold_product(items, n - 1)), Box::new(items[n - 1]))
    }
}

/// The message for a minimum, maximum or average of nothing.
pub open spec fn empty_block_text(name: Seq<char>) -> Seq<char> {
    "Cannot take the "@ + name + " of no expression"@
}

/// The average of the expressions: their sum over their count.
pub open spec fn average(items: Seq<ExpView>) -> ExpView {
    ExpView::BinOp(
        Op::Div,
        Box::new(fold_sum(items, items.len() as int)),
        Box::new(ExpView::Number(integer_number(items.len() as int))),
    )
}

/// What a function over iteration sets makes of the expansions of its body:
/// `sum` adds them to zero and `prod` multiplies them to one, from the first
/// to the last; `min` and `max` keep the list; `avg` is the sum over the
/// count. The last three refuse an empty list.
pub open spec fn combined(kind: BlockScopedFunctionKind, items: Seq<ExpView>) -> Result<
    ExpView,
    ErrorView,
> {
    match kind {
        BlockScopedFunctionKind::Sum => Ok(fold_sum(items, items.len() as int)),
        BlockScopedFunctionKind::Prod => Ok(fold_product(items, items.len() as int)),
        BlockScopedFunctionKind::Min => if items.len() == 0 {
            Err(ErrorView::WrongArgument(empty_block_text("min"@)))
        } else {
            Ok(ExpView::Min(items))
        },
        BlockScopedFunctionKind::Max => if items.len() == 0 {
            Err(ErrorView::WrongArgument(empty_block_text("max"@)))
        } else {
            Ok(ExpView::Max(items))
        },
        BlockScopedFunctionKind::Avg => if items.len() == 0 {
            Err(ErrorView::WrongArgument(empty_block_text("avg"@)))
        } else {
            Ok(average(items))
        },
    }
}

/// What a function over a list of expressions makes of their expansions.
pub open spec fn combined_list(kind: BlockFunctionKind, items: Seq<ExpView>) -> Result<
    ExpView,
    ErrorView,
> {
    match kind {
        BlockFunctionKind::Min => if items.len() == 0 {
            Err(ErrorView::WrongArgument(empty_block_text("min"@)))
        } else {
            Ok(ExpView::Min(items))
        },
        BlockFunctionKind::Max => if items.len() == 0 {
            Err(ErrorView::WrongArgument(empty_block_text("max"@)))
        } else {
            Ok(ExpView::Max(items))
        },
        BlockFunctionKind::Avg => if items.len() == 0 {
            Err(ErrorView::WrongArgument(empty_block_text("avg"@)))
        } else {
            Ok(average(items))
        },
    }
}

/// The first expansion of each combination.
pub open spec fn firsts(results: Seq<Seq<ExpView>>) -> Seq<ExpView> {
    Seq::new(results.len(), |i: int| results[i][0])
}

/// The number that a value is, as an expanded expression.
pub open spec fn number_exp(v: PrimitiveView) -> Result<ExpView, ErrorView> {
    match v {
        PrimitiveView::Number(n) => Ok(ExpView::Number(n)),
        _ => Err(wrong_kind("Number"@, v)),
    }
}

/// A list of one expression is as large as the expression.
pub proof fn lemma_size_of_one(e: PreExp)
    ensures
        size_exps(seq![e], 0) == size_exp(e),
{
    assert(size_exps(seq![e], 1) == 0);
    assert(seq![e][0] == e);
}

/// A list of two expressions is as large as the two together.
pub proof fn lemma_size_of_two(a: PreExp, b: PreExp)
    ensures
        size_exps(seq![a, b], 0) == size_exp(a) + size_exp(b),
{
    let s = seq![a, b];
    assert(size_exps(s, 2) == 0);
    assert(size_exps(s, 1) == size_exp(s[1]) + size_exps(s, 2));
    assert(size_exps(s, 0) == size_exp(s[0]) + size_exps(s, 1));
}

/// The expansions of the expressions of a list, from `from` on.
pub open spec fn exps_of(items: Seq<PreExp>, ctx: ContextView, from: int) -> Result<
    Seq<ExpView>,
    ErrorView,
>
    decreases size_exps(items, from), 1nat, 0nat,
{
    if from < 0 || from >= items.len() {
        Ok(Seq::<ExpView>::empty())
    } else {
        proof {
            lemma_size_exp_positive(items[from]);
        }
        match exp_of(items[from], ctx) {
            Err(e) => Err(e),
            Ok(first) => match exps_of(items, ctx, from + 1) {
                Err(e) => Err(e),
                Ok(rest) => Ok(seq![first] + rest),
            },
        }
    }
}

/// The expansions of `bodies` for every combination of elements of the
/// iteration sets from `level` on, the last set turning fastest.
///
/// The names of the set at `level` are declared in a new scope, its producer
/// is evaluated there, and for each element of what it gives the names are
/// bound in a scope of their own, in which the next set is unrolled or, at
/// the last set, the bodies are expanded.
pub open spec fn unrolled(
    sets: Seq<IterableSet>,
    bodies: Seq<PreExp>,
    level: int,
    ctx: ContextView,
) -> Result<Seq<Seq<ExpView>>, ErrorView>
    decreases size_sets(sets, level) + size_exps(bodies, 0), 2nat, 0nat,
{
    if level < 0 || level >= sets.len() {
        Ok(Seq::<Seq<ExpView>>::empty())
    } else {
        match declare_names(
            ctx,
            pattern_names(sets[level].var),
            0,
            Map::<Seq<char>, PrimitiveView>::empty(),
        ) {
            Err(e) => Err(e),
            Ok(declared) => match value_of(sets[level].iterator.value, ctx.push(declared)) {
                Err(e) => Err(e),
                Ok(v) => match expect_iterable(v) {
                    Err(e) => Err(e),
                    Ok(i) => unrolled_from(sets, bodies, level, ctx, i.elements(), 0),
                },
            },
        }
    }
}

/// The expansions of `bodies` for the elements `values` of the set at
/// `level`, from the element `k` on.
pub open spec fn unrolled_from(
    sets: Seq<IterableSet>,
    bodies: Seq<PreExp>,
    level: int,
    ctx: ContextView,
    values: Seq<PrimitiveView>,
    k: int,
) -> Result<Seq<Seq<ExpView>>, ErrorView>
    decreases size_sets(sets, level) + size_exps(bodies, 0), 1nat, values.len() - k,
{
    if level < 0 || level >= sets.len() || k < 0 || k >= values.len() {
        Ok(Seq::<Seq<ExpView>>::empty())
    } else {
        match bound_frame(sets[level].var, values[k]) {
            Err(e) => Err(e),
            Ok(frame) => {
                let here = if level + 1 >= sets.len() {
                    match exps_of(bodies, ctx.push(frame), 0) {
                        Ok(exps) => Ok(seq![exps]),
                        Err(e) => Err(e),
                    }
                } else {
                    spanned(
                        unrolled(sets, bodies, level + 1, ctx.push(frame)),
                        sets[level].span,
                    )
                };
                match here {
                    Err(e) => Err(e),
                    Ok(first) => match unrolled_from(sets, bodies, level, ctx, values, k + 1) {
                        Err(e) => Err(e),
                        Ok(rest) => Ok(first + rest),
                    },
                }
            },
        }
    }
}

/// The expansion of an expression, before it is flattened and its error is
/// given its place.
pub open spec fn raw_exp(e: PreExp, ctx: ContextView) -> Result<ExpView, ErrorView>
    decreases size_exp(e), 0nat, 0nat,
{
    match e {
        PreExp::Number(n) => Ok(ExpView::Number(n.value)),
        PreExp::Variable(name) => match lookup(ctx, name.value@) {
            Some(v) => number_exp(v),
            None => Ok(ExpView::Variable(name.value@)),
        },
        PreExp::CompoundVariable(c) => match flattened_compound(
            ctx,
            c.value.name@,
            c.value.indexes.deep_view(),
        ) {
            Ok(name) => Ok(ExpView::Variable(name)),
            Err(e) => Err(e),
        },
        PreExp::ArrayAccess(a) => match addressable_value(a.value, ctx) {
            Ok(v) => number_exp(v),
            Err(e) => Err(e),
        },
        PreExp::FunctionCall(_, f) => match call_value(f, ctx) {
            Ok(v) => number_exp(v),
            Err(e) => Err(e),
        },
        PreExp::BinaryOperation(op, l, r) => match exp_of(*l, ctx) {
            Err(e) => Err(e),
            Ok(a) => match exp_of(*r, ctx) {
                Err(e) => Err(e),
                Ok(b) => Ok(ExpView::BinOp(op.value, Box::new(a), Box::new(b))),
            },
        },
        PreExp::UnaryOperation(op, x) => match exp_of(*x, ctx) {
            Err(e) => Err(e),
            Ok(a) => Ok(ExpView::UnOp(op.value, Box::new(a))),
        },
        PreExp::Mod(_, x) => match exp_of(*x, ctx) {
            Err(e) => Err(e),
            Ok(a) => Ok(ExpView::Mod(Box::new(a))),
        },
        PreExp::BlockFunction(f) => match exps_of(f.value.exps@, ctx, 0) {
            Err(e) => Err(e),
            Ok(items) => combined_list(f.value.kind, items),
        },
        PreExp::BlockScopedFunction(f) => {
            proof {
                lemma_size_of_one(*f.value.exp);
            }
            match unrolled(f.value.iters@, seq![*f.value.exp], 0, ctx) {
                Err(e) => Err(e),
                Ok(results) => combined(f.value.kind, firsts(results)),
            }
        },
    }
}

/// The expanded expression that an expression stands for in the scopes
/// `ctx`: every iteration unrolled, every constant replaced by its value,
/// every compound name flattened, and the whole pushed through [`flatten`].
/// A name that no scope declares is a variable of the model. An error carries
/// the place of the expression.
pub open spec fn exp_of(e: PreExp, ctx: ContextView) -> Result<ExpView, ErrorView>
    decreases size_exp(e), 0nat, 1nat,
{
    match raw_exp(e, ctx) {
        Ok(x) => Ok(flatten(x)),
        Err(err) => Err(ErrorView::SpannedError(e.span_spec(), Box::new(err), None)),
    }
}

/// The result is the one expected: the same value, or the same error.
pub open spec fn agrees<T: View>(r: Result<T, TransformError>, expected: Result<T::V, ErrorView>)
    -> bool {
    match r {
        Ok(v) => expected == Ok::<T::V, ErrorView>(v@),
        Err(e) => expected == Err::<T::V, ErrorView>(e@),
    }
}

/// No expression of a list is larger than the list from any place at or
/// before it.
pub proof fn lemma_size_exps_member(items: Seq<PreExp>, from: int, i: int)
    requires
        0 <= from <= i < items.len(),
    ensures
        size_exp(items[i]) + size_exps(items, i + 1) <= size_exps(items, from),
    decreases i - from,
{
    if from < i {
        lemma_size_exps_member(items, from + 1, i);
    }
}

/// What `name` stands for in `context`.
pub fn declared(context: &TransformerContext, name: &str) -> (r: Result<
    Primitive,
    TransformError,
>)
    requires
        context.well_formed(),
    ensures
        agrees(r, declared_value(context@, name@)),
{
    match context.get_value(name) {
        Some(v) => Ok(v.duplicate()),
        None => Err(TransformError::MissingVariable(name.to_owned())),
    }
}

/// What the compound variable `c` stands for in `context`.
pub fn compound(context: &TransformerContext, c: &CompoundVariable) -> (r: Result<
    Primitive,
    TransformError,
>)
    requires
        context.well_formed(),
    ensures
        agrees(r, compound_value(context@, c.name@, c.indexes.deep_view())),
{
    let indexes = c.indexes.as_slice();
    assert(indexes.deep_view() =~= c.indexes.deep_view());
    let name = context.flatten_compound_variable(&c.name, indexes)?;
    declared(context, name.as_str())
}

/// The error for an operation that was refused.
fn refused(e: OperatorError) -> (r: TransformError)
    ensures
        r@ == ErrorView::OperatorError(operator_error_text(e@)),
{
    TransformError::OperatorError(e.to_string())
}

/// What the operator `op` gives for the two values.
pub fn apply_binary(op: Op, a: &Primitive, b: &Primitive) -> (r: Result<Primitive, TransformError>)
    ensures
        agrees(r, binary_value(op, a@, b@)),
{
    match a {
        Primitive::Number(x) => match b {
            Primitive::Number(y) => {
                let result = match op {
                    Op::Add => x.checked_add(y),
                    Op::Sub => x.checked_sub(y),
                    Op::Mul => x.checked_mul(y),
                    Op::Div => x.checked_div(y),
                };
                match result {
                    Some(n) => Ok(Primitive::Number(n)),
                    None => {
                        let mut message = owned("The result of ");
                        message.append(x.to_string().as_str());
                        message.append(" ");
                        message.append(op.to_string().as_str());
                        message.append(" ");
                        message.append(y.to_string().as_str());
                        message.append(" cannot be represented");
                        Err(TransformError::OperatorError(message))
                    },
                }
            },
            _ => Err(
                refused(OperatorError::incompatible_type(op, PrimitiveKind::Number, b.get_type())),
            ),
        },
        Primitive::String(x) => {
            if matches!(op, Op::Add) {
                match b {
                    Primitive::String(y) => {
                        let mut out = x.clone();
                        out.append(y.as_str());
                        Ok(Primitive::String(out))
                    },
                    _ => Err(
                        refused(
                            OperatorError::incompatible_type(
                                op,
                                PrimitiveKind::String,
                                b.get_type(),
                            ),
                        ),
                    ),
                }
            } else {
                Err(refused(OperatorError::unsupported_bin_operation(op, b.get_type())))
            }
        },
        _ => Err(refused(OperatorError::unsupported_bin_operation(op, b.get_type()))),
    }
}

/// What the operator `op` gives for the value.
pub fn apply_unary(op: UnOp, v: &Primitive) -> (r: Result<Primitive, TransformError>)
    ensures
        agrees(r, unary_value(op, v@)),
{
    match v {
        Primitive::Number(x) => Ok(Primitive::Number(x.negate())),
        _ => Err(refused(OperatorError::unsupported_un_operation(op, v.get_type()))),
    }
}

/// The whole numbers from `from` up to but without `to`.
fn range(from: i64, to: i64) -> (r: Vec<Number>)
    ensures
        r@ == range_numbers(from as int, to as int),
{
    let mut out: Vec<Number> = Vec::new();
    let mut i: i64 = from;
    while i < to
        invariant
            from <= i <= to || (to < from && i == from),
            out.len() == i - from,
            forall|j: int| 0 <= j < out.len() ==> out[j] == integer_number(from + j),
        decreases to - i,
    {
        out.push(Number::from_integer(i));
        i = i + 1;
    }
    assert(out@ =~= range_numbers(from as int, to as int));
    out
}

/// The elements of the iterable, each in a tuple with its position behind
/// it.
fn enumerate(iterable: &IterableKind) -> (r: Vec<Tuple>)
    ensures
        tuple_views(r@) == enumerated(iterable@),
{
    let mut out: Vec<Tuple> = Vec::new();
    let n = iterable.len();
    let mut k: usize = 0;
    while k < n
        invariant
            k <= n,
            n == iterable@.len(),
            out.len() == k,
            forall|j: int|
                0 <= j < k ==> out[j]@ == seq![
                    iterable@.element(j),
                    PrimitiveView::Number(integer_number(j)),
                ],
        decreases n - k,
    {
        let mut parts: Vec<Primitive> = Vec::new();
        parts.push(iterable.get(k));
        parts.push(Primitive::Number(Number::from_usize(k)));
        assert(primitive_views(parts@) =~= seq![
            iterable@.element(k as int),
            PrimitiveView::Number(integer_number(k as int)),
        ]);
        out.push(Tuple::new(parts));
        k = k + 1;
    }
    assert(tuple_views(out@) =~= enumerated(iterable@));
    out
}

impl Parameter {
    /// The value of the argument in `context`.
    pub fn as_primitive(&self, context: &TransformerContext) -> (r: Result<
        Primitive,
        TransformError,
    >)
        requires
            context.well_formed(),
        ensures
            agrees(r, parameter_value(*self, context@)),
        decreases size_parameter(*self), 0nat, 0nat,
    {
        match self {
            Parameter::Number(n) => Ok(Primitive::Number(*n)),
            Parameter::String(s) => Ok(Primitive::String(s.clone())),
            Parameter::Variable(s) => declared(context, s.as_str()),
            Parameter::CompoundVariable(c) => compound(context, c),
            Parameter::ArrayAccess(a) => context.get_addressable_value(a),
            Parameter::FunctionCall(f) => f.call(context),
        }
    }

    /// The number that the argument evaluates to.
    pub fn as_number(&self, context: &TransformerContext) -> (r: Result<Number, TransformError>)
        requires
            context.well_formed(),
        ensures
            match r {
                Ok(n) => parameter_value(*self, context@) == Ok::<PrimitiveView, ErrorView>(
                    PrimitiveView::Number(n),
                ),
                Err(e) => match parameter_value(*self, context@) {
                    Ok(v) => expect_number(v) == Err::<Number, ErrorView>(e@),
                    Err(inner) => inner == e@,
                },
            },
    {
        let value = self.as_primitive(context)?;
        value.as_number()
    }

    /// The whole number that the argument evaluates to.
    pub fn as_integer(&self, context: &TransformerContext) -> (r: Result<i64, TransformError>)
        requires
            context.well_formed(),
        ensures
            match r {
                Ok(n) => parameter_value(*self, context@) is Ok && expect_integer(
                    parameter_value(*self, context@)->Ok_0,
                ) == Ok::<i64, ErrorView>(n),
                Err(e) => match parameter_value(*self, context@) {
                    Ok(v) => expect_integer(v) == Err::<i64, ErrorView>(e@),
                    Err(inner) => inner == e@,
                },
            },
    {
        let value = self.as_primitive(context)?;
        value.as_integer()
    }

    /// The graph that the argument evaluates to.
    pub fn as_graph(&self, context: &TransformerContext) -> (r: Result<Graph, TransformError>)
        requires
            context.well_formed(),
        ensures
            match r {
                Ok(g) => parameter_value(*self, context@) == Ok::<PrimitiveView, ErrorView>(
                    PrimitiveView::Graph(g@),
                ),
                Err(e) => match parameter_value(*self, context@) {
                    Ok(v) => expect_graph(v) == Err::<GraphView, ErrorView>(e@),
                    Err(inner) => inner == e@,
                },
            },
    {
        let value = self.as_primitive(context)?;
        match value {
            Primitive::Graph(g) => Ok(g),
            other => Err(wrong_argument("Graph", &other.get_type())),
        }
    }

    /// The node that the argument evaluates to.
    pub fn as_node(&self, context: &TransformerContext) -> (r: Result<GraphNode, TransformError>)
        requires
            context.well_formed(),
        ensures
            match r {
                Ok(n) => parameter_value(*self, context@) == Ok::<PrimitiveView, ErrorView>(
                    PrimitiveView::GraphNode(n@),
                ),
                Err(e) => match parameter_value(*self, context@) {
                    Ok(v) => expect_node(v) == Err::<NodeView, ErrorView>(e@),
                    Err(inner) => inner == e@,
                },
            },
    {
        let value = self.as_primitive(context)?;
        match value {
            Primitive::GraphNode(n) => Ok(n),
            other => Err(wrong_argument("GraphNode", &other.get_type())),
        }
    }

    /// The text that the argument evaluates to.
    pub fn as_string(&self, context: &TransformerContext) -> (r: Result<String, TransformError>)
        requires
            context.well_formed(),
        ensures
            match r {
                Ok(s) => parameter_value(*self, context@) == Ok::<PrimitiveView, ErrorView>(
                    PrimitiveView::String(s@),
                ),
                Err(e) => match parameter_value(*self, context@) {
                    Ok(v) => expect_string(v) == Err::<Seq<char>, ErrorView>(e@),
                    Err(inner) => inner == e@,
                },
            },
    {
        let value = self.as_primitive(context)?;
        match value {
            Primitive::String(s) => Ok(s),
            other => Err(wrong_argument("String", &other.get_type())),
        }
    }

    /// The iterable that the argument evaluates to.
    pub fn as_iterator(&self, context: &TransformerContext) -> (r: Result<
        IterableKind,
        TransformError,
    >)
        requires
            context.well_formed(),
        ensures
            match r {
                Ok(i) => parameter_value(*self, context@) == Ok::<PrimitiveView, ErrorView>(
                    PrimitiveView::Iterable(i@),
                ),
                Err(e) => match parameter_value(*self, context@) {
                    Ok(v) => expect_iterable(v) == Err::<IterableView, ErrorView>(e@),
                    Err(inner) => inner == e@,
                },
            },
    {
        let value = self.as_primitive(context)?;
        match value {
            Primitive::Iterable(i) => Ok(i),
            other => Err(wrong_argument("Iterable", &other.get_type())),
        }
    }
}

impl EdgesOfGraphFn {
    /// The edges of the graph that the argument evaluates to.
    pub fn call(&self, context: &TransformerContext) -> (r: Result<Primitive, TransformError>)
        requires
            context.well_formed(),
        ensures
            agrees(r, call_value(BuiltinFunction::Edges(*self), context@)),
        decreases size_parameter(self.of_graph), 1nat, 0nat,
    {
        let value = self.of_graph.as_primitive(context)?;
        let graph = value.as_graph()?;
        let edges = graph.to_edges();
        Ok(Primitive::Iterable(IterableKind::Edges(edges)))
    }
}

impl NodesOfGraphFn {
    /// The nodes of the graph that the argument evaluates to.
    pub fn call(&self, context: &TransformerContext) -> (r: Result<Primitive, TransformError>)
        requires
            context.well_formed(),
        ensures
            agrees(r, call_value(BuiltinFunction::Nodes(*self), context@)),
        decreases size_parameter(self.of_graph), 1nat, 0nat,
    {
        let value = self.of_graph.as_primitive(context)?;
        let graph = value.as_graph()?;
        let nodes = graph.to_nodes();
        Ok(Primitive::Iterable(IterableKind::Nodes(nodes)))
    }
}

impl NeighbourOfNodeFn {
    /// The edges that leave the node that the argument evaluates to.
    pub fn call(&self, context: &TransformerContext) -> (r: Result<Primitive, TransformError>)
        requires
            context.well_formed(),
        ensures
            agrees(r, call_value(BuiltinFunction::NeighbourEdges(*self), context@)),
        decreases size_parameter(self.of_node), 1nat, 0nat,
    {
        let value = self.of_node.as_primitive(context)?;
        let node = value.as_node()?;
        Ok(Primitive::Iterable(IterableKind::Edges(node.to_edges())))
    }
}

impl NeighboursOfNodeInGraphFn {
    /// The edges that leave the node of the graph with the given name.
    pub fn call(&self, context: &TransformerContext) -> (r: Result<Primitive, TransformError>)
        requires
            context.well_formed(),
        ensures
            agrees(r, call_value(BuiltinFunction::NeighboursOf(*self), context@)),
        decreases size_parameter(self.of_node) + size_parameter(self.in_graph), 1nat, 0nat,
    {
        let value = self.of_node.as_primitive(context)?;
        let node = value.as_string()?;
        let holder = self.in_graph.as_primitive(context)?;
        let graph = holder.as_graph()?;
        let neighbours = graph.into_neighbours_of(node.as_str())?;
        Ok(Primitive::Iterable(IterableKind::Edges(neighbours)))
    }
}

impl LenOfIterableFn {
    /// How many elements the iterable that the argument evaluates to has.
    pub fn call(&self, context: &TransformerContext) -> (r: Result<Primitive, TransformError>)
        requires
            context.well_formed(),
        ensures
            agrees(r, call_value(BuiltinFunction::Len(*self), context@)),
        decreases size_parameter(self.of_iterable), 1nat, 0nat,
    {
        let value = self.of_iterable.as_primitive(context)?;
        let iterable = value.as_iterator()?;
        Ok(Primitive::Number(Number::from_usize(iterable.len())))
    }
}

impl EnumerateArray {
    /// The elements of the iterable that the argument evaluates to, each in
    /// a tuple with its position behind it.
    pub fn call(&self, context: &TransformerContext) -> (r: Result<Primitive, TransformError>)
        requires
            context.well_formed(),
        ensures
            agrees(r, call_value(BuiltinFunction::Enumerate(*self), context@)),
        decreases size_parameter(self.array), 1nat, 0nat,
    {
        let value = self.array.as_primitive(context)?;
        let iterable = value.as_iterator()?;
        Ok(Primitive::Iterable(IterableKind::Tuples(enumerate(iterable))))
    }
}

impl NumericRange {
    /// The whole numbers between the two that the arguments evaluate to.
    pub fn call(&self, context: &TransformerContext) -> (r: Result<Primitive, TransformError>)
        requires
            context.well_formed(),
        ensures
            agrees(r, call_value(BuiltinFunction::Range(*self), context@)),
        decreases size_parameter(self.from) + size_parameter(self.to), 1nat, 0nat,
    {
        let first = self.from.as_primitive(context)?;
        let from = first.as_integer()?;
        let second = self.to.as_primitive(context)?;
        let to = second.as_integer()?;
        Ok(Primitive::Iterable(IterableKind::Numbers(range(from, to))))
    }
}

impl BuiltinFunction {
    /// What the call gives in `context`.
    pub fn call(&self, context: &TransformerContext) -> (r: Result<Primitive, TransformError>)
        requires
            context.well_formed(),
        ensures
            agrees(r, call_value(*self, context@)),
        decreases size_call(*self), 0nat, 0nat,
    {
        match self {
            BuiltinFunction::Edges(f) => f.call(context),
            BuiltinFunction::Nodes(f) => f.call(context),
            BuiltinFunction::NeighbourEdges(f) => f.call(context),
            BuiltinFunction::NeighboursOf(f) => f.call(context),
            BuiltinFunction::Len(f) => f.call(context),
            BuiltinFunction::Enumerate(f) => f.call(context),
            BuiltinFunction::Range(f) => f.call(context),
        }
    }
}

impl TransformerContext {
    /// The indexes that the accesses evaluate to.
    fn access_indexes(&self, accesses: &Vec<PreExp>) -> (r: Result<Vec<usize>, TransformError>)
        requires
            self.well_formed(),
        ensures
            match r {
                Ok(path) => index_values(accesses@, self@, 0) == Ok::<Seq<usize>, ErrorView>(
                    path@,
                ),
                Err(e) => index_values(accesses@, self@, 0) == Err::<Seq<usize>, ErrorView>(e@),
            },
        decreases size_exps(accesses@, 0), 1nat, 0nat,
    {
        let mut path: Vec<usize> = Vec::new();
        let mut i: usize = 0;
        assert(accesses@.skip(0) =~= accesses@);
        while i < accesses.len()
            invariant
                i <= accesses.len(),
                self.well_formed(),
                path.len() == i,
                index_values(accesses@, self@, 0) == match index_values(accesses@, self@, i as int) {
                    Ok(rest) => Ok::<Seq<usize>, ErrorView>(path@ + rest),
                    Err(e) => Err::<Seq<usize>, ErrorView>(e),
                },
            decreases accesses.len() - i,
        {
            proof {
                lemma_size_exps_member(accesses@, 0, i as int);
            }
            let value = match accesses[i].as_primitive(self) {
                Ok(v) => v,
                Err(e) => {
                    return Err(e);
                },
            };
            let index = match value.as_usize() {
                Ok(n) => n,
                Err(e) => {
                    return Err(e);
                },
            };
            let ghost before = path@;
            path.push(index);
            proof {
                match index_values(accesses@, self@, i + 1) {
                    Ok(rest) => {
                        assert(before + (seq![index] + rest) =~= path@ + rest);
                    },
                    Err(_) => {},
                }
            }
            i = i + 1;
        }
        assert(path@ + Seq::<usize>::empty() =~= path@);
        Ok(path)
    }

    /// What the access `addressable_access` leads to: `MissingVariable`
    /// where its name is not declared, the error of the first index that is
    /// no index, `WrongArgument` where the name stands for no iterable, and
    /// `OutOfBounds` where the indexes lead nowhere.
    pub fn get_addressable_value(&self, addressable_access: &AddressableAccess) -> (r: Result<
        Primitive,
        TransformError,
    >)
        requires
            self.well_formed(),
        ensures
            agrees(r, addressable_value(*addressable_access, self@)),
        decreases size_exps(addressable_access.accesses@, 0), 2nat, 0nat,
    {
        match self.get_value(addressable_access.name.as_str()) {
            Some(a) => {
                let accesses = self.access_indexes(&addressable_access.accesses)?;
                let iterable = a.as_iterator()?;
                let value = iterable.read(accesses)?;
                Ok(value)
            },
            None => Err(TransformError::MissingVariable(addressable_access.name.clone())),
        }
    }
}

impl PreExp {
    /// The value of the expression, before its error is given its place.
    fn raw_primitive(&self, context: &TransformerContext) -> (r: Result<Primitive, TransformError>)
        requires
            context.well_formed(),
        ensures
            agrees(r, raw_value(*self, context@)),
        decreases size_exp(*self), 0nat, 0nat,
    {
        match self {
            PreExp::Number(n) => Ok(Primitive::Number(n.value)),
            PreExp::Variable(name) => declared(context, name.value.as_str()),
            PreExp::CompoundVariable(c) => compound(context, &c.value),
            PreExp::ArrayAccess(a) => context.get_addressable_value(&a.value),
            PreExp::FunctionCall(_, f) => f.call(context),
            PreExp::BinaryOperation(op, l, r) => {
                let a = l.as_primitive(context)?;
                let b = r.as_primitive(context)?;
                apply_binary(op.value, &a, &b)
            },
            PreExp::UnaryOperation(op, x) => {
                let v = x.as_primitive(context)?;
                apply_unary(op.value, &v)
            },
            PreExp::Mod(_, x) => {
                let v = x.as_primitive(context)?;
                match v {
                    Primitive::Number(n) => Ok(Primitive::Number(n.abs())),
                    other => Err(wrong_argument("Number", &other.get_type())),
                }
            },
            PreExp::BlockFunction(_) => Err(
                TransformError::WrongArgument(
                    owned("A block function has no value before the model is expanded"),
                ),
            ),
            PreExp::BlockScopedFunction(_) => Err(
                TransformError::WrongArgument(
                    owned("A block function has no value before the model is expanded"),
                ),
            ),
        }
    }

    /// The value of the expression in `context`. An error carries the place
    /// of the expression.
    pub fn as_primitive(&self, context: &TransformerContext) -> (r: Result<
        Primitive,
        TransformError,
    >)
        requires
            context.well_formed(),
        ensures
            agrees(r, value_of(*self, context@)),
        decreases size_exp(*self), 0nat, 1nat,
    {
        match self.raw_primitive(context) {
            Ok(v) => Ok(v),
            Err(e) => Err(e.to_spanned_error(self.span())),
        }
    }

    /// The index or count that the expression evaluates to.
    pub fn as_usize(&self, context: &TransformerContext) -> (r: Result<usize, TransformError>)
        requires
            context.well_formed(),
        ensures
            match r {
                Ok(n) => value_of(*self, context@) is Ok && expect_usize(
                    value_of(*self, context@)->Ok_0,
                ) == Ok::<usize, ErrorView>(n),
                Err(e) => match value_of(*self, context@) {
                    Ok(v) => expect_usize(v) == Err::<usize, ErrorView>(e@),
                    Err(inner) => inner == e@,
                },
            },
    {
        let value = self.as_primitive(context)?;
        value.as_usize()
    }

    /// The iterable that the expression evaluates to.
    pub fn as_iterator(&self, context: &TransformerContext) -> (r: Result<
        IterableKind,
        TransformError,
    >)
        requires
            context.well_formed(),
        ensures
            match r {
                Ok(i) => value_of(*self, context@) == Ok::<PrimitiveView, ErrorView>(
                    PrimitiveView::Iterable(i@),
                ),
                Err(e) => match value_of(*self, context@) {
                    Ok(v) => expect_iterable(v) == Err::<IterableView, ErrorView>(e@),
                    Err(inner) => inner == e@,
                },
            },
    {
        let value = self.as_primitive(context)?;
        match value {
            Primitive::Iterable(i) => Ok(i),
            other => Err(wrong_argument("Iterable", &other.get_type())),
        }
    }
}

/// The views of the rows of a table of expressions.
pub open spec fn exp_rows(rows: Seq<Vec<Exp>>) -> Seq<Seq<ExpView>> {
    Seq::new(rows.len(), |i: int| exp_views(rows[i]@))
}

/// The bodies that are expanded for each combination of elements: one
/// expression, or two.
pub open spec fn bodies_of(body: PreExp, second: Option<&PreExp>) -> Seq<PreExp> {
    match second {
        Some(other) => seq![body, *other],
        None => seq![body],
    }
}

/// The scopes below the innermost one.
pub open spec fn outer<V>(ctx: Seq<Map<Seq<char>, V>>) -> Seq<Map<Seq<char>, V>> {
    ctx.drop_last()
}

/// A name is declared in a stack with a frame on top exactly when the frame
/// or the stack below declares it.
pub proof fn lemma_lookup_pushed(ctx: ContextView, frame: FrameView, name: Seq<char>)
    ensures
        lookup(ctx.push(frame), name) is Some <==> (frame.dom().contains(name) || lookup(
            ctx,
            name,
        ) is Some),
{
    assert(ctx.push(frame).drop_last() =~= ctx);
    assert(ctx.push(frame).last() == frame);
}

/// The names that an iteration set binds.
fn pattern_name_list(var: &VariableType) -> (r: Vec<String>)
    ensures
        r.deep_view() == pattern_names(*var),
{
    let mut out: Vec<String> = Vec::new();
    match var {
        VariableType::Single(name) => {
            out.push(name.value.clone());
            assert(out.deep_view() =~= pattern_names(*var));
        },
        VariableType::Tuple(names) => {
            let mut i: usize = 0;
            while i < names.len()
                invariant
                    i <= names.len(),
                    out.len() == i,
                    forall|j: int| 0 <= j < i ==> out[j]@ == names[j].value@,
                decreases names.len() - i,
            {
                out.push(names[i].value.clone());
                i = i + 1;
            }
            assert(out.deep_view() =~= pattern_names(*var));
        },
    }
    out
}

/// Declares the names without a value in the innermost scope of `context`.
fn declare_pattern(names: &Vec<String>, context: &mut TransformerContext) -> (r: Result<
    (),
    TransformError,
>)
    requires
        old(context).well_formed(),
        old(context)@.len() >= 2,
    ensures
        final(context).well_formed(),
        final(context)@.len() == old(context)@.len(),
        outer(final(context)@) == outer(old(context)@),
        match r {
            Ok(_) => declare_names(
                outer(old(context)@),
                names.deep_view(),
                0,
                old(context)@.last(),
            ) == Ok::<FrameView, ErrorView>(final(context)@.last()),
            Err(e) => declare_names(
                outer(old(context)@),
                names.deep_view(),
                0,
                old(context)@.last(),
            ) == Err::<FrameView, ErrorView>(e@),
        },
{
    let ghost below = outer(context@);
    let ghost texts = names.deep_view();
    let ghost goal = declare_names(below, texts, 0, context@.last());
    let mut i: usize = 0;
    while i < names.len()
        invariant
            i <= names.len(),
            texts == names.deep_view(),
            context.well_formed(),
            context@.len() == old(context)@.len(),
            context@.len() >= 2,
            outer(context@) == below,
            below == outer(old(context)@),
            goal == declare_names(below, texts, 0, old(context)@.last()),
            goal == declare_names(below, texts, i as int, context@.last()),
        decreases names.len() - i,
    {
        let ghost before = context@;
        proof {
            assert(texts[i as int] == names[i as int]@);
            assert(before =~= below.push(before.last()));
            lemma_lookup_pushed(below, before.last(), texts[i as int]);
        }
        match context.declare_variable(names[i].as_str(), Primitive::Undefined, true) {
            Ok(_) => {
                proof {
                    if !is_sink(texts[i as int]) {
                        assert(outer(context@) =~= below);
                    }
                }
            },
            Err(e) => {
                return Err(e);
            },
        }
        i = i + 1;
    }
    Ok(())
}

/// The frame in which each name stands for the part at its place.
fn bind_parts(names: &Vec<String>, parts: &Vec<Primitive>) -> (r: Frame<Primitive>)
    requires
        parts.len() >= names.len(),
    ensures
        r.well_formed(),
        r@ == bind_names(
            names.deep_view(),
            primitive_views(parts@),
            0,
            Map::<Seq<char>, PrimitiveView>::empty(),
        ),
{
    let ghost texts = names.deep_view();
    let ghost values = primitive_views(parts@);
    let mut frame: Frame<Primitive> = Frame::new();
    let mut i: usize = 0;
    while i < names.len()
        invariant
            i <= names.len(),
            parts.len() >= names.len(),
            texts == names.deep_view(),
            values == primitive_views(parts@),
            frame.well_formed(),
            bind_names(texts, values, 0, Map::<Seq<char>, PrimitiveView>::empty()) == bind_names(
                texts,
                values,
                i as int,
                frame@,
            ),
        decreases names.len() - i,
    {
        assert(texts[i as int] == names[i as int]@);
        assert(values[i as int] == parts[i as int]@);
        if !crate::text::same_text(names[i].as_str(), "_") {
            frame.set_variable(names[i].as_str(), parts[i].duplicate());
        }
        i = i + 1;
    }
    frame
}

/// The frame that the iteration set binds for the element `value`.
fn bind_pattern(var: &VariableType, names: &Vec<String>, value: Primitive) -> (r: Result<
    Frame<Primitive>,
    TransformError,
>)
    requires
        names.deep_view() == pattern_names(*var),
    ensures
        match r {
            Ok(frame) => frame.well_formed() && bound_frame(*var, value@) == Ok::<
                FrameView,
                ErrorView,
            >(frame@),
            Err(e) => bound_frame(*var, value@) == Err::<FrameView, ErrorView>(e@),
        },
{
    match var {
        VariableType::Single(_) => {
            let mut parts: Vec<Primitive> = Vec::new();
            parts.push(value);
            assert(primitive_views(parts@) =~= seq![value@]);
            Ok(bind_parts(names, &parts))
        },
        VariableType::Tuple(tuple) => {
            let parts = value.to_primitive_set()?;
            if parts.len() < tuple.len() {
                let mut message = owned("Cannot destructure a value of ");
                message.append(crate::text::usize_to_string(parts.len()).as_str());
                message.append(" parts into ");
                message.append(crate::text::usize_to_string(tuple.len()).as_str());
                message.append(" names");
                return Err(TransformError::WrongArgument(message));
            }
            Ok(bind_parts(names, &parts))
        },
    }
}

/// The sum of the expressions, added one by one to zero.
fn sum_of(items: &Vec<Exp>) -> (r: Exp)
    ensures
        r@ == fold_sum(exp_views(items@), items.len() as int),
{
    let mut acc = Exp::Number(Number::from_integer(0));
    let mut i: usize = 0;
    while i < items.len()
        invariant
            i <= items.len(),
            acc@ == fold_sum(exp_views(items@), i as int),
        decreases items.len() - i,
    {
        acc = Exp::BinOp(Op::Add, Box::new(acc), Box::new(items[i].duplicate()));
        i = i + 1;
    }
    acc
}

/// The product of the expressions, multiplied one by one to one.
fn product_of(items: &Vec<Exp>) -> (r: Exp)
    ensures
        r@ == fold_product(exp_views(items@), items.len() as int),
{
    let mut acc = Exp::Number(Number::from_integer(1));
    let mut i: usize = 0;
    while i < items.len()
        invariant
            i <= items.len(),
            acc@ == fold_product(exp_views(items@), i as int),
        decreases items.len() - i,
    {
        acc = Exp::BinOp(Op::Mul, Box::new(acc), Box::new(items[i].duplicate()));
        i = i + 1;
    }
    acc
}

/// The error for a minimum, maximum or average of nothing.
fn empty_block(name: &str) -> (r: TransformError)
    ensures
        r@ == ErrorView::WrongArgument(empty_block_text(name@)),
{
    let mut message = owned("Cannot take the ");
    message.append(name);
    message.append(" of no expression");
    TransformError::WrongArgument(message)
}

/// The average of the expressions.
fn average_of(items: &Vec<Exp>) -> (r: Exp)
    ensures
        r@ == average(exp_views(items@)),
{
    let sum = sum_of(items);
    let count = Exp::Number(Number::from_usize(items.len()));
    assert(exp_views(items@).len() == items.len());
    assert(count@ == ExpView::Number(integer_number(items.len() as int)));
    let r = Exp::BinOp(Op::Div, Box::new(sum), Box::new(count));
    assert(r@ == ExpView::BinOp(Op::Div, Box::new(sum@), Box::new(count@)));
    r
}

/// What a function over iteration sets makes of the expansions of its body.
pub fn combine(kind: BlockScopedFunctionKind, items: Vec<Exp>) -> (r: Result<Exp, TransformError>)
    ensures
        agrees(r, combined(kind, exp_views(items@))),
{
    match kind {
        BlockScopedFunctionKind::Sum => Ok(sum_of(&items)),
        BlockScopedFunctionKind::Prod => Ok(product_of(&items)),
        BlockScopedFunctionKind::Min => {
            if items.len() == 0 {
                Err(empty_block("min"))
            } else {
                Ok(Exp::Min(items))
            }
        },
        BlockScopedFunctionKind::Max => {
            if items.len() == 0 {
                Err(empty_block("max"))
            } else {
                Ok(Exp::Max(items))
            }
        },
        BlockScopedFunctionKind::Avg => {
            if items.len() == 0 {
                Err(empty_block("avg"))
            } else {
                Ok(average_of(&items))
            }
        },
    }
}

/// What a function over a list of expressions makes of their expansions.
pub fn combine_list(kind: BlockFunctionKind, items: Vec<Exp>) -> (r: Result<Exp, TransformError>)
    ensures
        agrees(r, combined_list(kind, exp_views(items@))),
{
    match kind {
        BlockFunctionKind::Min => {
            if items.len() == 0 {
                Err(empty_block("min"))
            } else {
                Ok(Exp::Min(items))
            }
        },
        BlockFunctionKind::Max => {
            if items.len() == 0 {
                Err(empty_block("max"))
            } else {
                Ok(Exp::Max(items))
            }
        },
        BlockFunctionKind::Avg => {
            if items.len() == 0 {
                Err(empty_block("avg"))
            } else {
                Ok(average_of(&items))
            }
        },
    }
}

/// The first expression of each row.
fn first_of_each(rows: &Vec<Vec<Exp>>) -> (r: Vec<Exp>)
    requires
        forall|i: int| 0 <= i < rows.len() ==> (#[trigger] rows[i]).len() >= 1,
    ensures
        exp_views(r@) == firsts(exp_rows(rows@)),
{
    let mut out: Vec<Exp> = Vec::new();
    let mut i: usize = 0;
    while i < rows.len()
        invariant
            i <= rows.len(),
            out.len() == i,
            forall|j: int| 0 <= j < rows.len() ==> (#[trigger] rows[j]).len() >= 1,
            forall|j: int| 0 <= j < i ==> out[j]@ == rows[j][0]@,
        decreases rows.len() - i,
    {
        assert(rows[i as int].len() >= 1);
        out.push(rows[i][0].duplicate());
        i = i + 1;
    }
    assert(exp_views(out@) =~= firsts(exp_rows(rows@)));
    out
}

/// Pops the innermost scope of `context`, which is not the bottom one.
fn leave_scope(context: &mut TransformerContext)
    requires
        old(context).well_formed(),
        old(context)@.len() >= 2,
    ensures
        final(context).well_formed(),
        final(context)@ == outer(old(context)@),
{
    let _ = context.pop_scope();
}

/// The expansions of the expressions of a list in `context`.
fn into_exps(items: &Vec<PreExp>, context: &mut TransformerContext) -> (r: Result<
    Vec<Exp>,
    TransformError,
>)
    requires
        old(context).well_formed(),
    ensures
        final(context).well_formed(),
        final(context)@ == old(context)@,
        match r {
            Ok(exps) => exps_of(items@, old(context)@, 0) == Ok::<Seq<ExpView>, ErrorView>(
                exp_views(exps@),
            ),
            Err(e) => exps_of(items@, old(context)@, 0) == Err::<Seq<ExpView>, ErrorView>(e@),
        },
    decreases size_exps(items@, 0), 1nat, 0nat,
{
    let ghost ctx = context@;
    let mut out: Vec<Exp> = Vec::new();
    let mut i: usize = 0;
    assert(exp_views(out@) =~= Seq::<ExpView>::empty());
    while i < items.len()
        invariant
            i <= items.len(),
            context.well_formed(),
            context@ == ctx,
            ctx == old(context)@,
            exps_of(items@, ctx, 0) == match exps_of(items@, ctx, i as int) {
                Ok(rest) => Ok::<Seq<ExpView>, ErrorView>(exp_views(out@) + rest),
                Err(e) => Err::<Seq<ExpView>, ErrorView>(e),
            },
        decreases items.len() - i,
    {
        proof {
            lemma_size_exps_member(items@, 0, i as int);
        }
        let exp = match items[i].into_exp(context) {
            Ok(e) => e,
            Err(e) => {
                return Err(e);
            },
        };
        let ghost before = exp_views(out@);
        out.push(exp);
        proof {
            assert(exp_views(out@) =~= before.push(exp@));
            match exps_of(items@, ctx, i + 1) {
                Ok(rest) => {
                    assert(before + (seq![exp@] + rest) =~= exp_views(out@) + rest);
                },
                Err(_) => {},
            }
        }
        i = i + 1;
    }
    assert(exp_views(out@) + Seq::<ExpView>::empty() =~= exp_views(out@));
    Ok(out)
}

/// The expansions of one or two bodies in `context`.
fn expand_bodies(body: &PreExp, second: Option<&PreExp>, context: &mut TransformerContext) -> (r:
    Result<Vec<Exp>, TransformError>)
    requires
        old(context).well_formed(),
    ensures
        final(context).well_formed(),
        final(context)@ == old(context)@,
        match r {
            Ok(exps) => exps.len() == bodies_of(*body, second).len() && exps_of(
                bodies_of(*body, second),
                old(context)@,
                0,
            ) == Ok::<Seq<ExpView>, ErrorView>(exp_views(exps@)),
            Err(e) => exps_of(bodies_of(*body, second), old(context)@, 0) == Err::<
                Seq<ExpView>,
                ErrorView,
            >(e@),
        },
    decreases size_exps(bodies_of(*body, second), 0), 1nat, 0nat,
{
    let ghost ctx = context@;
    let ghost bodies = bodies_of(*body, second);
    proof {
        match second {
            Some(other) => {
                lemma_size_of_two(*body, *other);
                assert(exps_of(bodies, ctx, 2) == Ok::<Seq<ExpView>, ErrorView>(
                    Seq::<ExpView>::empty(),
                ));
                lemma_size_exp_positive(*other);
            },
            None => {
                lemma_size_of_one(*body);
                assert(exps_of(bodies, ctx, 1) == Ok::<Seq<ExpView>, ErrorView>(
                    Seq::<ExpView>::empty(),
                ));
            },
        }
        assert(bodies[0] == *body);
    }
    let first = body.into_exp(context)?;
    let mut out: Vec<Exp> = Vec::new();
    out.push(first);
    match second {
        Some(other) => {
            assert(bodies[1] == *other);
            let next = other.into_exp(context)?;
            out.push(next);
            proof {
                assert(exps_of(bodies, ctx, 1) == Ok::<Seq<ExpView>, ErrorView>(
                    seq![next@] + Seq::<ExpView>::empty(),
                ));
                assert(exp_views(out@) =~= seq![first@] + (seq![next@] + Seq::<ExpView>::empty()));
            }
        },
        None => {
            assert(exp_views(out@) =~= seq![first@] + Seq::<ExpView>::empty());
        },
    }
    Ok(out)
}

/// Adds to `results`, for every combination of elements of the iteration
/// sets from `current_level` on, the expansions of `body` and, where there is
/// one, of `second`. The scopes are left as they were found, whether the
/// expansion succeeds or fails.
pub fn recursive_set_resolver(
    sets: &Vec<IterableSet>,
    context: &mut TransformerContext,
    results: &mut Vec<Vec<Exp>>,
    current_level: usize,
    body: &PreExp,
    second: Option<&PreExp>,
) -> (r: Result<(), TransformError>)
    requires
        old(context).well_formed(),
        current_level < sets.len(),
    ensures
        final(context).well_formed(),
        final(context)@ == old(context)@,
        match r {
            Ok(_) => {
                &&& unrolled(sets@, bodies_of(*body, second), current_level as int, old(context)@)
                    is Ok
                &&& exp_rows(final(results)@) == exp_rows(old(results)@) + unrolled(
                    sets@,
                    bodies_of(*body, second),
                    current_level as int,
                    old(context)@,
                )->Ok_0
                &&& forall|i: int|
                    old(results).len() <= i < final(results).len() ==> (
                    #[trigger] final(results)[i]).len() == bodies_of(*body, second).len()
                &&& forall|i: int|
                    0 <= i < old(results).len() ==> (#[trigger] final(results)[i]) == old(
                        results,
                    )[i]
                &&& final(results).len() >= old(results).len()
            },
            Err(e) => unrolled(sets@, bodies_of(*body, second), current_level as int, old(context)@)
                == Err::<Seq<Seq<ExpView>>, ErrorView>(e@),
        },
    decreases size_sets(sets@, current_level as int) + size_exps(bodies_of(*body, second), 0),
        2nat,
        0nat,
{
    let ghost ctx = context@;
    let ghost bodies = bodies_of(*body, second);
    let ghost level = current_level as int;
    let ghost start = exp_rows(results@);
    let set = &sets[current_level];
    let names = pattern_name_list(&set.var);
    context.add_scope();
    assert(outer(context@) =~= ctx);
    match declare_pattern(&names, context) {
        Ok(_) => {},
        Err(e) => {
            leave_scope(context);
            return Err(e);
        },
    }
    let ghost declared = context@.last();
    assert(context@ =~= ctx.push(declared));
    let produced = match set.iterator.value.as_primitive(context) {
        Ok(v) => v,
        Err(e) => {
            leave_scope(context);
            return Err(e);
        },
    };
    let iterable = match produced {
        Primitive::Iterable(i) => i,
        other => {
            let e = wrong_argument("Iterable", &other.get_type());
            leave_scope(context);
            return Err(e);
        },
    };
    let ghost elements = iterable@.elements();
    let values = iterable.to_primitives();
    let mut k: usize = 0;
    assert(start + Seq::<Seq<ExpView>>::empty() =~= start);
    while k < values.len()
        invariant
            k <= values.len(),
            current_level < sets.len(),
            level == current_level as int,
            set == &sets[current_level as int],
            bodies == bodies_of(*body, second),
            names.deep_view() == pattern_names(set.var),
            elements == primitive_views(values@),
            context.well_formed(),
            context@.len() == ctx.len() + 1,
            ctx == old(context)@,
            ctx.len() >= 1,
            start == exp_rows(old(results)@),
            outer(context@) == ctx,
            unrolled(sets@, bodies, level, ctx) == unrolled_from(
                sets@,
                bodies,
                level,
                ctx,
                elements,
                0,
            ),
            results.len() >= old(results).len(),
            forall|i: int|
                old(results).len() <= i < results.len() ==> (#[trigger] results[i]).len()
                    == bodies.len(),
            forall|i: int| 0 <= i < old(results).len() ==> (#[trigger] results[i]) == old(results)[i],
            exp_rows(results@).len() >= start.len(),
            exp_rows(results@).subrange(0, start.len() as int) == start,
            unrolled_from(sets@, bodies, level, ctx, elements, 0) == match unrolled_from(
                sets@,
                bodies,
                level,
                ctx,
                elements,
                k as int,
            ) {
                Ok(rest) => Ok::<Seq<Seq<ExpView>>, ErrorView>(
                    exp_rows(results@).subrange(start.len() as int, results.len() as int) + rest,
                ),
                Err(e) => Err::<Seq<Seq<ExpView>>, ErrorView>(e),
            },
        decreases values.len() - k,
    {
        let ghost rows_before = exp_rows(results@);
        let ghost done = rows_before.subrange(start.len() as int, results.len() as int);
        assert(elements[k as int] == values[k as int]@);
        let frame = match bind_pattern(&set.var, &names, values[k].duplicate()) {
            Ok(f) => f,
            Err(e) => {
                leave_scope(context);
                return Err(e);
            },
        };
        context.replace_last_frame(frame);
        assert(context@ =~= ctx.push(frame@));
        assert(outer(context@) =~= ctx);
        if current_level + 1 >= sets.len() {
            let row = match expand_bodies(body, second, context) {
                Ok(row) => row,
                Err(e) => {
                    leave_scope(context);
                    return Err(e);
                },
            };
            results.push(row);
            proof {
                let rows_after = exp_rows(results@);
                assert(rows_after =~= rows_before.push(exp_views(row@)));
                assert(rows_after.subrange(0, start.len() as int) =~= start);
                let now = rows_after.subrange(start.len() as int, results.len() as int);
                assert(now =~= done + seq![exp_views(row@)]);
                match unrolled_from(sets@, bodies, level, ctx, elements, k + 1) {
                    Ok(rest) => {
                        assert(done + (seq![exp_views(row@)] + rest) =~= now + rest);
                    },
                    Err(_) => {},
                }
            }
        } else {
            let ghost len_before = results.len();
            match recursive_set_resolver(sets, context, results, current_level + 1, body, second) {
                Ok(_) => {},
                Err(e) => {
                    let wrapped = e.to_spanned_error(&set.span);
                    leave_scope(context);
                    return Err(wrapped);
                },
            }
            proof {
                let inner = unrolled(sets@, bodies, level + 1, ctx.push(frame@))->Ok_0;
                let rows_after = exp_rows(results@);
                assert(rows_after == rows_before + inner);
                assert(rows_after.subrange(0, start.len() as int) =~= start);
                let now = rows_after.subrange(start.len() as int, results.len() as int);
                assert(now =~= done + inner);
                match unrolled_from(sets@, bodies, level, ctx, elements, k + 1) {
                    Ok(rest) => {
                        assert(done + (inner + rest) =~= now + rest);
                    },
                    Err(_) => {},
                }
            }
        }
        k = k + 1;
    }
    leave_scope(context);
    proof {
        let rows = exp_rows(results@);
        let added = rows.subrange(start.len() as int, results.len() as int);
        assert(added + Seq::<Seq<ExpView>>::empty() =~= added);
        assert(rows =~= start + added);
    }
    Ok(())
}

impl PreExp {
    /// The expansion of the expression, before it is flattened and its error
    /// is given its place.
    fn raw_into_exp(&self, context: &mut TransformerContext) -> (r: Result<Exp, TransformError>)
        requires
            old(context).well_formed(),
        ensures
            final(context).well_formed(),
            final(context)@ == old(context)@,
            agrees(r, raw_exp(*self, old(context)@)),
        decreases size_exp(*self), 0nat, 0nat,
    {
        match self {
            PreExp::Number(n) => Ok(Exp::Number(n.value)),
            PreExp::Variable(name) => {
                match context.get_value(name.value.as_str()) {
                    Some(value) => match value {
                        Primitive::Number(n) => Ok(Exp::Number(*n)),
                        other => Err(wrong_argument("Number", &other.get_type())),
                    },
                    None => Ok(Exp::Variable(name.value.clone())),
                }
            },
            PreExp::CompoundVariable(c) => {
                let indexes = c.value.indexes.as_slice();
                assert(indexes.deep_view() =~= c.value.indexes.deep_view());
                let name = context.flatten_compound_variable(&c.value.name, indexes)?;
                Ok(Exp::Variable(name))
            },
            PreExp::ArrayAccess(array_access) => {
                let value = context.get_addressable_value(&array_access.value)?;
                match value {
                    Primitive::Number(n) => Ok(Exp::Number(n)),
                    other => Err(wrong_argument("Number", &other.get_type())),
                }
            },
            PreExp::FunctionCall(_, function_call) => {
                let value = function_call.call(context)?;
                match value {
                    Primitive::Number(n) => Ok(Exp::Number(n)),
                    other => Err(wrong_argument("Number", &other.get_type())),
                }
            },
            PreExp::BinaryOperation(op, lhs, rhs) => {
                let l = lhs.into_exp(context)?;
                let r = rhs.into_exp(context)?;
                Ok(Exp::BinOp(op.value, Box::new(l), Box::new(r)))
            },
            PreExp::UnaryOperation(op, exp) => {
                let inner = exp.into_exp(context)?;
                Ok(Exp::UnOp(op.value, Box::new(inner)))
            },
            PreExp::Mod(_, exp) => {
                let inner = exp.into_exp(context)?;
                Ok(Exp::Mod(Box::new(inner)))
            },
            PreExp::BlockFunction(f) => {
                let items = into_exps(&f.value.exps, context)?;
                combine_list(f.value.kind, items)
            },
            PreExp::BlockScopedFunction(f) => {
                let mut results: Vec<Vec<Exp>> = Vec::new();
                proof {
                    lemma_size_of_one(*f.value.exp);
                    assert(exp_rows(results@) =~= Seq::<Seq<ExpView>>::empty());
                }
                if f.value.iters.len() > 0 {
                    let ghost before = exp_rows(results@);
                    recursive_set_resolver(&f.value.iters, context, &mut results, 0, &f.value.exp, None)?;
                    proof {
                        let rows = unrolled(f.value.iters@, seq![*f.value.exp], 0, old(context)@)->Ok_0;
                        assert(before + rows =~= rows);
                    }
                }
                let items = first_of_each(&results);
                combine(f.value.kind, items)
            },
        }
    }

    /// The expanded expression that the expression stands for in `context`.
    /// The scopes are left as they were found.
    pub fn into_exp(&self, context: &mut TransformerContext) -> (r: Result<Exp, TransformError>)
        requires
            old(context).well_formed(),
        ensures
            final(context).well_formed(),
            final(context)@ == old(context)@,
            agrees(r, exp_of(*self, old(context)@)),
        decreases size_exp(*self), 0nat, 1nat,
    {
        match self.raw_into_exp(context) {
            Ok(e) => Ok(e.flatten()),
            Err(e) => Err(e.to_spanned_error(self.span())),
        }
    }
}

impl Exp {
    /// The expanded expression that `pre_exp` stands for in `context`.
    pub fn from_pre_exp(pre_exp: &PreExp, context: &mut TransformerContext) -> (r: Result<
        Exp,
        TransformError,
    >)
        requires
            old(context).well_formed(),
        ensures
            final(context).well_formed(),
            final(context)@ == old(context)@,
            agrees(r, exp_of(*pre_exp, old(context)@)),
    {
        pre_exp.into_exp(context)
    }
}

} // verus!
