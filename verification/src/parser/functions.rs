//! The built-in functions as objects: how a call is made from its arguments,
//! and the registry that finds a function by its name.
use vstd::prelude::*;
use vstd::string::*;
use crate::error::{CompilationError, ErrorView, ParseError, ParseErrorView, TransformError};
use crate::number::Number;
use crate::parser::evaluator::{call_value, parameter_value, wrong_kind};
use crate::parser::ast::{parameter_views, CallView, ParameterView};
use crate::parser::pre_exp::{
    BuiltinFunction, EdgesOfGraphFn, EnumerateArray, LenOfIterableFn, NeighbourOfNodeFn,
    NeighboursOfNodeInGraphFn, NodesOfGraphFn, NumericRange, Parameter,
};
use crate::parser::printer::call_text;
use crate::parser::transformer::TransformerContext;
use crate::primitives::primitive::{
    duplicate_numbers, wrong_argument, IterableKind, IterableView, Primitive, PrimitiveView,
};
use crate::text::{owned, same_text};

verus! {

/// What every built-in function offers: it is made from the arguments of a
/// call, it is called in the scopes of a model, and it has a text.
pub trait FunctionCall: Sized {
    /// The call that this function is, as a case of [`BuiltinFunction`].
    spec fn as_builtin(&self) -> BuiltinFunction;

    /// The names of the arguments that the function takes.
    spec fn expected() -> Seq<Seq<char>>;

    /// The call of the function with the arguments `pars`, read at `span`;
    /// the error `WrongNumberOfArguments`, with the count given and the
    /// names expected, where the count of the arguments is not the one that
    /// the function takes.
    fn from_parameters(pars: Vec<Parameter>, span: &pest::Span) -> (r: Result<
        Self,
        CompilationError,
    >)
        ensures
            r is Ok <==> pars.len() == Self::expected().len(),
            r is Err ==> r->Err_0@.kind == ParseErrorView::WrongNumberOfArguments(
                pars.len() as nat,
                Self::expected(),
            ),
    ;

    /// What the call gives in `context`.
    fn call(&self, context: &TransformerContext) -> (r: Result<Primitive, TransformError>)
        requires
            context.well_formed(),
        ensures
            match r {
                Ok(v) => call_value(self.as_builtin(), context@) == Ok::<
                    PrimitiveView,
                    ErrorView,
                >(v@),
                Err(e) => call_value(self.as_builtin(), context@) == Err::<
                    PrimitiveView,
                    ErrorView,
                >(e@),
            },
    ;

    /// The text of the call.
    fn to_string(&self) -> (r: String)
        ensures
            r@ == call_text(self.as_builtin()),
    ;
}

/// The error for a call with `got` arguments of a function that takes the
/// arguments `expected`.
fn wrong_number_of_arguments(got: usize, expected: Vec<String>, span: &pest::Span) -> (r:
    CompilationError)
    ensures
        r@.kind == ParseErrorView::WrongNumberOfArguments(got as nat, expected.deep_view()),
{
    CompilationError::from_span(ParseError::WrongNumberOfArguments(got, expected), span, false)
}

/// The list of the one name `a`.
fn one_name(a: &str) -> (r: Vec<String>)
    ensures
        r.deep_view() == seq![a@],
{
    let mut out: Vec<String> = Vec::new();
    out.push(owned(a));
    assert(out.deep_view() =~= seq![a@]);
    out
}

/// The list of the two names `a` and `b`.
fn two_names(a: &str, b: &str) -> (r: Vec<String>)
    ensures
        r.deep_view() == seq![a@, b@],
{
    let mut out: Vec<String> = Vec::new();
    out.push(owned(a));
    out.push(owned(b));
    assert(out.deep_view() =~= seq![a@, b@]);
    out
}

impl EdgesOfGraphFn {
    /// `edges` of the one argument `pars`.
    pub fn from_parameters(pars: Vec<Parameter>, span: &pest::Span) -> (r: Result<
        EdgesOfGraphFn,
        CompilationError,
    >)
        ensures
            r is Ok <==> pars.len() == 1,
            r is Ok ==> r->Ok_0.of_graph == pars[0],
            r is Err ==> r->Err_0@.kind == ParseErrorView::WrongNumberOfArguments(
                pars.len() as nat,
                seq!["Graph"@],
            ),
    {
        let mut pars = pars;
        if pars.len() == 1 {
            Ok(EdgesOfGraphFn { of_graph: pars.remove(0) })
        } else {
            Err(wrong_number_of_arguments(pars.len(), one_name("Graph"), span))
        }
    }
}

impl NodesOfGraphFn {
    /// `nodes` of the one argument `pars`.
    pub fn from_parameters(pars: Vec<Parameter>, span: &pest::Span) -> (r: Result<
        NodesOfGraphFn,
        CompilationError,
    >)
        ensures
            r is Ok <==> pars.len() == 1,
            r is Ok ==> r->Ok_0.of_graph == pars[0],
            r is Err ==> r->Err_0@.kind == ParseErrorView::WrongNumberOfArguments(
                pars.len() as nat,
                seq!["Graph"@],
            ),
    {
        let mut pars = pars;
        if pars.len() == 1 {
            Ok(NodesOfGraphFn { of_graph: pars.remove(0) })
        } else {
            Err(wrong_number_of_arguments(pars.len(), one_name("Graph"), span))
        }
    }
}

impl NeighbourOfNodeFn {
    /// `neigh_edges` of the one argument `pars`.
    pub fn from_parameters(pars: Vec<Parameter>, span: &pest::Span) -> (r: Result<
        NeighbourOfNodeFn,
        CompilationError,
    >)
        ensures
            r is Ok <==> pars.len() == 1,
            r is Ok ==> r->Ok_0.of_node == pars[0],
            r is Err ==> r->Err_0@.kind == ParseErrorView::WrongNumberOfArguments(
                pars.len() as nat,
                seq!["Node"@],
            ),
    {
        let mut pars = pars;
        if pars.len() == 1 {
            Ok(NeighbourOfNodeFn { of_node: pars.remove(0) })
        } else {
            Err(wrong_number_of_arguments(pars.len(), one_name("Node"), span))
        }
    }
}

impl NeighboursOfNodeInGraphFn {
    /// `neighs_of` of the two arguments `pars`.
    pub fn from_parameters(pars: Vec<Parameter>, span: &pest::Span) -> (r: Result<
        NeighboursOfNodeInGraphFn,
        CompilationError,
    >)
        ensures
            r is Ok <==> pars.len() == 2,
            r is Ok ==> r->Ok_0.of_node == pars[0] && r->Ok_0.in_graph == pars[1],
            r is Err ==> r->Err_0@.kind == ParseErrorView::WrongNumberOfArguments(
                pars.len() as nat,
                seq!["Node"@, "Graph"@],
            ),
    {
        let mut pars = pars;
        if pars.len() == 2 {
            let of_node = pars.remove(0);
            let in_graph = pars.remove(0);
            Ok(NeighboursOfNodeInGraphFn { of_node, in_graph })
        } else {
            Err(wrong_number_of_arguments(pars.len(), two_names("Node", "Graph"), span))
        }
    }
}

impl LenOfIterableFn {
    /// `len` of the one argument `pars`.
    pub fn from_parameters(pars: Vec<Parameter>, span: &pest::Span) -> (r: Result<
        LenOfIterableFn,
        CompilationError,
    >)
        ensures
            r is Ok <==> pars.len() == 1,
            r is Ok ==> r->Ok_0.of_iterable == pars[0],
            r is Err ==> r->Err_0@.kind == ParseErrorView::WrongNumberOfArguments(
                pars.len() as nat,
                seq!["Iterable"@],
            ),
    {
        let mut pars = pars;
        if pars.len() == 1 {
            Ok(LenOfIterableFn { of_iterable: pars.remove(0) })
        } else {
            Err(wrong_number_of_arguments(pars.len(), one_name("Iterable"), span))
        }
    }
}

impl EnumerateArray {
    /// `enumerate` of the one argument `pars`.
    pub fn from_parameters(pars: Vec<Parameter>, span: &pest::Span) -> (r: Result<
        EnumerateArray,
        CompilationError,
    >)
        ensures
            r is Ok <==> pars.len() == 1,
            r is Ok ==> r->Ok_0.array == pars[0],
            r is Err ==> r->Err_0@.kind == ParseErrorView::WrongNumberOfArguments(
                pars.len() as nat,
                seq!["Iterable"@],
            ),
    {
        let mut pars = pars;
        if pars.len() == 1 {
            Ok(EnumerateArray { array: pars.remove(0) })
        } else {
            Err(wrong_number_of_arguments(pars.len(), one_name("Iterable"), span))
        }
    }
}

impl NumericRange {
    /// The range between the two arguments `pars`.
    pub fn from_parameters(pars: Vec<Parameter>, span: &pest::Span) -> (r: Result<
        NumericRange,
        CompilationError,
    >)
        ensures
            r is Ok <==> pars.len() == 2,
            r is Ok ==> r->Ok_0.from == pars[0] && r->Ok_0.to == pars[1],
            r is Err ==> r->Err_0@.kind == ParseErrorView::WrongNumberOfArguments(
                pars.len() as nat,
                seq!["Number"@, "Number"@],
            ),
    {
        let mut pars = pars;
        if pars.len() == 2 {
            let from = pars.remove(0);
            let to = pars.remove(0);
            Ok(NumericRange { from, to })
        } else {
            Err(wrong_number_of_arguments(pars.len(), two_names("Number", "Number"), span))
        }
    }
}

impl FunctionCall for EdgesOfGraphFn {
    open spec fn as_builtin(&self) -> BuiltinFunction {
        BuiltinFunction::Edges(*self)
    }

    open spec fn expected() -> Seq<Seq<char>> {
        seq!["Graph"@]
    }

    fn from_parameters(pars: Vec<Parameter>, span: &pest::Span) -> (r: Result<
        Self,
        CompilationError,
    >) {
        EdgesOfGraphFn::from_parameters(pars, span)
    }

    fn call(&self, context: &TransformerContext) -> (r: Result<Primitive, TransformError>) {
        EdgesOfGraphFn::call(self, context)
    }

    fn to_string(&self) -> (r: String) {
        EdgesOfGraphFn::to_string(self)
    }
}

impl FunctionCall for NodesOfGraphFn {
    open spec fn as_builtin(&self) -> BuiltinFunction {
        BuiltinFunction::Nodes(*self)
    }

    open spec fn expected() -> Seq<Seq<char>> {
        seq!["Graph"@]
    }

    fn from_parameters(pars: Vec<Parameter>, span: &pest::Span) -> (r: Result<
        Self,
        CompilationError,
    >) {
        NodesOfGraphFn::from_parameters(pars, span)
    }

    fn call(&self, context: &TransformerContext) -> (r: Result<Primitive, TransformError>) {
        NodesOfGraphFn::call(self, context)
    }

    fn to_string(&self) -> (r: String) {
        NodesOfGraphFn::to_string(self)
    }
}

impl FunctionCall for NeighbourOfNodeFn {
    open spec fn as_builtin(&self) -> BuiltinFunction {
        BuiltinFunction::NeighbourEdges(*self)
    }

    open spec fn expected() -> Seq<Seq<char>> {
        seq!["Node"@]
    }

    fn from_parameters(pars: Vec<Parameter>, span: &pest::Span) -> (r: Result<
        Self,
        CompilationError,
    >) {
        NeighbourOfNodeFn::from_parameters(pars, span)
    }

    fn call(&self, context: &TransformerContext) -> (r: Result<Primitive, TransformError>) {
        NeighbourOfNodeFn::call(self, context)
    }

    fn to_string(&self) -> (r: String) {
        NeighbourOfNodeFn::to_string(self)
    }
}

impl FunctionCall for NeighboursOfNodeInGraphFn {
    open spec fn as_builtin(&self) -> BuiltinFunction {
        BuiltinFunction::NeighboursOf(*self)
    }

    open spec fn expected() -> Seq<Seq<char>> {
        seq!["Node"@, "Graph"@]
    }

    fn from_parameters(pars: Vec<Parameter>, span: &pest::Span) -> (r: Result<
        Self,
        CompilationError,
    >) {
        NeighboursOfNodeInGraphFn::from_parameters(pars, span)
    }

    fn call(&self, context: &TransformerContext) -> (r: Result<Primitive, TransformError>) {
        NeighboursOfNodeInGraphFn::call(self, context)
    }

    fn to_string(&self) -> (r: String) {
        NeighboursOfNodeInGraphFn::to_string(self)
    }
}

impl FunctionCall for LenOfIterableFn {
    open spec fn as_builtin(&self) -> BuiltinFunction {
        BuiltinFunction::Len(*self)
    }

    open spec fn expected() -> Seq<Seq<char>> {
        seq!["Iterable"@]
    }

    fn from_parameters(pars: Vec<Parameter>, span: &pest::Span) -> (r: Result<
        Self,
        CompilationError,
    >) {
        LenOfIterableFn::from_parameters(pars, span)
    }

    fn call(&self, context: &TransformerContext) -> (r: Result<Primitive, TransformError>) {
        LenOfIterableFn::call(self, context)
    }

    fn to_string(&self) -> (r: String) {
        LenOfIterableFn::to_string(self)
    }
}

impl FunctionCall for EnumerateArray {
    open spec fn as_builtin(&self) -> BuiltinFunction {
        BuiltinFunction::Enumerate(*self)
    }

    open spec fn expected() -> Seq<Seq<char>> {
        seq!["Iterable"@]
    }

    fn from_parameters(pars: Vec<Parameter>, span: &pest::Span) -> (r: Result<
        Self,
        CompilationError,
    >) {
        EnumerateArray::from_parameters(pars, span)
    }

    fn call(&self, context: &TransformerContext) -> (r: Result<Primitive, TransformError>) {
        EnumerateArray::call(self, context)
    }

    fn to_string(&self) -> (r: String) {
        EnumerateArray::to_string(self)
    }
}

impl FunctionCall for NumericRange {
    open spec fn as_builtin(&self) -> BuiltinFunction {
        BuiltinFunction::Range(*self)
    }

    open spec fn expected() -> Seq<Seq<char>> {
        seq!["Number"@, "Number"@]
    }

    fn from_parameters(pars: Vec<Parameter>, span: &pest::Span) -> (r: Result<
        Self,
        CompilationError,
    >) {
        NumericRange::from_parameters(pars, span)
    }

    fn call(&self, context: &TransformerContext) -> (r: Result<Primitive, TransformError>) {
        NumericRange::call(self, context)
    }

    fn to_string(&self) -> (r: String) {
        NumericRange::to_string(self)
    }
}

/// The names of the built-in functions.
pub open spec fn is_builtin_name(name: Seq<char>) -> bool {
    name == "edges"@ || name == "nodes"@ || name == "neigh_edges"@ || name == "neighs_of"@ || name
        == "len"@ || name == "enumerate"@ || name == "range"@
}

/// How many arguments the built-in function `name` takes.
pub open spec fn builtin_arity(name: Seq<char>) -> nat {
    if name == "neighs_of"@ || name == "range"@ {
        2
    } else {
        1
    }
}

/// The message for a name that is the name of no built-in function.
pub open spec fn unknown_function_text(name: Seq<char>) -> Seq<char> {
    "Unknown function "@ + name
}

/// The names of the arguments that the built-in function `name` takes.
pub open spec fn expected_arguments(name: Seq<char>) -> Seq<Seq<char>> {
    if name == "edges"@ || name == "nodes"@ {
        seq!["Graph"@]
    } else if name == "neigh_edges"@ {
        seq!["Node"@]
    } else if name == "neighs_of"@ {
        seq!["Node"@, "Graph"@]
    } else if name == "range"@ {
        seq!["Number"@, "Number"@]
    } else {
        seq!["Iterable"@]
    }
}

/// The call of the built-in function `name` with the arguments `params`.
pub open spec fn call_of(name: Seq<char>, params: Seq<ParameterView>) -> Result<
    CallView,
    ParseErrorView,
> {
    if !is_builtin_name(name) {
        Err(ParseErrorView::SemanticError(unknown_function_text(name)))
    } else if params.len() != builtin_arity(name) {
        Err(ParseErrorView::WrongNumberOfArguments(params.len(), expected_arguments(name)))
    } else if name == "edges"@ {
        Ok(CallView::Edges(params[0]))
    } else if name == "nodes"@ {
        Ok(CallView::Nodes(params[0]))
    } else if name == "neigh_edges"@ {
        Ok(CallView::NeighbourEdges(params[0]))
    } else if name == "neighs_of"@ {
        Ok(CallView::NeighboursOf(params[0], params[1]))
    } else if name == "len"@ {
        Ok(CallView::Len(params[0]))
    } else if name == "enumerate"@ {
        Ok(CallView::Enumerate(params[0]))
    } else {
        Ok(CallView::Range(params[0], params[1]))
    }
}

/// The names of the arguments that the built-in function `name` takes.
fn expected_names(name: &str) -> (r: Vec<String>)
    ensures
        r.deep_view() == expected_arguments(name@),
{
    if same_text(name, "edges") || same_text(name, "nodes") {
        one_name("Graph")
    } else if same_text(name, "neigh_edges") {
        one_name("Node")
    } else if same_text(name, "neighs_of") {
        two_names("Node", "Graph")
    } else if same_text(name, "range") {
        two_names("Number", "Number")
    } else {
        one_name("Iterable")
    }
}

/// The names of the built-in functions differ from one another.
proof fn lemma_builtin_names_differ()
    ensures
        "edges"@ != "nodes"@,
        "edges"@ != "neigh_edges"@,
        "edges"@ != "neighs_of"@,
        "edges"@ != "len"@,
        "edges"@ != "range"@,
        "nodes"@ != "neigh_edges"@,
        "nodes"@ != "neighs_of"@,
        "nodes"@ != "len"@,
        "nodes"@ != "enumerate"@,
        "nodes"@ != "range"@,
        "neigh_edges"@ != "neighs_of"@,
        "neigh_edges"@ != "len"@,
        "neigh_edges"@ != "enumerate"@,
        "neigh_edges"@ != "range"@,
        "neighs_of"@ != "len"@,
        "neighs_of"@ != "enumerate"@,
        "neighs_of"@ != "range"@,
        "len"@ != "enumerate"@,
        "len"@ != "range"@,
        "enumerate"@ != "range"@,
        "edges"@ != "enumerate"@,
{
    reveal_strlit("edges");
    reveal_strlit("nodes");
    reveal_strlit("neigh_edges");
    reveal_strlit("neighs_of");
    reveal_strlit("len");
    reveal_strlit("enumerate");
    reveal_strlit("range");
    assert("edges"@.len() == 5 && "nodes"@.len() == 5 && "range"@.len() == 5);
    assert("neigh_edges"@.len() == 11 && "neighs_of"@.len() == 9);
    assert("len"@.len() == 3 && "enumerate"@.len() == 9);
    assert("edges"@[0] != "range"@[0] && "edges"@[0] != "nodes"@[0] && "nodes"@[0] != "range"@[0]);
    assert("enumerate"@[0] != "neighs_of"@[0]);
}

impl BuiltinFunction {
    /// The call of the built-in function `name` with the arguments `pars`: a
    /// semantic error where there is no function of that name, and
    /// `WrongNumberOfArguments` where there is one and it takes another
    /// count of arguments.
    pub fn with_arguments(name: &str, pars: Vec<Parameter>) -> (r: Result<
        BuiltinFunction,
        ParseError,
    >)
        ensures
            match r {
                Ok(f) => call_of(name@, parameter_views(pars@)) == Ok::<CallView, ParseErrorView>(
                    f@,
                ),
                Err(e) => call_of(name@, parameter_views(pars@)) == Err::<
                    CallView,
                    ParseErrorView,
                >(e@),
            },
    {
        let mut pars = pars;
        let ghost views = parameter_views(pars@);
        proof {
            lemma_builtin_names_differ();
        }
        let binary = same_text(name, "neighs_of") || same_text(name, "range");
        let known = binary || same_text(name, "edges") || same_text(name, "nodes") || same_text(
            name,
            "neigh_edges",
        ) || same_text(name, "len") || same_text(name, "enumerate");
        if !known {
            let mut message = owned("Unknown function ");
            message.append(name);
            return Err(ParseError::SemanticError(message));
        }
        let arity: usize = if binary {
            2
        } else {
            1
        };
        if pars.len() != arity {
            return Err(ParseError::WrongNumberOfArguments(pars.len(), expected_names(name)));
        }
        let first = pars.remove(0);
        assert(first@ == views[0]);
        if binary {
            let second = pars.remove(0);
            assert(second@ == views[1]);
            if same_text(name, "range") {
                Ok(BuiltinFunction::Range(NumericRange { from: first, to: second }))
            } else {
                Ok(
                    BuiltinFunction::NeighboursOf(
                        NeighboursOfNodeInGraphFn { of_node: first, in_graph: second },
                    ),
                )
            }
        } else if same_text(name, "edges") {
            Ok(BuiltinFunction::Edges(EdgesOfGraphFn { of_graph: first }))
        } else if same_text(name, "nodes") {
            Ok(BuiltinFunction::Nodes(NodesOfGraphFn { of_graph: first }))
        } else if same_text(name, "neigh_edges") {
            Ok(BuiltinFunction::NeighbourEdges(NeighbourOfNodeFn { of_node: first }))
        } else if same_text(name, "len") {
            Ok(BuiltinFunction::Len(LenOfIterableFn { of_iterable: first }))
        } else {
            Ok(BuiltinFunction::Enumerate(EnumerateArray { array: first }))
        }
    }

    /// The call of the built-in function `name` with the arguments `pars`,
    /// read at `span`: the error of [`BuiltinFunction::with_arguments`] is
    /// given the place of the span.
    pub fn from_name(name: &str, pars: Vec<Parameter>, span: &pest::Span) -> (r: Result<
        BuiltinFunction,
        CompilationError,
    >)
        ensures
            match r {
                Ok(f) => call_of(name@, parameter_views(pars@)) == Ok::<CallView, ParseErrorView>(
                    f@,
                ),
                Err(e) => call_of(name@, parameter_views(pars@)) == Err::<
                    CallView,
                    ParseErrorView,
                >(e@.kind),
            },
    {
        match BuiltinFunction::with_arguments(name, pars) {
            Ok(f) => Ok(f),
            Err(kind) => Err(CompilationError::from_span(kind, span, false)),
        }
    }
}

/// The list of numbers that a value is.
pub open spec fn expect_number_array(v: PrimitiveView) -> Result<Seq<Number>, ErrorView> {
    match v {
        PrimitiveView::Iterable(IterableView::Numbers(items)) => Ok(items),
        _ => Err(wrong_kind("Number[]"@, v)),
    }
}

/// Every row of the list is a list of numbers.
pub open spec fn rows_of_numbers(rows: Seq<IterableView>) -> bool {
    forall|i: int| 0 <= i < rows.len() ==> (#[trigger] rows[i]) is Numbers
}

/// The table of numbers that a value is: a list of lists of numbers.
pub open spec fn expect_number_matrix(v: PrimitiveView) -> Result<Seq<Seq<Number>>, ErrorView> {
    match v {
        PrimitiveView::Iterable(IterableView::Iterables(rows)) => if rows_of_numbers(rows) {
            Ok(Seq::new(rows.len(), |i: int| rows[i]->Numbers_0))
        } else {
            Err(wrong_kind("Number[][]"@, v))
        },
        _ => Err(wrong_kind("Number[][]"@, v)),
    }
}

/// The views of the rows of a table of numbers.
pub open spec fn number_rows(rows: Seq<Vec<Number>>) -> Seq<Seq<Number>> {
    Seq::new(rows.len(), |i: int| rows[i]@)
}

impl Parameter {
    /// The list of numbers that the argument evaluates to.
    pub fn as_number_array(&self, context: &TransformerContext) -> (r: Result<
        Vec<Number>,
        TransformError,
    >)
        requires
            context.well_formed(),
        ensures
            match r {
                Ok(items) => parameter_value(*self, context@) is Ok && expect_number_array(
                    parameter_value(*self, context@)->Ok_0,
                ) == Ok::<Seq<Number>, ErrorView>(items@),
                Err(e) => match parameter_value(*self, context@) {
                    Ok(v) => expect_number_array(v) == Err::<Seq<Number>, ErrorView>(e@),
                    Err(inner) => inner == e@,
                },
            },
    {
        let value = self.as_primitive(context)?;
        match value {
            Primitive::Iterable(IterableKind::Numbers(items)) => Ok(items),
            other => Err(wrong_argument("Number[]", &other.get_type())),
        }
    }

    /// The table of numbers that the argument evaluates to.
    pub fn as_number_matrix(&self, context: &TransformerContext) -> (r: Result<
        Vec<Vec<Number>>,
        TransformError,
    >)
        requires
            context.well_formed(),
        ensures
            match r {
                Ok(rows) => parameter_value(*self, context@) is Ok && expect_number_matrix(
                    parameter_value(*self, context@)->Ok_0,
                ) == Ok::<Seq<Seq<Number>>, ErrorView>(number_rows(rows@)),
                Err(e) => match parameter_value(*self, context@) {
                    Ok(v) => expect_number_matrix(v) == Err::<Seq<Seq<Number>>, ErrorView>(e@),
                    Err(inner) => inner == e@,
                },
            },
    {
        let value = self.as_primitive(context)?;
        match &value {
            Primitive::Iterable(IterableKind::Iterables(rows)) => {
                let mut out: Vec<Vec<Number>> = Vec::new();
                let mut i: usize = 0;
                while i < rows.len()
                    invariant
                        i <= rows.len(),
                        out.len() == i,
                        parameter_value(*self, context@) == Ok::<PrimitiveView, ErrorView>(
                            value@,
                        ),
                        value@ is Iterable,
                        value@->Iterable_0 is Iterables,
                        value@->Iterable_0->Iterables_0
                            == crate::primitives::primitive::iterable_views(rows@),
                        forall|j: int| 0 <= j < i ==> (#[trigger] rows[j]@) is Numbers,
                        forall|j: int| 0 <= j < i ==> out[j]@ == rows[j]@->Numbers_0,
                    decreases rows.len() - i,
                {
                    match &rows[i] {
                        IterableKind::Numbers(items) => {
                            out.push(duplicate_numbers(items));
                        },
                        _ => {
                            assert(!(crate::primitives::primitive::iterable_views(
                                rows@,
                            )[i as int] is Numbers));
                            return Err(wrong_argument("Number[][]", &value.get_type()));
                        },
                    }
                    i = i + 1;
                }
                proof {
                    let views = crate::primitives::primitive::iterable_views(rows@);
                    assert forall|j: int| 0 <= j < views.len() implies (#[trigger] views[j])
                        is Numbers by {
                        assert(rows[j]@ is Numbers);
                    }
                    assert(number_rows(out@) =~= Seq::new(
                        views.len(),
                        |i: int| views[i]->Numbers_0,
                    ));
                }
                Ok(out)
            },
            _ => Err(wrong_argument("Number[][]", &value.get_type())),
        }
    }
}

} // verus!
