//! The tree that the parser hands over: expressions with their iteration
//! sets, calls of built-in functions, conditions, the objective and the
//! constants. Every node carries the place in the source that it was read
//! from.
use vstd::prelude::*;
use vstd::string::*;
use crate::math::{Comparison, Op, OptimizationType, UnOp};
use crate::number::Number;
use crate::primitives::primitive::{primitive_text, Primitive};
use crate::span::{InputSpan, Spanned};
use crate::text::{join, join_text, owned, same_text};

verus! {

/// A name with indexes, as in `x_{i,j}`: it stands for one variable for each
/// choice of values of the indexes.
#[derive(Debug)]
pub struct CompoundVariable {
    pub name: String,
    pub indexes: Vec<String>,
}

/// An access into an iterable, as in `a[i][j]`.
#[derive(Debug)]
pub struct AddressableAccess {
    pub name: String,
    pub accesses: Vec<PreExp>,
}

/// The names that an iteration set binds: one name, or a tuple of names that
/// takes the parts of each element.
#[derive(Debug)]
pub enum VariableType {
    Single(Spanned<String>),
    Tuple(Vec<Spanned<String>>),
}

/// An iteration set, as in `i in 0..n`: names bound in turn to each element
/// of what the producer evaluates to.
#[derive(Debug)]
pub struct IterableSet {
    pub var: VariableType,
    pub iterator: Spanned<PreExp>,
    pub span: InputSpan,
}

/// The functions that take iteration sets and a body.
#[derive(Clone, Copy, Debug, PartialEq, Eq, Structural)]
pub enum BlockScopedFunctionKind {
    Sum,
    Prod,
    Min,
    Max,
    Avg,
}

/// The functions that take a list of expressions.
#[derive(Clone, Copy, Debug, PartialEq, Eq, Structural)]
pub enum BlockFunctionKind {
    Min,
    Max,
    Avg,
}

/// A function over iteration sets, as in `sum(i in 0..n) { x_i }`.
#[derive(Debug)]
pub struct BlockScopedFunction {
    pub kind: BlockScopedFunctionKind,
    pub iters: Vec<IterableSet>,
    pub exp: Box<PreExp>,
}

/// A function over a list of expressions, as in `min { a, b }`.
#[derive(Debug)]
pub struct BlockFunction {
    pub kind: BlockFunctionKind,
    pub exps: Vec<PreExp>,
}

/// An argument of a built-in function.
#[derive(Debug)]
pub enum Parameter {
    Number(Number),
    String(String),
    Variable(String),
    CompoundVariable(CompoundVariable),
    ArrayAccess(AddressableAccess),
    FunctionCall(Box<BuiltinFunction>),
}

/// `edges(G)`: the edges of a graph.
#[derive(Debug)]
pub struct EdgesOfGraphFn {
    pub of_graph: Parameter,
}

/// `nodes(G)`: the nodes of a graph.
#[derive(Debug)]
pub struct NodesOfGraphFn {
    pub of_graph: Parameter,
}

/// `neigh_edges(n)`: the edges that leave a node.
#[derive(Debug)]
pub struct NeighbourOfNodeFn {
    pub of_node: Parameter,
}

/// `neighs_of(name, G)`: the edges that leave the node of a graph with the
/// given name.
#[derive(Debug)]
pub struct NeighboursOfNodeInGraphFn {
    pub of_node: Parameter,
    pub in_graph: Parameter,
}

/// `len(a)`: how many elements an iterable has.
#[derive(Debug)]
pub struct LenOfIterableFn {
    pub of_iterable: Parameter,
}

/// `enumerate(a)`: the elements of an iterable, each in a tuple with its
/// position in front.
#[derive(Debug)]
pub struct EnumerateArray {
    pub array: Parameter,
}

/// `from..to`: the whole numbers from `from` up to but without `to`.
#[derive(Debug)]
pub struct NumericRange {
    pub from: Parameter,
    pub to: Parameter,
}

/// A call of a built-in function.
#[derive(Debug)]
pub enum BuiltinFunction {
    Edges(EdgesOfGraphFn),
    Nodes(NodesOfGraphFn),
    NeighbourEdges(NeighbourOfNodeFn),
    NeighboursOf(NeighboursOfNodeInGraphFn),
    Len(LenOfIterableFn),
    Enumerate(EnumerateArray),
    Range(NumericRange),
}

/// An expression as the parser reads it.
#[derive(Debug)]
pub enum PreExp {
    Number(Spanned<Number>),
    Mod(InputSpan, Box<PreExp>),
    BlockFunction(Spanned<BlockFunction>),
    Variable(Spanned<String>),
    CompoundVariable(Spanned<CompoundVariable>),
    BinaryOperation(Spanned<Op>, Box<PreExp>, Box<PreExp>),
    UnaryOperation(Spanned<UnOp>, Box<PreExp>),
    ArrayAccess(Spanned<AddressableAccess>),
    BlockScopedFunction(Spanned<BlockScopedFunction>),
    FunctionCall(InputSpan, BuiltinFunction),
}

/// The objective as the parser reads it.
#[derive(Debug)]
pub struct PreObjective {
    pub objective_type: OptimizationType,
    pub rhs: PreExp,
}

/// A condition as the parser reads it, with the iteration sets of its `for`
/// clause.
#[derive(Debug)]
pub struct PreCondition {
    pub lhs: PreExp,
    pub condition_type: Comparison,
    pub rhs: PreExp,
    pub iteration: Vec<IterableSet>,
    pub span: InputSpan,
}

/// A constant of the `where` block.
#[derive(Debug)]
pub struct Constant {
    pub name: Spanned<String>,
    pub value: Primitive,
}

/// A variable of the model, declared with the values that it may take.
#[derive(Debug)]
pub struct DomainVariable {
    pub name: Spanned<String>,
    pub domain: crate::math::VariableDomain,
}

impl DomainVariable {
    pub fn new(name: Spanned<String>, domain: crate::math::VariableDomain) -> (r: DomainVariable)
        ensures
            r.name == name,
            r.domain == domain,
    {
        DomainVariable { name, domain }
    }
}

/// A model as the parser reads it.
#[derive(Debug)]
pub struct PreProblem {
    pub objective: PreObjective,
    pub conditions: Vec<PreCondition>,
    pub constants: Vec<Constant>,
}

/// The texts of a list of names.
pub open spec fn name_texts(names: Seq<Spanned<String>>) -> Seq<Seq<char>> {
    Seq::new(names.len(), |i: int| names[i].value@)
}

impl BlockScopedFunctionKind {
    pub open spec fn text(self) -> Seq<char> {
        match self {
            BlockScopedFunctionKind::Sum => "sum"@,
            BlockScopedFunctionKind::Prod => "prod"@,
            BlockScopedFunctionKind::Min => "min"@,
            BlockScopedFunctionKind::Max => "max"@,
            BlockScopedFunctionKind::Avg => "avg"@,
        }
    }

    pub open spec fn latex(self) -> Seq<char> {
        match self {
            BlockScopedFunctionKind::Sum => "\\sum"@,
            BlockScopedFunctionKind::Prod => "\\prod"@,
            BlockScopedFunctionKind::Min => "\\min"@,
            BlockScopedFunctionKind::Max => "\\max"@,
            BlockScopedFunctionKind::Avg => "avg"@,
        }
    }

    /// The kind that `s` names.
    pub open spec fn named(s: Seq<char>) -> Option<BlockScopedFunctionKind> {
        if s == "sum"@ {
            Some(BlockScopedFunctionKind::Sum)
        } else if s == "prod"@ {
            Some(BlockScopedFunctionKind::Prod)
        } else if s == "min"@ {
            Some(BlockScopedFunctionKind::Min)
        } else if s == "max"@ {
            Some(BlockScopedFunctionKind::Max)
        } else if s == "avg"@ {
            Some(BlockScopedFunctionKind::Avg)
        } else {
            None
        }
    }

    pub fn to_string(&self) -> (r: String)
        ensures
            r@ == self.text(),
    {
        match self {
            BlockScopedFunctionKind::Sum => owned("sum"),
            BlockScopedFunctionKind::Prod => owned("prod"),
            BlockScopedFunctionKind::Min => owned("min"),
            BlockScopedFunctionKind::Max => owned("max"),
            BlockScopedFunctionKind::Avg => owned("avg"),
        }
    }

    pub fn to_latex(&self) -> (r: String)
        ensures
            r@ == self.latex(),
    {
        match self {
            BlockScopedFunctionKind::Sum => owned("\\sum"),
            BlockScopedFunctionKind::Prod => owned("\\prod"),
            BlockScopedFunctionKind::Min => owned("\\min"),
            BlockScopedFunctionKind::Max => owned("\\max"),
            BlockScopedFunctionKind::Avg => owned("avg"),
        }
    }

    /// The kind that `s` names; an error where it names none.
    pub fn from_str(s: &str) -> (r: Result<BlockScopedFunctionKind, ()>)
        ensures
            match r {
                Ok(k) => BlockScopedFunctionKind::named(s@) == Some(k),
                Err(_) => BlockScopedFunctionKind::named(s@) is None,
            },
    {
        if same_text(s, "sum") {
            Ok(BlockScopedFunctionKind::Sum)
        } else if same_text(s, "prod") {
            Ok(BlockScopedFunctionKind::Prod)
        } else if same_text(s, "min") {
            Ok(BlockScopedFunctionKind::Min)
        } else if same_text(s, "max") {
            Ok(BlockScopedFunctionKind::Max)
        } else if same_text(s, "avg") {
            Ok(BlockScopedFunctionKind::Avg)
        } else {
            Err(())
        }
    }

    /// All the kinds.
    pub fn kinds() -> (r: Vec<BlockScopedFunctionKind>)
        ensures
            r@ == seq![
                BlockScopedFunctionKind::Sum,
                BlockScopedFunctionKind::Prod,
                BlockScopedFunctionKind::Min,
                BlockScopedFunctionKind::Max,
                BlockScopedFunctionKind::Avg,
            ],
    {
        let mut out: Vec<BlockScopedFunctionKind> = Vec::new();
        out.push(BlockScopedFunctionKind::Sum);
        out.push(BlockScopedFunctionKind::Prod);
        out.push(BlockScopedFunctionKind::Min);
        out.push(BlockScopedFunctionKind::Max);
        out.push(BlockScopedFunctionKind::Avg);
        assert(out@ =~= seq![
            BlockScopedFunctionKind::Sum,
            BlockScopedFunctionKind::Prod,
            BlockScopedFunctionKind::Min,
            BlockScopedFunctionKind::Max,
            BlockScopedFunctionKind::Avg,
        ]);
        out
    }

    /// The names of all the kinds.
    pub fn kinds_to_string() -> (r: Vec<String>)
        ensures
            r.deep_view() == seq!["sum"@, "prod"@, "min"@, "max"@, "avg"@],
    {
        let mut out: Vec<String> = Vec::new();
        out.push(owned("sum"));
        out.push(owned("prod"));
        out.push(owned("min"));
        out.push(owned("max"));
        out.push(owned("avg"));
        assert(out.deep_view() =~= seq!["sum"@, "prod"@, "min"@, "max"@, "avg"@]);
        out
    }
}

impl BlockFunctionKind {
    pub open spec fn text(self) -> Seq<char> {
        match self {
            BlockFunctionKind::Min => "min"@,
            BlockFunctionKind::Max => "max"@,
            BlockFunctionKind::Avg => "avg"@,
        }
    }

    pub open spec fn latex(self) -> Seq<char> {
        match self {
            BlockFunctionKind::Min => "\\min"@,
            BlockFunctionKind::Max => "\\max"@,
            BlockFunctionKind::Avg => "avg"@,
        }
    }

    /// The kind that `s` names.
    pub open spec fn named(s: Seq<char>) -> Option<BlockFunctionKind> {
        if s == "min"@ {
            Some(BlockFunctionKind::Min)
        } else if s == "max"@ {
            Some(BlockFunctionKind::Max)
        } else if s == "avg"@ {
            Some(BlockFunctionKind::Avg)
        } else {
            None
        }
    }

    pub fn to_string(&self) -> (r: String)
        ensures
            r@ == self.text(),
    {
        match self {
            BlockFunctionKind::Min => owned("min"),
            BlockFunctionKind::Max => owned("max"),
            BlockFunctionKind::Avg => owned("avg"),
        }
    }

    pub fn to_latex(&self) -> (r: String)
        ensures
            r@ == self.latex(),
    {
        match self {
            BlockFunctionKind::Min => owned("\\min"),
            BlockFunctionKind::Max => owned("\\max"),
            BlockFunctionKind::Avg => owned("avg"),
        }
    }

    /// The kind that `s` names; an error where it names none.
    pub fn from_str(s: &str) -> (r: Result<BlockFunctionKind, ()>)
        ensures
            match r {
                Ok(k) => BlockFunctionKind::named(s@) == Some(k),
                Err(_) => BlockFunctionKind::named(s@) is None,
            },
    {
        if same_text(s, "min") {
            Ok(BlockFunctionKind::Min)
        } else if same_text(s, "max") {
            Ok(BlockFunctionKind::Max)
        } else if same_text(s, "avg") {
            Ok(BlockFunctionKind::Avg)
        } else {
            Err(())
        }
    }

    /// All the kinds.
    pub fn kinds() -> (r: Vec<BlockFunctionKind>)
        ensures
            r@ == seq![BlockFunctionKind::Min, BlockFunctionKind::Max, BlockFunctionKind::Avg],
    {
        let mut out: Vec<BlockFunctionKind> = Vec::new();
        out.push(BlockFunctionKind::Min);
        out.push(BlockFunctionKind::Max);
        out.push(BlockFunctionKind::Avg);
        assert(out@ =~= seq![
            BlockFunctionKind::Min,
            BlockFunctionKind::Max,
            BlockFunctionKind::Avg,
        ]);
        out
    }

    /// The names of all the kinds.
    pub fn kinds_to_string() -> (r: Vec<String>)
        ensures
            r.deep_view() == seq!["min"@, "max"@, "avg"@],
    {
        let mut out: Vec<String> = Vec::new();
        out.push(owned("min"));
        out.push(owned("max"));
        out.push(owned("avg"));
        assert(out.deep_view() =~= seq!["min"@, "max"@, "avg"@]);
        out
    }
}

impl VariableType {
    /// The text of the names: one name as it is, a tuple of names in round
    /// brackets.
    pub open spec fn text(self) -> Seq<char> {
        match self {
            VariableType::Single(name) => name.value@,
            VariableType::Tuple(names) => "("@ + join_text(name_texts(names@), ", "@) + ")"@,
        }
    }

    pub fn to_string(&self) -> (r: String)
        ensures
            r@ == self.text(),
    {
        match self {
            VariableType::Single(name) => name.value.clone(),
            VariableType::Tuple(names) => {
                let mut parts: Vec<String> = Vec::new();
                let mut i: usize = 0;
                while i < names.len()
                    invariant
                        i <= names.len(),
                        parts.len() == i,
                        forall|j: int| 0 <= j < i ==> parts[j]@ == names[j].value@,
                    decreases names.len() - i,
                {
                    parts.push(names[i].value.clone());
                    i = i + 1;
                }
                assert(parts.deep_view() =~= name_texts(names@));
                let mut out = owned("(");
                out.append(join(&parts, ", ").as_str());
                out.append(")");
                out
            },
        }
    }
}

impl CompoundVariable {
    pub fn new(name: String, indexes: Vec<String>) -> (r: CompoundVariable)
        ensures
            r.name == name,
            r.indexes == indexes,
    {
        CompoundVariable { name, indexes }
    }

    /// The text of the name: the stem and the indexes, joined by `_`.
    pub open spec fn text(self) -> Seq<char> {
        self.name@ + "_"@ + join_text(self.indexes.deep_view(), "_"@)
    }

    pub fn to_string(&self) -> (r: String)
        ensures
            r@ == self.text(),
    {
        let mut out = self.name.clone();
        out.append("_");
        out.append(join(&self.indexes, "_").as_str());
        out
    }
}

impl AddressableAccess {
    pub fn new(name: String, accesses: Vec<PreExp>) -> (r: AddressableAccess)
        ensures
            r.name == name,
            r.accesses == accesses,
    {
        AddressableAccess { name, accesses }
    }
}

impl IterableSet {
    pub fn new(var: VariableType, iterator: Spanned<PreExp>, span: InputSpan) -> (r: IterableSet)
        ensures
            r.var == var,
            r.iterator == iterator,
            r.span == span,
    {
        IterableSet { var, iterator, span }
    }
}

impl BlockScopedFunction {
    pub fn new(kind: BlockScopedFunctionKind, iters: Vec<IterableSet>, exp: Box<PreExp>) -> (r:
        BlockScopedFunction)
        ensures
            r.kind == kind,
            r.iters == iters,
            r.exp == exp,
    {
        BlockScopedFunction { kind, iters, exp }
    }

    /// The place of the body of the function in the source.
    pub fn body_span(&self) -> (r: InputSpan)
        ensures
            r == self.exp.span_spec(),
    {
        *self.exp.span()
    }
}

impl BlockFunction {
    pub fn new(kind: BlockFunctionKind, exps: Vec<PreExp>) -> (r: BlockFunction)
        ensures
            r.kind == kind,
            r.exps == exps,
    {
        BlockFunction { kind, exps }
    }
}

impl PreExp {
    /// The place of the expression in the source.
    pub open spec fn span_spec(&self) -> InputSpan {
        match self {
            PreExp::Number(n) => n.span,
            PreExp::Mod(span, _) => *span,
            PreExp::BlockFunction(f) => f.span,
            PreExp::Variable(name) => name.span,
            PreExp::CompoundVariable(c) => c.span,
            PreExp::BinaryOperation(op, _, _) => op.span,
            PreExp::UnaryOperation(op, _) => op.span,
            PreExp::ArrayAccess(a) => a.span,
            PreExp::BlockScopedFunction(f) => f.span,
            PreExp::FunctionCall(span, _) => *span,
        }
    }

    /// The place of the expression in the source.
    pub fn span(&self) -> (r: &InputSpan)
        ensures
            *r == self.span_spec(),
    {
        match self {
            PreExp::Number(n) => &n.span,
            PreExp::Mod(span, _) => span,
            PreExp::BlockFunction(f) => &f.span,
            PreExp::Variable(name) => &name.span,
            PreExp::CompoundVariable(c) => &c.span,
            PreExp::BinaryOperation(op, _, _) => &op.span,
            PreExp::UnaryOperation(op, _) => &op.span,
            PreExp::ArrayAccess(a) => &a.span,
            PreExp::BlockScopedFunction(f) => &f.span,
            PreExp::FunctionCall(span, _) => span,
        }
    }

    /// The place of the expression in the source.
    pub fn get_span(&self) -> (r: &InputSpan)
        ensures
            *r == self.span_spec(),
    {
        self.span()
    }
}

impl PreObjective {
    pub fn new(objective_type: OptimizationType, rhs: PreExp) -> (r: PreObjective)
        ensures
            r.objective_type == objective_type,
            r.rhs == rhs,
    {
        PreObjective { objective_type, rhs }
    }
}

impl PreCondition {
    pub fn new(
        lhs: PreExp,
        condition_type: Comparison,
        rhs: PreExp,
        iteration: Vec<IterableSet>,
        span: InputSpan,
    ) -> (r: PreCondition)
        ensures
            r.lhs == lhs,
            r.condition_type == condition_type,
            r.rhs == rhs,
            r.iteration == iteration,
            r.span == span,
    {
        PreCondition { lhs, condition_type, rhs, iteration, span }
    }
}

impl Constant {
    pub fn new(name: Spanned<String>, value: Primitive) -> (r: Constant)
        ensures
            r.name == name,
            r.value == value,
    {
        Constant { name, value }
    }

    /// The text of the constant: its name, `=`, and its value.
    pub open spec fn text(self) -> Seq<char> {
        self.name.value@ + " = "@ + primitive_text(self.value@)
    }

    pub fn to_string(&self) -> (r: String)
        ensures
            r@ == self.text(),
    {
        let mut out = self.name.value.clone();
        out.append(" = ");
        out.append(self.value.to_string().as_str());
        out
    }
}

impl PreProblem {
    pub fn new(objective: PreObjective, conditions: Vec<PreCondition>, constants: Vec<Constant>) -> (r:
        PreProblem)
        ensures
            r.objective == objective,
            r.conditions == conditions,
            r.constants == constants,
    {
        PreProblem { objective, conditions, constants }
    }
}

} // verus!
