//! The tree of a model as a mathematical value.
use vstd::prelude::*;
use vstd::string::*;
use crate::math::{Comparison, Op, OptimizationType, UnOp, VariableDomain};
use crate::number::Number;
use crate::parser::pre_exp::{
    BlockFunctionKind, BlockScopedFunctionKind, BuiltinFunction, CompoundVariable, Constant,
    DomainVariable, IterableSet, Parameter, PreCondition, PreExp, PreProblem, VariableType,
};
use crate::primitives::primitive::PrimitiveView;
use crate::span::{InputSpan, Spanned};

verus! {

/// A name with the place where it stands.
pub type NameView = (InputSpan, Seq<char>);

/// An expression as a mathematical value.
pub enum PreExpView {
    Number(InputSpan, Number),
    Mod(InputSpan, Box<PreExpView>),
    BlockFunction(InputSpan, BlockFunctionKind, Seq<PreExpView>),
    Variable(InputSpan, Seq<char>),
    CompoundVariable(InputSpan, Seq<char>, Seq<Seq<char>>),
    BinaryOperation(InputSpan, Op, Box<PreExpView>, Box<PreExpView>),
    UnaryOperation(InputSpan, UnOp, Box<PreExpView>),
    ArrayAccess(InputSpan, Seq<char>, Seq<PreExpView>),
    BlockScopedFunction(InputSpan, BlockScopedFunctionKind, Seq<IterableSetView>, Box<PreExpView>),
    FunctionCall(InputSpan, CallView),
}

/// The names of an iteration set as a mathematical value.
pub enum PatternView {
    Single(NameView),
    Tuple(Seq<NameView>),
}

/// An iteration set as a mathematical value.
pub struct IterableSetView {
    pub var: PatternView,
    pub iterator_span: InputSpan,
    pub iterator: PreExpView,
    pub span: InputSpan,
}

/// An argument of a built-in function as a mathematical value.
pub enum ParameterView {
    Number(Number),
    String(Seq<char>),
    Variable(Seq<char>),
    CompoundVariable(Seq<char>, Seq<Seq<char>>),
    ArrayAccess(Seq<char>, Seq<PreExpView>),
    FunctionCall(Box<CallView>),
}

/// A call of a built-in function as a mathematical value.
pub enum CallView {
    Edges(ParameterView),
    Nodes(ParameterView),
    NeighbourEdges(ParameterView),
    NeighboursOf(ParameterView, ParameterView),
    Len(ParameterView),
    Enumerate(ParameterView),
    Range(ParameterView, ParameterView),
}

/// A condition of the source as a mathematical value.
pub struct PreConditionView {
    pub lhs: PreExpView,
    pub condition_type: Comparison,
    pub rhs: PreExpView,
    pub iteration: Seq<IterableSetView>,
    pub span: InputSpan,
}

/// A constant of the source as a mathematical value.
pub struct ConstantView {
    pub name: NameView,
    pub value: PrimitiveView,
}

/// A declared variable as a mathematical value.
pub struct DomainVariableView {
    pub name: NameView,
    pub domain: VariableDomain,
}

/// A model of the source as a mathematical value.
pub struct PreProblemView {
    pub objective_type: OptimizationType,
    pub objective: PreExpView,
    pub conditions: Seq<PreConditionView>,
    pub constants: Seq<ConstantView>,
}

/// The views of a list of expressions.
pub open spec fn pre_exp_views(items: Seq<PreExp>) -> Seq<PreExpView>
    decreases items,
{
    Seq::new(
        items.len(),
        |i: int|
            if 0 <= i < items.len() {
                items[i].ast()
            } else {
                PreExpView::Number(
                    InputSpan { start_line: 0, start_column: 0, start: 0, len: 0 },
                    Number { negative: false, magnitude: 0, scale: 0 },
                )
            },
    )
}

/// The views of a list of iteration sets.
pub open spec fn set_views(items: Seq<IterableSet>) -> Seq<IterableSetView>
    decreases items,
{
    Seq::new(
        items.len(),
        |i: int|
            if 0 <= i < items.len() {
                items[i].ast()
            } else {
                IterableSetView {
                    var: PatternView::Tuple(Seq::<NameView>::empty()),
                    iterator_span: InputSpan { start_line: 0, start_column: 0, start: 0, len: 0 },
                    iterator: PreExpView::Number(
                        InputSpan { start_line: 0, start_column: 0, start: 0, len: 0 },
                        Number { negative: false, magnitude: 0, scale: 0 },
                    ),
                    span: InputSpan { start_line: 0, start_column: 0, start: 0, len: 0 },
                }
            },
    )
}

/// The views of a list of names.
pub open spec fn name_views(names: Seq<Spanned<String>>) -> Seq<NameView> {
    Seq::new(names.len(), |i: int| (names[i].span, names[i].value@))
}

impl VariableType {
    pub open spec fn ast(&self) -> PatternView {
        match self {
            VariableType::Single(name) => PatternView::Single((name.span, name.value@)),
            VariableType::Tuple(names) => PatternView::Tuple(name_views(names@)),
        }
    }
}

impl IterableSet {
    pub open spec fn ast(&self) -> IterableSetView
        decreases self,
    {
        IterableSetView {
            var: self.var.ast(),
            iterator_span: self.iterator.span,
            iterator: self.iterator.value.ast(),
            span: self.span,
        }
    }
}

impl Parameter {
    pub open spec fn ast(&self) -> ParameterView
        decreases self,
    {
        match self {
            Parameter::Number(n) => ParameterView::Number(*n),
            Parameter::String(s) => ParameterView::String(s@),
            Parameter::Variable(s) => ParameterView::Variable(s@),
            Parameter::CompoundVariable(c) => ParameterView::CompoundVariable(
                c.name@,
                c.indexes.deep_view(),
            ),
            Parameter::ArrayAccess(a) => ParameterView::ArrayAccess(
                a.name@,
                pre_exp_views(a.accesses@),
            ),
            Parameter::FunctionCall(f) => ParameterView::FunctionCall(Box::new(f.ast())),
        }
    }
}

impl BuiltinFunction {
    pub open spec fn ast(&self) -> CallView
        decreases self,
    {
        match self {
            BuiltinFunction::Edges(x) => CallView::Edges(x.of_graph.ast()),
            BuiltinFunction::Nodes(x) => CallView::Nodes(x.of_graph.ast()),
            BuiltinFunction::NeighbourEdges(x) => CallView::NeighbourEdges(x.of_node.ast()),
            BuiltinFunction::NeighboursOf(x) => CallView::NeighboursOf(
                x.of_node.ast(),
                x.in_graph.ast(),
            ),
            BuiltinFunction::Len(x) => CallView::Len(x.of_iterable.ast()),
            BuiltinFunction::Enumerate(x) => CallView::Enumerate(x.array.ast()),
            BuiltinFunction::Range(x) => CallView::Range(x.from.ast(), x.to.ast()),
        }
    }
}

impl PreExp {
    pub open spec fn ast(&self) -> PreExpView
        decreases self,
    {
        match self {
            PreExp::Number(n) => PreExpView::Number(n.span, n.value),
            PreExp::Mod(span, x) => PreExpView::Mod(*span, Box::new(x.ast())),
            PreExp::BlockFunction(f) => PreExpView::BlockFunction(
                f.span,
                f.value.kind,
                pre_exp_views(f.value.exps@),
            ),
            PreExp::Variable(name) => PreExpView::Variable(name.span, name.value@),
            PreExp::CompoundVariable(c) => PreExpView::CompoundVariable(
                c.span,
                c.value.name@,
                c.value.indexes.deep_view(),
            ),
            PreExp::BinaryOperation(op, l, r) => PreExpView::BinaryOperation(
                op.span,
                op.value,
                Box::new(l.ast()),
                Box::new(r.ast()),
            ),
            PreExp::UnaryOperation(op, x) => PreExpView::UnaryOperation(
                op.span,
                op.value,
                Box::new(x.ast()),
            ),
            PreExp::ArrayAccess(a) => PreExpView::ArrayAccess(
                a.span,
                a.value.name@,
                pre_exp_views(a.value.accesses@),
            ),
            PreExp::BlockScopedFunction(f) => PreExpView::BlockScopedFunction(
                f.span,
                f.value.kind,
                set_views(f.value.iters@),
                Box::new(f.value.exp.ast()),
            ),
            PreExp::FunctionCall(span, f) => PreExpView::FunctionCall(*span, f.ast()),
        }
    }
}

impl View for PreExp {
    type V = PreExpView;

    open spec fn view(&self) -> PreExpView {
        self.ast()
    }
}

impl View for Parameter {
    type V = ParameterView;

    open spec fn view(&self) -> ParameterView {
        self.ast()
    }
}

impl View for BuiltinFunction {
    type V = CallView;

    open spec fn view(&self) -> CallView {
        self.ast()
    }
}

impl View for VariableType {
    type V = PatternView;

    open spec fn view(&self) -> PatternView {
        self.ast()
    }
}

impl View for IterableSet {
    type V = IterableSetView;

    open spec fn view(&self) -> IterableSetView {
        self.ast()
    }
}

impl View for PreCondition {
    type V = PreConditionView;

    open spec fn view(&self) -> PreConditionView {
        PreConditionView {
            lhs: self.lhs@,
            condition_type: self.condition_type,
            rhs: self.rhs@,
            iteration: set_views(self.iteration@),
            span: self.span,
        }
    }
}

impl View for Constant {
    type V = ConstantView;

    open spec fn view(&self) -> ConstantView {
        ConstantView { name: (self.name.span, self.name.value@), value: self.value@ }
    }
}

impl View for DomainVariable {
    type V = DomainVariableView;

    open spec fn view(&self) -> DomainVariableView {
        DomainVariableView { name: (self.name.span, self.name.value@), domain: self.domain }
    }
}

/// The views of a list of arguments.
pub open spec fn parameter_views(items: Seq<Parameter>) -> Seq<ParameterView> {
    Seq::new(items.len(), |i: int| items[i]@)
}

/// The views of a list of conditions.
pub open spec fn pre_condition_views(items: Seq<PreCondition>) -> Seq<PreConditionView> {
    Seq::new(items.len(), |i: int| items[i]@)
}

/// The views of a list of constants.
pub open spec fn constant_views(items: Seq<Constant>) -> Seq<ConstantView> {
    Seq::new(items.len(), |i: int| items[i]@)
}

/// The views of a list of declared variables.
pub open spec fn domain_views(items: Seq<DomainVariable>) -> Seq<DomainVariableView> {
    Seq::new(items.len(), |i: int| items[i]@)
}

impl View for PreProblem {
    type V = PreProblemView;

    open spec fn view(&self) -> PreProblemView {
        PreProblemView {
            objective_type: self.objective.objective_type,
            objective: self.objective.rhs@,
            conditions: pre_condition_views(self.conditions@),
            constants: constant_views(self.constants@),
        }
    }
}

} // verus!
