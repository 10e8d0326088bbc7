//! What can be asked of an iterable: its length, its elements, and the
//! element at the end of a path of indexes.
use vstd::prelude::*;
use vstd::string::*;
use crate::error::{ErrorView, TransformError};
use crate::math::{Op, UnOp};
use crate::number::Number;
use crate::primitives::kind::{kind_text, KindView, PrimitiveKind};
use crate::primitives::primitive::{
    indented_text, iterable_kind, iterable_text, IterableKind, IterableView, Primitive,
    PrimitiveView, primitive_kind, primitive_views,
};
use crate::text::{nat_text, owned, repeat, repeat_text, usize_to_string};

verus! {

impl IterableView {
    /// How many elements the iterable has.
    pub open spec fn len(self) -> nat {
        match self {
            IterableView::Numbers(v) => v.len(),
            IterableView::Strings(v) => v.len(),
            IterableView::Edges(v) => v.len(),
            IterableView::Nodes(v) => v.len(),
            IterableView::Graphs(v) => v.len(),
            IterableView::Tuples(v) => v.len(),
            IterableView::Booleans(v) => v.len(),
            IterableView::Iterables(v) => v.len(),
        }
    }

    /// The element at the place `k`, as a value.
    pub open spec fn element(self, k: int) -> PrimitiveView {
        match self {
            IterableView::Numbers(v) => PrimitiveView::Number(v[k]),
            IterableView::Strings(v) => PrimitiveView::String(v[k]),
            IterableView::Edges(v) => PrimitiveView::GraphEdge(v[k]),
            IterableView::Nodes(v) => PrimitiveView::GraphNode(v[k]),
            IterableView::Graphs(v) => PrimitiveView::Graph(v[k]),
            IterableView::Tuples(v) => PrimitiveView::Tuple(v[k]),
            IterableView::Booleans(v) => PrimitiveView::Boolean(v[k]),
            IterableView::Iterables(v) => PrimitiveView::Iterable(v[k]),
        }
    }

    /// The elements of the iterable, as values.
    pub open spec fn elements(self) -> Seq<PrimitiveView> {
        Seq::new(self.len(), |k: int| self.element(k))
    }

    /// What a path of indexes leads to: `Undefined` for the empty path; else
    /// every index but the last steps into a list of iterables, and the last
    /// picks an element. `None` where an index is out of range or a step is
    /// asked of a list that does not hold iterables.
    pub open spec fn read(self, path: Seq<usize>) -> Option<PrimitiveView>
        decreases path.len(),
    {
        if path.len() == 0 {
            Some(PrimitiveView::Undefined)
        } else if path.len() == 1 {
            if path[0] < self.len() {
                Some(self.element(path[0] as int))
            } else {
                None
            }
        } else {
            match self {
                IterableView::Iterables(v) => if path[0] < v.len() {
                    v[path[0] as int].read(path.drop_first())
                } else {
                    None
                },
                _ => None,
            }
        }
    }

    /// The index of `path` at which `read` fails.
    pub open spec fn failing_index(self, path: Seq<usize>) -> usize
        decreases path.len(),
    {
        if path.len() <= 1 {
            if path.len() == 1 {
                path[0]
            } else {
                0
            }
        } else {
            match self {
                IterableView::Iterables(v) => if path[0] < v.len() {
                    v[path[0] as int].failing_index(path.drop_first())
                } else {
                    path[0]
                },
                _ => path[0],
            }
        }
    }

    /// What the elements of the iterable are called in messages.
    pub open spec fn argument_name(self) -> Seq<char> {
        match self {
            IterableView::Numbers(_) => "number"@,
            IterableView::Strings(_) => "string"@,
            IterableView::Edges(_) => "edge"@,
            IterableView::Nodes(_) => "node"@,
            IterableView::Tuples(_) => "tuple"@,
            IterableView::Booleans(_) => "boolean"@,
            IterableView::Graphs(_) => "graph"@,
            IterableView::Iterables(_) => "iterable"@,
        }
    }
}

/// The message of the error for an index that an iterable does not have.
pub open spec fn out_of_bounds_text(index: nat, iterable: IterableView) -> Seq<char> {
    "cannot access index "@ + nat_text(index) + " of "@ + iterable_text(iterable)
}

/// An operator was applied to operands that it does not take.
#[derive(Debug)]
#[allow(inconsistent_fields)]
pub enum OperatorError {
    IncompatibleType { operator: Op, expected: PrimitiveKind, found: PrimitiveKind },
    UnsupportedBinOperation { operator: Op, found: PrimitiveKind },
    UnsupportedUnOperation { operator: UnOp, found: PrimitiveKind },
}

/// A refused operation as a mathematical value.
#[allow(inconsistent_fields)]
pub enum OperatorErrorView {
    IncompatibleType { operator: Op, expected: KindView, found: KindView },
    UnsupportedBinOperation { operator: Op, found: KindView },
    UnsupportedUnOperation { operator: UnOp, found: KindView },
}

impl View for OperatorError {
    type V = OperatorErrorView;

    open spec fn view(&self) -> OperatorErrorView {
        match self {
            OperatorError::IncompatibleType {
                operator,
                expected,
                found,
            } => OperatorErrorView::IncompatibleType {
                operator: *operator,
                expected: expected@,
                found: found@,
            },
            OperatorError::UnsupportedBinOperation {
                operator,
                found,
            } => OperatorErrorView::UnsupportedBinOperation { operator: *operator, found: found@ },
            OperatorError::UnsupportedUnOperation {
                operator,
                found,
            } => OperatorErrorView::UnsupportedUnOperation { operator: *operator, found: found@ },
        }
    }
}

/// The message of a refused operation.
pub open spec fn operator_error_text(e: OperatorErrorView) -> Seq<char> {
    match e {
        OperatorErrorView::IncompatibleType { operator, expected, found } => "Incompatible types for operator "@
            + operator.text() + ", expected "@ + kind_text(expected) + ", found "@ + kind_text(
            found,
        ),
        OperatorErrorView::UnsupportedBinOperation { operator, found } => "Unsupported binary operation "@
            + operator.text() + " for type "@ + kind_text(found),
        OperatorErrorView::UnsupportedUnOperation { operator, found } => "Unsupported unary operation "@
            + operator.text() + " for type "@ + kind_text(found),
    }
}

impl OperatorError {
    pub fn incompatible_type(operator: Op, expected: PrimitiveKind, found: PrimitiveKind) -> (r:
        OperatorError)
        ensures
            r@ == (OperatorErrorView::IncompatibleType {
                operator,
                expected: expected@,
                found: found@,
            }),
    {
        OperatorError::IncompatibleType { operator, expected, found }
    }

    pub fn unsupported_bin_operation(operator: Op, found: PrimitiveKind) -> (r: OperatorError)
        ensures
            r@ == (OperatorErrorView::UnsupportedBinOperation { operator, found: found@ }),
    {
        OperatorError::UnsupportedBinOperation { operator, found }
    }

    pub fn unsupported_un_operation(operator: UnOp, found: PrimitiveKind) -> (r: OperatorError)
        ensures
            r@ == (OperatorErrorView::UnsupportedUnOperation { operator, found: found@ }),
    {
        OperatorError::UnsupportedUnOperation { operator, found }
    }

    pub fn to_string(&self) -> (r: String)
        ensures
            r@ == operator_error_text(self@),
    {
        match self {
            OperatorError::IncompatibleType { operator, expected, found } => {
                let mut out = owned("Incompatible types for operator ");
                out.append(operator.to_string().as_str());
                out.append(", expected ");
                out.append(expected.to_string().as_str());
                out.append(", found ");
                out.append(found.to_string().as_str());
                out
            },
            OperatorError::UnsupportedBinOperation { operator, found } => {
                let mut out = owned("Unsupported binary operation ");
                out.append(operator.to_string().as_str());
                out.append(" for type ");
                out.append(found.to_string().as_str());
                out
            },
            OperatorError::UnsupportedUnOperation { operator, found } => {
                let mut out = owned("Unsupported unary operation ");
                out.append(operator.to_string().as_str());
                out.append(" for type ");
                out.append(found.to_string().as_str());
                out
            },
        }
    }
}

impl IterableKind {
    /// What the elements of the iterable are called in messages.
    pub fn get_argument_name(&self) -> (r: &'static str)
        ensures
            r@ == self@.argument_name(),
    {
        match self {
            IterableKind::Numbers(_) => "number",
            IterableKind::Strings(_) => "string",
            IterableKind::Edges(_) => "edge",
            IterableKind::Nodes(_) => "node",
            IterableKind::Tuples(_) => "tuple",
            IterableKind::Booleans(_) => "boolean",
            IterableKind::Graphs(_) => "graph",
            IterableKind::Iterables(_) => "iterable",
        }
    }

    pub fn len(&self) -> (r: usize)
        ensures
            r == self@.len(),
    {
        match self {
            IterableKind::Numbers(v) => v.len(),
            IterableKind::Strings(v) => v.len(),
            IterableKind::Edges(v) => v.len(),
            IterableKind::Nodes(v) => v.len(),
            IterableKind::Tuples(v) => v.len(),
            IterableKind::Iterables(v) => v.len(),
            IterableKind::Booleans(v) => v.len(),
            IterableKind::Graphs(v) => v.len(),
        }
    }

    pub fn is_empty(&self) -> (r: bool)
        ensures
            r == (self@.len() == 0),
    {
        self.len() == 0
    }

    /// The element at the place `k`, as a value.
    pub fn get(&self, k: usize) -> (r: Primitive)
        requires
            k < self@.len(),
        ensures
            r@ == self@.element(k as int),
    {
        match self {
            IterableKind::Booleans(v) => Primitive::Boolean(v[k]),
            IterableKind::Numbers(v) => Primitive::Number(v[k]),
            IterableKind::Strings(v) => Primitive::String(v[k].clone()),
            IterableKind::Edges(v) => Primitive::GraphEdge(v[k].duplicate()),
            IterableKind::Nodes(v) => Primitive::GraphNode(v[k].duplicate()),
            IterableKind::Tuples(v) => Primitive::Tuple(v[k].duplicate()),
            IterableKind::Iterables(v) => Primitive::Iterable(v[k].duplicate()),
            IterableKind::Graphs(v) => Primitive::Graph(v[k].duplicate()),
        }
    }

    /// The elements of the iterable, as values.
    pub fn to_primitives(self) -> (r: Vec<Primitive>)
        ensures
            primitive_views(r@) == self@.elements(),
    {
        let mut out: Vec<Primitive> = Vec::new();
        let n = self.len();
        let mut k: usize = 0;
        while k < n
            invariant
                k <= n,
                n == self@.len(),
                out.len() == k,
                forall|j: int| 0 <= j < k ==> out[j]@ == self@.element(j),
            decreases n - k,
        {
            out.push(self.get(k));
            k = k + 1;
        }
        assert(primitive_views(out@) =~= self@.elements());
        out
    }

    /// The error for the index `index`, which the iterable does not have.
    fn out_of_bounds(&self, index: usize) -> (r: TransformError)
        ensures
            r@ == ErrorView::OutOfBounds(out_of_bounds_text(index as nat, self@)),
    {
        let mut message = owned("cannot access index ");
        message.append(usize_to_string(index).as_str());
        message.append(" of ");
        message.append(self.to_string().as_str());
        TransformError::OutOfBounds(message)
    }

    /// What the path `indexes` leads to; the error `OutOfBounds`, with the
    /// index that failed, where it leads nowhere.
    pub fn read(&self, indexes: Vec<usize>) -> (r: Result<Primitive, TransformError>)
        ensures
            match r {
                Ok(p) => self@.read(indexes@) == Some(p@),
                Err(e) => self@.read(indexes@) is None && e@ == ErrorView::OutOfBounds(
                    out_of_bounds_text(self@.failing_index(indexes@) as nat, self@),
                ),
            },
    {
        if indexes.len() == 0 {
            return Ok(Primitive::Undefined);
        }
        let mut current: &IterableKind = self;
        let mut k: usize = 0;
        assert(indexes@.skip(0) =~= indexes@);
        while k + 1 < indexes.len()
            invariant
                k < indexes.len(),
                self@.read(indexes@) == current@.read(indexes@.skip(k as int)),
                self@.failing_index(indexes@) == current@.failing_index(indexes@.skip(k as int)),
            decreases indexes.len() - k,
        {
            let i = indexes[k];
            let ghost rest = indexes@.skip(k as int);
            assert(rest.len() >= 2 && rest[0] == i);
            assert(rest.drop_first() =~= indexes@.skip(k + 1));
            match current {
                IterableKind::Iterables(v) => {
                    if i < v.len() {
                        current = &v[i];
                    } else {
                        return Err(self.out_of_bounds(i));
                    }
                },
                _ => {
                    return Err(self.out_of_bounds(i));
                },
            }
            k = k + 1;
        }
        let i = indexes[k];
        let ghost rest = indexes@.skip(k as int);
        assert(rest.len() == 1 && rest[0] == i);
        if i < current.len() {
            Ok(current.get(i))
        } else {
            Err(self.out_of_bounds(i))
        }
    }

    /// The text of the iterable, four blanks further in for each unit of
    /// `depth`.
    pub fn to_string_depth(&self, depth: usize) -> (r: String)
        ensures
            r@ == indented_text(self@, repeat_text("    "@, depth as nat)),
    {
        let indent = repeat("    ", depth);
        self.to_string_indented(indent.as_str())
    }

    /// No binary operator applies to an iterable.
    pub fn can_apply_binary_op(op: Op, to: &Primitive) -> (r: bool)
        ensures
            !r,
    {
        false
    }

    /// No unary operator applies to an iterable.
    pub fn can_apply_unary_op(op: UnOp) -> (r: bool)
        ensures
            !r,
    {
        false
    }

    /// No binary operator applies to an iterable: the error names the
    /// operator and the kind of the right operand.
    pub fn apply_binary_op(&self, op: Op, to: &Primitive) -> (r: Result<Primitive, OperatorError>)
        ensures
            r is Err,
            r->Err_0@ == (OperatorErrorView::UnsupportedBinOperation {
                operator: op,
                found: primitive_kind(to@),
            }),
    {
        Err(OperatorError::unsupported_bin_operation(op, to.get_type()))
    }

    /// No unary operator applies to an iterable: the error names the operator
    /// and the kind of the iterable.
    pub fn apply_unary_op(&self, op: UnOp) -> (r: Result<Primitive, OperatorError>)
        ensures
            r is Err,
            r->Err_0@ == (OperatorErrorView::UnsupportedUnOperation {
                operator: op,
                found: iterable_kind(self@),
            }),
    {
        Err(OperatorError::unsupported_un_operation(op, self.get_type()))
    }

    /// The elements of the iterable, for a pattern of names to take.
    pub fn to_primitive_set(self) -> (r: Result<Vec<Primitive>, TransformError>)
        ensures
            r is Ok,
            primitive_views(r->Ok_0@) == self@.elements(),
    {
        Ok(self.to_primitives())
    }
}

} // verus!
