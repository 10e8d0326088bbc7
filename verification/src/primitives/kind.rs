//! The kinds of values, and which operators apply to which kind.
use vstd::prelude::*;
use crate::math::{Op, UnOp};
use crate::text::{concat, join, join_text, owned};

verus! {

/// The kind of a value. An iterable carries the kind of its elements, so that
/// an array of arrays is of another kind than a flat array.
#[derive(Debug, PartialEq)]
pub enum PrimitiveKind {
    Number,
    String,
    Iterable(Box<PrimitiveKind>),
    Graph,
    GraphEdge,
    GraphNode,
    Tuple(Vec<PrimitiveKind>),
    Boolean,
    Undefined,
    Any,
}

/// A kind as a mathematical value.
pub enum KindView {
    Number,
    String,
    Iterable(Box<KindView>),
    Graph,
    GraphEdge,
    GraphNode,
    Tuple(Seq<KindView>),
    Boolean,
    Undefined,
    Any,
}

/// The views of a list of kinds.
pub open spec fn kind_views(items: Seq<PrimitiveKind>) -> Seq<KindView>
    decreases items,
{
    Seq::new(
        items.len(),
        |i: int|
            if 0 <= i < items.len() {
                items[i].model()
            } else {
                KindView::Undefined
            },
    )
}

/// The name of a kind: an iterable is the name of its elements followed by
/// `[]`, a tuple the names of its parts in round brackets.
pub open spec fn kind_text(k: KindView) -> Seq<char>
    decreases k,
{
    match k {
        KindView::Number => "Number"@,
        KindView::String => "String"@,
        KindView::Iterable(inner) => kind_text(*inner) + "[]"@,
        KindView::Graph => "Graph"@,
        KindView::GraphEdge => "GraphEdge"@,
        KindView::GraphNode => "GraphNode"@,
        KindView::Tuple(items) => "("@ + join_text(kind_texts(items), ", "@) + ")"@,
        KindView::Boolean => "Boolean"@,
        KindView::Undefined => "Undefined"@,
        KindView::Any => "Any"@,
    }
}

/// The names of a list of kinds.
pub open spec fn kind_texts(items: Seq<KindView>) -> Seq<Seq<char>>
    decreases items,
{
    Seq::new(
        items.len(),
        |i: int|
            if 0 <= i < items.len() {
                kind_text(items[i])
            } else {
                Seq::<char>::empty()
            },
    )
}

/// Whether `op` applies to a left operand of kind `lhs` and a right operand
/// of kind `rhs`: the four operators to two numbers, `+` to two strings, and
/// nothing else.
pub open spec fn can_apply_binary(lhs: KindView, op: Op, rhs: KindView) -> bool {
    match lhs {
        KindView::Number => rhs is Number,
        KindView::String => op == Op::Add && rhs is String,
        _ => false,
    }
}

/// Whether `op` applies to an operand of kind `k`: negation to a number, and
/// nothing else.
pub open spec fn can_apply_unary(k: KindView, op: UnOp) -> bool {
    k is Number
}

impl PrimitiveKind {
    pub open spec fn model(&self) -> KindView
        decreases self,
    {
        match self {
            PrimitiveKind::Number => KindView::Number,
            PrimitiveKind::String => KindView::String,
            PrimitiveKind::Iterable(inner) => KindView::Iterable(Box::new(inner.model())),
            PrimitiveKind::Graph => KindView::Graph,
            PrimitiveKind::GraphEdge => KindView::GraphEdge,
            PrimitiveKind::GraphNode => KindView::GraphNode,
            PrimitiveKind::Tuple(items) => KindView::Tuple(kind_views(items@)),
            PrimitiveKind::Boolean => KindView::Boolean,
            PrimitiveKind::Undefined => KindView::Undefined,
            PrimitiveKind::Any => KindView::Any,
        }
    }

    /// A copy of the kind.
    pub fn duplicate(&self) -> (r: PrimitiveKind)
        ensures
            r@ == self@,
        decreases self,
    {
        match self {
            PrimitiveKind::Number => PrimitiveKind::Number,
            PrimitiveKind::String => PrimitiveKind::String,
            PrimitiveKind::Iterable(inner) => PrimitiveKind::Iterable(Box::new(inner.duplicate())),
            PrimitiveKind::Graph => PrimitiveKind::Graph,
            PrimitiveKind::GraphEdge => PrimitiveKind::GraphEdge,
            PrimitiveKind::GraphNode => PrimitiveKind::GraphNode,
            PrimitiveKind::Tuple(items) => {
                let mut out: Vec<PrimitiveKind> = Vec::new();
                let mut i: usize = 0;
                while i < items.len()
                    invariant
                        i <= items.len(),
                        self is Tuple,
                        self->Tuple_0 == *items,
                        out.len() == i,
                        forall|j: int| 0 <= j < i ==> out[j]@ == items[j]@,
                    decreases items.len() - i,
                {
                    out.push(items[i].duplicate());
                    i = i + 1;
                }
                assert(kind_views(out@) =~= kind_views(items@));
                PrimitiveKind::Tuple(out)
            },
            PrimitiveKind::Boolean => PrimitiveKind::Boolean,
            PrimitiveKind::Undefined => PrimitiveKind::Undefined,
            PrimitiveKind::Any => PrimitiveKind::Any,
        }
    }

    /// Whether the two kinds are the same.
    pub fn same(&self, other: &PrimitiveKind) -> (r: bool)
        ensures
            r == (self@ == other@),
        decreases self,
    {
        match (self, other) {
            (PrimitiveKind::Number, PrimitiveKind::Number) => true,
            (PrimitiveKind::String, PrimitiveKind::String) => true,
            (PrimitiveKind::Iterable(a), PrimitiveKind::Iterable(b)) => a.same(b),
            (PrimitiveKind::Graph, PrimitiveKind::Graph) => true,
            (PrimitiveKind::GraphEdge, PrimitiveKind::GraphEdge) => true,
            (PrimitiveKind::GraphNode, PrimitiveKind::GraphNode) => true,
            (PrimitiveKind::Tuple(a), PrimitiveKind::Tuple(b)) => {
                if a.len() != b.len() {
                    assert(kind_views(a@).len() != kind_views(b@).len());
                    return false;
                }
                let mut i: usize = 0;
                while i < a.len()
                    invariant
                        i <= a.len(),
                        a.len() == b.len(),
                        self is Tuple,
                        self->Tuple_0 == *a,
                        other is Tuple,
                        other->Tuple_0 == *b,
                        forall|j: int| 0 <= j < i ==> a[j]@ == b[j]@,
                    decreases a.len() - i,
                {
                    if !a[i].same(&b[i]) {
                        assert(kind_views(a@)[i as int] != kind_views(b@)[i as int]);
                        return false;
                    }
                    i = i + 1;
                }
                assert(kind_views(a@) =~= kind_views(b@));
                true
            },
            (PrimitiveKind::Boolean, PrimitiveKind::Boolean) => true,
            (PrimitiveKind::Undefined, PrimitiveKind::Undefined) => true,
            (PrimitiveKind::Any, PrimitiveKind::Any) => true,
            _ => false,
        }
    }

    /// Whether `op` applies to a left operand of this kind and a right operand
    /// of kind `to`.
    pub fn can_apply_binary_op(&self, op: Op, to: PrimitiveKind) -> (r: bool)
        ensures
            r == can_apply_binary(self@, op, to@),
    {
        match self {
            PrimitiveKind::Any => false,
            PrimitiveKind::Undefined => false,
            PrimitiveKind::Number => matches!(to, PrimitiveKind::Number),
            PrimitiveKind::Boolean => false,
            PrimitiveKind::Graph => false,
            PrimitiveKind::GraphEdge => false,
            PrimitiveKind::GraphNode => false,
            PrimitiveKind::Tuple(_) => false,
            PrimitiveKind::Iterable(_) => false,
            PrimitiveKind::String => matches!(op, Op::Add) && matches!(to, PrimitiveKind::String),
        }
    }

    /// Whether `op` applies to an operand of this kind.
    pub fn can_apply_unary_op(&self, op: UnOp) -> (r: bool)
        ensures
            r == can_apply_unary(self@, op),
    {
        match self {
            PrimitiveKind::Number => true,
            _ => false,
        }
    }

    /// The name of the kind.
    pub fn to_string(&self) -> (r: String)
        ensures
            r@ == kind_text(self@),
        decreases self,
    {
        match self {
            PrimitiveKind::Number => owned("Number"),
            PrimitiveKind::String => owned("String"),
            PrimitiveKind::Iterable(inner) => {
                let element = inner.to_string();
                concat(element.as_str(), "[]")
            },
            PrimitiveKind::Graph => owned("Graph"),
            PrimitiveKind::GraphEdge => owned("GraphEdge"),
            PrimitiveKind::GraphNode => owned("GraphNode"),
            PrimitiveKind::Tuple(items) => {
                let mut parts: Vec<String> = Vec::new();
                let mut i: usize = 0;
                while i < items.len()
                    invariant
                        i <= items.len(),
                        self is Tuple,
                        self->Tuple_0 == *items,
                        parts.len() == i,
                        forall|j: int| 0 <= j < i ==> parts[j]@ == kind_text(items[j]@),
                    decreases items.len() - i,
                {
                    parts.push(items[i].to_string());
                    i = i + 1;
                }
                assert(parts.deep_view() =~= kind_texts(kind_views(items@)));
                let inner = join(&parts, ", ");
                let opened = concat("(", inner.as_str());
                concat(opened.as_str(), ")")
            },
            PrimitiveKind::Boolean => owned("Boolean"),
            PrimitiveKind::Undefined => owned("Undefined"),
            PrimitiveKind::Any => owned("Any"),
        }
    }
}

impl View for PrimitiveKind {
    type V = KindView;

    open spec fn view(&self) -> KindView {
        self.model()
    }
}

impl Clone for PrimitiveKind {
    fn clone(&self) -> (r: PrimitiveKind)
        ensures
            r@ == self@,
    {
        self.duplicate()
    }
}

} // verus!
