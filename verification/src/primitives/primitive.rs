//! Values: what a constant of a model holds and what an expression of the
//! language evaluates to before the model is expanded.
use vstd::prelude::*;
use vstd::string::*;
use crate::number::Number;
use crate::primitives::graph::{
    duplicate_edges, duplicate_nodes, edge_views, graph_views, node_views, EdgeView, Graph,
    GraphEdge, GraphNode, GraphView, NodeView,
};
use crate::primitives::graph::{
    edge_text, edge_texts, graph_text, node_text, node_texts,
};
use crate::primitives::kind::{kind_text, kind_views, KindView, PrimitiveKind};
use crate::error::{ErrorView, TransformError};
use crate::text::{join, join_text, owned};

verus! {

/// A tuple of values.
#[derive(Debug, PartialEq)]
pub struct Tuple(pub Vec<Primitive>);

/// A list of values of one sort.
#[derive(Debug, PartialEq)]
pub enum IterableKind {
    Numbers(Vec<Number>),
    Strings(Vec<String>),
    Edges(Vec<GraphEdge>),
    Nodes(Vec<GraphNode>),
    Graphs(Vec<Graph>),
    Tuples(Vec<Tuple>),
    Booleans(Vec<bool>),
    Iterables(Vec<IterableKind>),
}

/// A value.
#[derive(Debug, PartialEq)]
pub enum Primitive {
    Number(Number),
    String(String),
    Iterable(IterableKind),
    Graph(Graph),
    GraphEdge(GraphEdge),
    GraphNode(GraphNode),
    Tuple(Tuple),
    Boolean(bool),
    Undefined,
}

/// A value as a mathematical value. A tuple is the list of its parts.
pub enum PrimitiveView {
    Number(Number),
    String(Seq<char>),
    Iterable(IterableView),
    Graph(GraphView),
    GraphEdge(EdgeView),
    GraphNode(NodeView),
    Tuple(Seq<PrimitiveView>),
    Boolean(bool),
    Undefined,
}

/// A list of values of one sort as a mathematical value.
pub enum IterableView {
    Numbers(Seq<Number>),
    Strings(Seq<Seq<char>>),
    Edges(Seq<EdgeView>),
    Nodes(Seq<NodeView>),
    Graphs(Seq<GraphView>),
    Tuples(Seq<Seq<PrimitiveView>>),
    Booleans(Seq<bool>),
    Iterables(Seq<IterableView>),
}

/// The views of a list of values.
pub open spec fn primitive_views(items: Seq<Primitive>) -> Seq<PrimitiveView>
    decreases items,
{
    Seq::new(
        items.len(),
        |i: int|
            if 0 <= i < items.len() {
                items[i].model()
            } else {
                PrimitiveView::Undefined
            },
    )
}

/// The views of a list of tuples.
pub open spec fn tuple_views(items: Seq<Tuple>) -> Seq<Seq<PrimitiveView>>
    decreases items,
{
    Seq::new(
        items.len(),
        |i: int|
            if 0 <= i < items.len() {
                items[i].model()
            } else {
                Seq::<PrimitiveView>::empty()
            },
    )
}

/// The views of a list of iterables.
pub open spec fn iterable_views(items: Seq<IterableKind>) -> Seq<IterableView>
    decreases items,
{
    Seq::new(
        items.len(),
        |i: int|
            if 0 <= i < items.len() {
                items[i].model()
            } else {
                IterableView::Numbers(Seq::<Number>::empty())
            },
    )
}

impl Tuple {
    pub open spec fn model(&self) -> Seq<PrimitiveView>
        decreases self,
    {
        primitive_views(self.0@)
    }
}

impl IterableKind {
    pub open spec fn model(&self) -> IterableView
        decreases self,
    {
        match self {
            IterableKind::Numbers(v) => IterableView::Numbers(v@),
            IterableKind::Strings(v) => IterableView::Strings(v.deep_view()),
            IterableKind::Edges(v) => IterableView::Edges(edge_views(v@)),
            IterableKind::Nodes(v) => IterableView::Nodes(node_views(v@)),
            IterableKind::Graphs(v) => IterableView::Graphs(graph_views(v@)),
            IterableKind::Tuples(v) => IterableView::Tuples(tuple_views(v@)),
            IterableKind::Booleans(v) => IterableView::Booleans(v@),
            IterableKind::Iterables(v) => IterableView::Iterables(iterable_views(v@)),
        }
    }
}

impl Primitive {
    pub open spec fn model(&self) -> PrimitiveView
        decreases self,
    {
        match self {
            Primitive::Number(n) => PrimitiveView::Number(*n),
            Primitive::String(s) => PrimitiveView::String(s@),
            Primitive::Iterable(i) => PrimitiveView::Iterable(i.model()),
            Primitive::Graph(g) => PrimitiveView::Graph(g@),
            Primitive::GraphEdge(e) => PrimitiveView::GraphEdge(e@),
            Primitive::GraphNode(n) => PrimitiveView::GraphNode(n@),
            Primitive::Tuple(t) => PrimitiveView::Tuple(t.model()),
            Primitive::Boolean(b) => PrimitiveView::Boolean(*b),
            Primitive::Undefined => PrimitiveView::Undefined,
        }
    }
}

impl View for Tuple {
    type V = Seq<PrimitiveView>;

    open spec fn view(&self) -> Seq<PrimitiveView> {
        self.model()
    }
}

impl View for IterableKind {
    type V = IterableView;

    open spec fn view(&self) -> IterableView {
        self.model()
    }
}

impl View for Primitive {
    type V = PrimitiveView;

    open spec fn view(&self) -> PrimitiveView {
        self.model()
    }
}

/// A copy of a list of texts.
pub fn duplicate_strings(items: &Vec<String>) -> (r: Vec<String>)
    ensures
        r.deep_view() == items.deep_view(),
{
    let mut out: Vec<String> = Vec::new();
    let mut i: usize = 0;
    while i < items.len()
        invariant
            i <= items.len(),
            out.len() == i,
            forall|j: int| 0 <= j < i ==> out[j]@ == items[j]@,
        decreases items.len() - i,
    {
        out.push(items[i].clone());
        i = i + 1;
    }
    assert(out.deep_view() =~= items.deep_view());
    out
}

/// A copy of a list of numbers.
pub fn duplicate_numbers(items: &Vec<Number>) -> (r: Vec<Number>)
    ensures
        r@ == items@,
{
    let mut out: Vec<Number> = Vec::new();
    let mut i: usize = 0;
    while i < items.len()
        invariant
            i <= items.len(),
            out@ == items@.take(i as int),
        decreases items.len() - i,
    {
        out.push(items[i]);
        assert(out@ =~= items@.take(i + 1));
        i = i + 1;
    }
    assert(items@.take(i as int) =~= items@);
    out
}

/// A copy of a list of truth values.
pub fn duplicate_booleans(items: &Vec<bool>) -> (r: Vec<bool>)
    ensures
        r@ == items@,
{
    let mut out: Vec<bool> = Vec::new();
    let mut i: usize = 0;
    while i < items.len()
        invariant
            i <= items.len(),
            out@ == items@.take(i as int),
        decreases items.len() - i,
    {
        out.push(items[i]);
        assert(out@ =~= items@.take(i + 1));
        i = i + 1;
    }
    assert(items@.take(i as int) =~= items@);
    out
}

/// A copy of a list of graphs.
pub fn duplicate_graphs(items: &Vec<Graph>) -> (r: Vec<Graph>)
    ensures
        graph_views(r@) == graph_views(items@),
{
    let mut out: Vec<Graph> = Vec::new();
    let mut i: usize = 0;
    while i < items.len()
        invariant
            i <= items.len(),
            out.len() == i,
            forall|j: int| 0 <= j < i ==> out[j]@ == items[j]@,
        decreases items.len() - i,
    {
        out.push(items[i].duplicate());
        i = i + 1;
    }
    assert(graph_views(out@) =~= graph_views(items@));
    out
}

impl Tuple {
    pub fn new(primitives: Vec<Primitive>) -> (r: Tuple)
        ensures
            r@ == primitive_views(primitives@),
    {
        Tuple(primitives)
    }

    pub fn get_primitives(&self) -> (r: &Vec<Primitive>)
        ensures
            primitive_views(r@) == self@,
    {
        &self.0
    }

    pub fn into_primitives(self) -> (r: Vec<Primitive>)
        ensures
            primitive_views(r@) == self@,
    {
        self.0
    }

    /// A copy of the tuple.
    pub fn duplicate(&self) -> (r: Tuple)
        ensures
            r@ == self@,
        decreases self,
    {
        let mut out: Vec<Primitive> = Vec::new();
        let mut i: usize = 0;
        while i < self.0.len()
            invariant
                i <= self.0.len(),
                out.len() == i,
                forall|j: int| 0 <= j < i ==> out[j]@ == self.0[j]@,
            decreases self.0.len() - i,
        {
            out.push(self.0[i].duplicate());
            i = i + 1;
        }
        assert(primitive_views(out@) =~= primitive_views(self.0@));
        Tuple(out)
    }
}

impl IterableKind {
    /// A copy of the iterable.
    pub fn duplicate(&self) -> (r: IterableKind)
        ensures
            r@ == self@,
        decreases self,
    {
        match self {
            IterableKind::Numbers(v) => IterableKind::Numbers(duplicate_numbers(v)),
            IterableKind::Strings(v) => IterableKind::Strings(duplicate_strings(v)),
            IterableKind::Edges(v) => IterableKind::Edges(duplicate_edges(v)),
            IterableKind::Nodes(v) => IterableKind::Nodes(duplicate_nodes(v)),
            IterableKind::Graphs(v) => IterableKind::Graphs(duplicate_graphs(v)),
            IterableKind::Tuples(v) => {
                let mut out: Vec<Tuple> = Vec::new();
                let mut i: usize = 0;
                while i < v.len()
                    invariant
                        i <= v.len(),
                        self is Tuples,
                        self->Tuples_0 == *v,
                        out.len() == i,
                        forall|j: int| 0 <= j < i ==> out[j]@ == v[j]@,
                    decreases v.len() - i,
                {
                    out.push(v[i].duplicate());
                    i = i + 1;
                }
                assert(tuple_views(out@) =~= tuple_views(v@));
                IterableKind::Tuples(out)
            },
            IterableKind::Booleans(v) => IterableKind::Booleans(duplicate_booleans(v)),
            IterableKind::Iterables(v) => {
                let mut out: Vec<IterableKind> = Vec::new();
                let mut i: usize = 0;
                while i < v.len()
                    invariant
                        i <= v.len(),
                        self is Iterables,
                        self->Iterables_0 == *v,
                        out.len() == i,
                        forall|j: int| 0 <= j < i ==> out[j]@ == v[j]@,
                    decreases v.len() - i,
                {
                    out.push(v[i].duplicate());
                    i = i + 1;
                }
                assert(iterable_views(out@) =~= iterable_views(v@));
                IterableKind::Iterables(out)
            },
        }
    }
}

impl Primitive {
    /// A copy of the value.
    pub fn duplicate(&self) -> (r: Primitive)
        ensures
            r@ == self@,
        decreases self,
    {
        match self {
            Primitive::Number(n) => Primitive::Number(*n),
            Primitive::String(s) => Primitive::String(s.clone()),
            Primitive::Iterable(i) => Primitive::Iterable(i.duplicate()),
            Primitive::Graph(g) => Primitive::Graph(g.duplicate()),
            Primitive::GraphEdge(e) => Primitive::GraphEdge(e.duplicate()),
            Primitive::GraphNode(n) => Primitive::GraphNode(n.duplicate()),
            Primitive::Tuple(t) => Primitive::Tuple(t.duplicate()),
            Primitive::Boolean(b) => Primitive::Boolean(*b),
            Primitive::Undefined => Primitive::Undefined,
        }
    }
}

impl Clone for Tuple {
    fn clone(&self) -> (r: Tuple)
        ensures
            r@ == self@,
    {
        self.duplicate()
    }
}

impl Clone for IterableKind {
    fn clone(&self) -> (r: IterableKind)
        ensures
            r@ == self@,
    {
        self.duplicate()
    }
}

impl Clone for Primitive {
    fn clone(&self) -> (r: Primitive)
        ensures
            r@ == self@,
    {
        self.duplicate()
    }
}

/// The kinds of a list of values.
pub open spec fn primitive_kinds(items: Seq<PrimitiveView>) -> Seq<KindView>
    decreases items,
{
    Seq::new(
        items.len(),
        |i: int|
            if 0 <= i < items.len() {
                primitive_kind(items[i])
            } else {
                KindView::Undefined
            },
    )
}

/// The kind of the elements of an iterable. The elements of a list of tuples
/// or of iterables are of the kind of the first of them, and of the kind
/// `Undefined` where there is none.
pub open spec fn element_kind(i: IterableView) -> KindView
    decreases i,
{
    match i {
        IterableView::Numbers(_) => KindView::Number,
        IterableView::Strings(_) => KindView::String,
        IterableView::Edges(_) => KindView::GraphEdge,
        IterableView::Nodes(_) => KindView::GraphNode,
        IterableView::Graphs(_) => KindView::Graph,
        IterableView::Tuples(v) => if v.len() > 0 {
            KindView::Tuple(primitive_kinds(v[0]))
        } else {
            KindView::Undefined
        },
        IterableView::Booleans(_) => KindView::Boolean,
        IterableView::Iterables(v) => if v.len() > 0 {
            KindView::Iterable(Box::new(element_kind(v[0])))
        } else {
            KindView::Undefined
        },
    }
}

/// The kind of a value. An iterable is of the kind `Iterable` of the kind of
/// its elements, a tuple of the kind `Tuple` of the kinds of its parts.
pub open spec fn primitive_kind(p: PrimitiveView) -> KindView
    decreases p,
{
    match p {
        PrimitiveView::Number(_) => KindView::Number,
        PrimitiveView::String(_) => KindView::String,
        PrimitiveView::Iterable(i) => KindView::Iterable(Box::new(element_kind(i))),
        PrimitiveView::Graph(_) => KindView::Graph,
        PrimitiveView::GraphEdge(_) => KindView::GraphEdge,
        PrimitiveView::GraphNode(_) => KindView::GraphNode,
        PrimitiveView::Tuple(t) => KindView::Tuple(primitive_kinds(t)),
        PrimitiveView::Boolean(_) => KindView::Boolean,
        PrimitiveView::Undefined => KindView::Undefined,
    }
}

/// The kind of an iterable.
pub open spec fn iterable_kind(i: IterableView) -> KindView {
    KindView::Iterable(Box::new(element_kind(i)))
}

/// The texts of a list of numbers.
pub open spec fn number_texts(items: Seq<Number>) -> Seq<Seq<char>> {
    Seq::new(items.len(), |i: int| items[i].text())
}

/// The text of a truth value.
pub open spec fn boolean_text(b: bool) -> Seq<char> {
    if b {
        "true"@
    } else {
        "false"@
    }
}

/// The texts of a list of truth values.
pub open spec fn boolean_texts(items: Seq<bool>) -> Seq<Seq<char>> {
    Seq::new(items.len(), |i: int| boolean_text(items[i]))
}

/// The texts of a list of graphs.
pub open spec fn graph_texts(items: Seq<GraphView>) -> Seq<Seq<char>> {
    Seq::new(items.len(), |i: int| graph_text(items[i]))
}

/// A list in square brackets, its items separated by a comma and a blank.
pub open spec fn bracketed(items: Seq<Seq<char>>) -> Seq<char> {
    "["@ + join_text(items, ", "@) + "]"@
}

/// The texts of a list of values.
pub open spec fn primitive_texts(items: Seq<PrimitiveView>) -> Seq<Seq<char>>
    decreases items, 0nat,
{
    Seq::new(
        items.len(),
        |i: int|
            if 0 <= i < items.len() {
                primitive_text(items[i])
            } else {
                Seq::<char>::empty()
            },
    )
}

/// The texts of a list of tuples, each in square brackets.
pub open spec fn tuple_texts(items: Seq<Seq<PrimitiveView>>) -> Seq<Seq<char>>
    decreases items, 0nat,
{
    Seq::new(
        items.len(),
        |i: int|
            if 0 <= i < items.len() {
                bracketed(primitive_texts(items[i]))
            } else {
                Seq::<char>::empty()
            },
    )
}

/// The texts of a list of iterables, each behind `indent`.
pub open spec fn indented_texts(items: Seq<IterableView>, indent: Seq<char>) -> Seq<Seq<char>>
    decreases items, 0nat,
{
    Seq::new(
        items.len(),
        |i: int|
            if 0 <= i < items.len() {
                indented_text(items[i], indent)
            } else {
                Seq::<char>::empty()
            },
    )
}

/// The text of an iterable: its items in square brackets. A list of tuples
/// has one tuple to a line; a list of iterables stands on lines of its own.
pub open spec fn iterable_text(i: IterableView) -> Seq<char>
    decreases i, 0nat,
{
    match i {
        IterableView::Numbers(v) => bracketed(number_texts(v)),
        IterableView::Strings(v) => bracketed(v),
        IterableView::Edges(v) => bracketed(edge_texts(v)),
        IterableView::Nodes(v) => bracketed(node_texts(v)),
        IterableView::Graphs(v) => bracketed(graph_texts(v)),
        IterableView::Tuples(v) => "["@ + join_text(tuple_texts(v), ",\n"@) + "]"@,
        IterableView::Booleans(v) => bracketed(boolean_texts(v)),
        IterableView::Iterables(v) => "[\n"@ + join_text(
            indented_texts(v, Seq::<char>::empty()),
            ", "@,
        ) + "\n]"@,
    }
}

/// The text of an iterable behind `indent`; the iterables inside a list of
/// iterables stand four blanks further in.
pub open spec fn indented_text(i: IterableView, indent: Seq<char>) -> Seq<char>
    decreases i, 1nat,
{
    match i {
        IterableView::Iterables(v) => indent + "[\n"@ + join_text(
            indented_texts(v, indent + "    "@),
            ", "@,
        ) + "\n]"@,
        _ => indent + iterable_text(i),
    }
}

/// The text of a value.
pub open spec fn primitive_text(p: PrimitiveView) -> Seq<char>
    decreases p, 0nat,
{
    match p {
        PrimitiveView::Number(n) => n.text(),
        PrimitiveView::String(s) => s,
        PrimitiveView::Iterable(i) => match i {
            IterableView::Iterables(v) => "[\n"@ + join_text(
                indented_texts(v, "    "@),
                ",\n"@,
            ) + "\n]"@,
            _ => iterable_text(i),
        },
        PrimitiveView::Graph(g) => graph_text(g),
        PrimitiveView::GraphEdge(e) => edge_text(e),
        PrimitiveView::GraphNode(n) => node_text(n),
        PrimitiveView::Tuple(t) => bracketed(primitive_texts(t)),
        PrimitiveView::Boolean(b) => boolean_text(b),
        PrimitiveView::Undefined => "undefined"@,
    }
}

/// The message of the error for a value of another kind than the one
/// expected.
pub open spec fn wrong_argument_text(expected: Seq<char>, got: KindView) -> Seq<char> {
    "Expected "@ + expected + ", got "@ + kind_text(got)
}

/// The error for a value of another kind than the one expected.
pub fn wrong_argument(expected: &str, got: &PrimitiveKind) -> (r: TransformError)
    ensures
        r@ == ErrorView::WrongArgument(wrong_argument_text(expected@, got@)),
{
    let mut message = owned("Expected ");
    message.append(expected);
    message.append(", got ");
    message.append(got.to_string().as_str());
    TransformError::WrongArgument(message)
}

/// `[`, the items separated by a comma and a blank, and `]`.
pub fn in_brackets(items: &Vec<String>) -> (r: String)
    ensures
        r@ == bracketed(items.deep_view()),
{
    let mut out = owned("[");
    out.append(join(items, ", ").as_str());
    out.append("]");
    out
}

impl Tuple {
    /// The kind of the tuple: the kinds of its parts.
    pub fn get_type(&self) -> (r: PrimitiveKind)
        ensures
            r@ == KindView::Tuple(primitive_kinds(self@)),
        decreases self,
    {
        let mut kinds: Vec<PrimitiveKind> = Vec::new();
        let mut i: usize = 0;
        while i < self.0.len()
            invariant
                i <= self.0.len(),
                kinds.len() == i,
                forall|j: int| 0 <= j < i ==> kinds[j]@ == primitive_kind(self.0[j]@),
            decreases self.0.len() - i,
        {
            kinds.push(self.0[i].get_type());
            i = i + 1;
        }
        assert(kind_views(kinds@) =~= primitive_kinds(self@));
        PrimitiveKind::Tuple(kinds)
    }

    /// The text of the tuple: its parts in square brackets.
    pub fn to_string(&self) -> (r: String)
        ensures
            r@ == bracketed(primitive_texts(self@)),
        decreases self, 0nat,
    {
        let mut parts: Vec<String> = Vec::new();
        let mut i: usize = 0;
        while i < self.0.len()
            invariant
                i <= self.0.len(),
                parts.len() == i,
                forall|j: int| 0 <= j < i ==> parts[j]@ == primitive_text(self.0[j]@),
            decreases self.0.len() - i,
        {
            parts.push(self.0[i].to_string());
            i = i + 1;
        }
        assert(parts.deep_view() =~= primitive_texts(self@));
        in_brackets(&parts)
    }
}

impl IterableKind {
    /// The kind of the elements of the iterable.
    pub fn get_inner_type(&self) -> (r: PrimitiveKind)
        ensures
            r@ == element_kind(self@),
        decreases self,
    {
        match self {
            IterableKind::Numbers(_) => PrimitiveKind::Number,
            IterableKind::Strings(_) => PrimitiveKind::String,
            IterableKind::Edges(_) => PrimitiveKind::GraphEdge,
            IterableKind::Nodes(_) => PrimitiveKind::GraphNode,
            IterableKind::Graphs(_) => PrimitiveKind::Graph,
            IterableKind::Tuples(t) => {
                if t.len() > 0 {
                    t[0].get_type()
                } else {
                    PrimitiveKind::Undefined
                }
            },
            IterableKind::Booleans(_) => PrimitiveKind::Boolean,
            IterableKind::Iterables(v) => {
                if v.len() > 0 {
                    PrimitiveKind::Iterable(Box::new(v[0].get_inner_type()))
                } else {
                    PrimitiveKind::Undefined
                }
            },
        }
    }

    /// The kind of the iterable.
    pub fn get_type(&self) -> (r: PrimitiveKind)
        ensures
            r@ == iterable_kind(self@),
    {
        PrimitiveKind::Iterable(Box::new(self.get_inner_type()))
    }

    /// The texts of the items of a list of iterables, each behind `indent`.
    fn item_texts(&self, indent: &str) -> (r: Vec<String>)
        requires
            self is Iterables,
        ensures
            r.deep_view() == indented_texts(self@->Iterables_0, indent@),
        decreases self, 0nat,
    {
        let mut parts: Vec<String> = Vec::new();
        match self {
            IterableKind::Iterables(v) => {
                let mut i: usize = 0;
                while i < v.len()
                    invariant
                        i <= v.len(),
                        self is Iterables,
                        self->Iterables_0 == *v,
                        parts.len() == i,
                        forall|j: int| 0 <= j < i ==> parts[j]@ == indented_text(v[j]@, indent@),
                    decreases v.len() - i,
                {
                    parts.push(v[i].to_string_indented(indent));
                    i = i + 1;
                }
                assert(parts.deep_view() =~= indented_texts(self@->Iterables_0, indent@));
            },
            _ => {},
        }
        parts
    }

    /// The text of the iterable.
    pub fn to_string(&self) -> (r: String)
        ensures
            r@ == iterable_text(self@),
        decreases self, 1nat,
    {
        match self {
            IterableKind::Numbers(v) => {
                let mut parts: Vec<String> = Vec::new();
                let mut i: usize = 0;
                while i < v.len()
                    invariant
                        i <= v.len(),
                        parts.len() == i,
                        forall|j: int| 0 <= j < i ==> parts[j]@ == v[j].text(),
                    decreases v.len() - i,
                {
                    parts.push(v[i].to_string());
                    i = i + 1;
                }
                assert(parts.deep_view() =~= number_texts(v@));
                in_brackets(&parts)
            },
            IterableKind::Strings(v) => in_brackets(v),
            IterableKind::Edges(v) => {
                let mut parts: Vec<String> = Vec::new();
                let mut i: usize = 0;
                while i < v.len()
                    invariant
                        i <= v.len(),
                        parts.len() == i,
                        forall|j: int| 0 <= j < i ==> parts[j]@ == edge_text(v[j]@),
                    decreases v.len() - i,
                {
                    parts.push(v[i].to_string());
                    i = i + 1;
                }
                assert(parts.deep_view() =~= edge_texts(edge_views(v@)));
                in_brackets(&parts)
            },
            IterableKind::Nodes(v) => {
                let mut parts: Vec<String> = Vec::new();
                let mut i: usize = 0;
                while i < v.len()
                    invariant
                        i <= v.len(),
                        parts.len() == i,
                        forall|j: int| 0 <= j < i ==> parts[j]@ == node_text(v[j]@),
                    decreases v.len() - i,
                {
                    parts.push(v[i].to_string());
                    i = i + 1;
                }
                assert(parts.deep_view() =~= node_texts(node_views(v@)));
                in_brackets(&parts)
            },
            IterableKind::Graphs(v) => {
                let mut parts: Vec<String> = Vec::new();
                let mut i: usize = 0;
                while i < v.len()
                    invariant
                        i <= v.len(),
                        parts.len() == i,
                        forall|j: int| 0 <= j < i ==> parts[j]@ == graph_text(v[j]@),
                    decreases v.len() - i,
                {
                    parts.push(v[i].to_string());
                    i = i + 1;
                }
                assert(parts.deep_view() =~= graph_texts(graph_views(v@)));
                in_brackets(&parts)
            },
            IterableKind::Tuples(v) => {
                let mut parts: Vec<String> = Vec::new();
                let mut i: usize = 0;
                while i < v.len()
                    invariant
                        i <= v.len(),
                        self is Tuples,
                        self->Tuples_0 == *v,
                        parts.len() == i,
                        forall|j: int|
                            0 <= j < i ==> parts[j]@ == bracketed(primitive_texts(v[j]@)),
                    decreases v.len() - i,
                {
                    parts.push(v[i].to_string());
                    i = i + 1;
                }
                assert(parts.deep_view() =~= tuple_texts(tuple_views(v@)));
                let mut out = owned("[");
                out.append(join(&parts, ",\n").as_str());
                out.append("]");
                out
            },
            IterableKind::Booleans(v) => {
                let mut parts: Vec<String> = Vec::new();
                let mut i: usize = 0;
                while i < v.len()
                    invariant
                        i <= v.len(),
                        parts.len() == i,
                        forall|j: int| 0 <= j < i ==> parts[j]@ == boolean_text(v[j]),
                    decreases v.len() - i,
                {
                    parts.push(
                        if v[i] {
                            owned("true")
                        } else {
                            owned("false")
                        },
                    );
                    i = i + 1;
                }
                assert(parts.deep_view() =~= boolean_texts(v@));
                in_brackets(&parts)
            },
            IterableKind::Iterables(_) => {
                let parts = self.item_texts("");
                assert(""@ =~= Seq::<char>::empty()) by {
                    reveal_strlit("");
                }
                let mut out = owned("[\n");
                out.append(join(&parts, ", ").as_str());
                out.append("\n]");
                out
            },
        }
    }

    /// The text of the iterable behind `indent`.
    pub fn to_string_indented(&self, indent: &str) -> (r: String)
        ensures
            r@ == indented_text(self@, indent@),
        decreases self, 2nat,
    {
        match self {
            IterableKind::Iterables(_) => {
                let mut deeper = owned(indent);
                deeper.append("    ");
                let parts = self.item_texts(deeper.as_str());
                let mut out = owned(indent);
                out.append("[\n");
                out.append(join(&parts, ", ").as_str());
                out.append("\n]");
                out
            },
            _ => {
                let mut out = owned(indent);
                out.append(self.to_string().as_str());
                out
            },
        }
    }
}

impl Primitive {
    /// The kind of the value.
    pub fn get_type(&self) -> (r: PrimitiveKind)
        ensures
            r@ == primitive_kind(self@),
        decreases self,
    {
        match self {
            Primitive::Number(_) => PrimitiveKind::Number,
            Primitive::String(_) => PrimitiveKind::String,
            Primitive::Iterable(p) => PrimitiveKind::Iterable(Box::new(p.get_inner_type())),
            Primitive::Graph(_) => PrimitiveKind::Graph,
            Primitive::GraphEdge(_) => PrimitiveKind::GraphEdge,
            Primitive::GraphNode(_) => PrimitiveKind::GraphNode,
            Primitive::Tuple(t) => t.get_type(),
            Primitive::Boolean(_) => PrimitiveKind::Boolean,
            Primitive::Undefined => PrimitiveKind::Undefined,
        }
    }

    /// The name of the kind of the value.
    pub fn get_type_string(&self) -> (r: String)
        ensures
            r@ == kind_text(primitive_kind(self@)),
    {
        self.get_type().to_string()
    }

    /// The text of the value.
    pub fn to_string(&self) -> (r: String)
        ensures
            r@ == primitive_text(self@),
        decreases self, 3nat,
    {
        match self {
            Primitive::Number(n) => n.to_string(),
            Primitive::String(s) => s.clone(),
            Primitive::Iterable(i) => match i {
                IterableKind::Iterables(_) => {
                    let parts = i.item_texts("    ");
                    let mut out = owned("[\n");
                    out.append(join(&parts, ",\n").as_str());
                    out.append("\n]");
                    out
                },
                _ => i.to_string(),
            },
            Primitive::Graph(g) => g.to_string(),
            Primitive::GraphEdge(e) => e.to_string(),
            Primitive::GraphNode(n) => n.to_string(),
            Primitive::Tuple(t) => t.to_string(),
            Primitive::Boolean(b) => if *b {
                owned("true")
            } else {
                owned("false")
            },
            Primitive::Undefined => owned("undefined"),
        }
    }
}

impl PrimitiveKind {
    /// The kind of a value.
    pub fn from_primitive(p: &Primitive) -> (r: PrimitiveKind)
        ensures
            r@ == primitive_kind(p@),
    {
        p.get_type()
    }
}

/// What a value gives to a pattern of several names: a tuple its parts, an
/// edge the node it starts at, its weight (one, where it has none) and the
/// node it ends in, an iterable its elements. Nothing else can be spread.
pub open spec fn spread(p: PrimitiveView) -> Option<Seq<PrimitiveView>> {
    match p {
        PrimitiveView::Tuple(t) => Some(t),
        PrimitiveView::GraphEdge(e) => Some(edge_parts(e)),
        PrimitiveView::Iterable(i) => Some(i.elements()),
        _ => None,
    }
}

/// The parts of an edge: where it starts, its weight, where it ends.
pub open spec fn edge_parts(e: EdgeView) -> Seq<PrimitiveView> {
    seq![
        PrimitiveView::String(e.from),
        PrimitiveView::Number(
            match e.weight {
                Some(w) => w,
                None => Number { negative: false, magnitude: 1, scale: 0 },
            },
        ),
        PrimitiveView::String(e.to),
    ]
}

impl GraphEdge {
    /// The parts of the edge, for a pattern of names to take.
    pub fn to_primitive_set(self) -> (r: Result<Vec<Primitive>, TransformError>)
        ensures
            r is Ok,
            primitive_views(r->Ok_0@) == edge_parts(self@),
    {
        let weight = match self.weight {
            Some(w) => w,
            None => Number::one(),
        };
        let mut out: Vec<Primitive> = Vec::new();
        out.push(Primitive::String(self.from));
        out.push(Primitive::Number(weight));
        out.push(Primitive::String(self.to));
        assert(primitive_views(out@) =~= edge_parts(self@));
        Ok(out)
    }
}

impl Tuple {
    /// The parts of the tuple, for a pattern of names to take.
    pub fn to_primitive_set(self) -> (r: Result<Vec<Primitive>, TransformError>)
        ensures
            r is Ok,
            primitive_views(r->Ok_0@) == self@,
    {
        Ok(self.0)
    }
}

impl Primitive {
    /// The number that the value is; `WrongArgument` for any other value.
    pub fn as_number(&self) -> (r: Result<Number, TransformError>)
        ensures
            match r {
                Ok(n) => self@ == PrimitiveView::Number(n),
                Err(e) => !(self@ is Number) && e@ == ErrorView::WrongArgument(
                    wrong_argument_text("Number"@, primitive_kind(self@)),
                ),
            },
    {
        match self {
            Primitive::Number(n) => Ok(*n),
            _ => Err(wrong_argument("Number", &self.get_type())),
        }
    }

    /// The integer that the value is; `WrongArgument` for a value that is no
    /// number, has a fractional part or does not fit.
    pub fn as_integer(&self) -> (r: Result<i64, TransformError>)
        ensures
            match r {
                Ok(n) => self@ is Number && self@->Number_0.is_integer_spec()
                    && self@->Number_0.integer_spec() == n,
                Err(e) => e@ == ErrorView::WrongArgument(
                    wrong_argument_text(
                        if self@ is Number {
                            "Integer"@
                        } else {
                            "Number"@
                        },
                        primitive_kind(self@),
                    ),
                ) && !(self@ is Number && self@->Number_0.is_integer_spec() && i64::MIN
                    <= self@->Number_0.integer_spec() <= i64::MAX),
            },
    {
        let n = self.as_number()?;
        match n.to_i64() {
            Some(i) => Ok(i),
            None => Err(wrong_argument("Integer", &self.get_type())),
        }
    }

    /// The index or count that the value is; `WrongArgument` for a value that
    /// is no number, has a fractional part, is below zero or does not fit.
    pub fn as_usize(&self) -> (r: Result<usize, TransformError>)
        ensures
            match r {
                Ok(n) => self@ is Number && self@->Number_0.is_integer_spec()
                    && self@->Number_0.integer_spec() == n,
                Err(e) => e@ == ErrorView::WrongArgument(
                    wrong_argument_text(
                        if !(self@ is Number) {
                            "Number"@
                        } else if !self@->Number_0.is_integer_spec() {
                            "Integer"@
                        } else {
                            "Positive integer"@
                        },
                        primitive_kind(self@),
                    ),
                ) && !(self@ is Number && self@->Number_0.is_integer_spec() && 0
                    <= self@->Number_0.integer_spec() <= usize::MAX),
            },
    {
        let n = self.as_number()?;
        if !n.is_integer() {
            return Err(wrong_argument("Integer", &self.get_type()));
        }
        match n.to_usize() {
            Some(i) => Ok(i),
            None => Err(wrong_argument("Positive integer", &self.get_type())),
        }
    }

    /// The graph that the value is; `WrongArgument` for any other value.
    pub fn as_graph(&self) -> (r: Result<&Graph, TransformError>)
        ensures
            match r {
                Ok(g) => self@ == PrimitiveView::Graph(g@),
                Err(e) => !(self@ is Graph) && e@ == ErrorView::WrongArgument(
                    wrong_argument_text("Graph"@, primitive_kind(self@)),
                ),
            },
    {
        match self {
            Primitive::Graph(g) => Ok(g),
            _ => Err(wrong_argument("Graph", &self.get_type())),
        }
    }

    /// The node that the value is; `WrongArgument` for any other value.
    pub fn as_node(&self) -> (r: Result<&GraphNode, TransformError>)
        ensures
            match r {
                Ok(n) => self@ == PrimitiveView::GraphNode(n@),
                Err(e) => !(self@ is GraphNode) && e@ == ErrorView::WrongArgument(
                    wrong_argument_text("GraphNode"@, primitive_kind(self@)),
                ),
            },
    {
        match self {
            Primitive::GraphNode(n) => Ok(n),
            _ => Err(wrong_argument("GraphNode", &self.get_type())),
        }
    }

    /// The text that the value is; `WrongArgument` for any other value.
    pub fn as_string(&self) -> (r: Result<&String, TransformError>)
        ensures
            match r {
                Ok(s) => self@ == PrimitiveView::String(s@),
                Err(e) => !(self@ is String) && e@ == ErrorView::WrongArgument(
                    wrong_argument_text("String"@, primitive_kind(self@)),
                ),
            },
    {
        match self {
            Primitive::String(s) => Ok(s),
            _ => Err(wrong_argument("String", &self.get_type())),
        }
    }

    /// The iterable that the value is; `WrongArgument` for any other value.
    pub fn as_iterator(&self) -> (r: Result<&IterableKind, TransformError>)
        ensures
            match r {
                Ok(i) => self@ == PrimitiveView::Iterable(i@),
                Err(e) => !(self@ is Iterable) && e@ == ErrorView::WrongArgument(
                    wrong_argument_text("Iterable"@, primitive_kind(self@)),
                ),
            },
    {
        match self {
            Primitive::Iterable(i) => Ok(i),
            _ => Err(wrong_argument("Iterable", &self.get_type())),
        }
    }

    /// The parts of the tuple that the value is; `WrongArgument` for any
    /// other value.
    pub fn as_tuple(&self) -> (r: Result<&Vec<Primitive>, TransformError>)
        ensures
            match r {
                Ok(t) => self@ == PrimitiveView::Tuple(primitive_views(t@)),
                Err(e) => !(self@ is Tuple) && e@ == ErrorView::WrongArgument(
                    wrong_argument_text("Tuple"@, primitive_kind(self@)),
                ),
            },
    {
        match self {
            Primitive::Tuple(t) => Ok(t.get_primitives()),
            _ => Err(wrong_argument("Tuple", &self.get_type())),
        }
    }

    /// What the value gives to a pattern of several names; `Unspreadable`,
    /// with the kind of the value, where it cannot be spread.
    pub fn to_primitive_set(self) -> (r: Result<Vec<Primitive>, TransformError>)
        ensures
            match r {
                Ok(parts) => spread(self@) == Some(primitive_views(parts@)),
                Err(e) => spread(self@) is None && e@ == ErrorView::Unspreadable(
                    primitive_kind(self@),
                ),
            },
    {
        match self {
            Primitive::Tuple(t) => t.to_primitive_set(),
            Primitive::GraphEdge(e) => e.to_primitive_set(),
            Primitive::Iterable(i) => i.to_primitive_set(),
            other => Err(TransformError::Unspreadable(other.get_type())),
        }
    }
}

} // verus!
