//! The values that a constant of a model can be written as in the source.
use vstd::prelude::*;
use vstd::string::*;
use crate::number::Number;
use crate::primitives::graph::{graph_text, Graph, GraphView};
use crate::primitives::primitive::{
    bracketed, duplicate_numbers, in_brackets, iterable_views, number_texts, IterableKind,
    IterableView, Primitive, PrimitiveView,
};
use crate::text::{join, join_text, owned};

verus! {

/// A constant as it is written: a number, a list or a table of numbers, a
/// graph, or a text.
#[derive(Debug)]
pub enum ConstantValue {
    Number(Number),
    OneDimArray(Vec<Number>),
    TwoDimArray(Vec<Vec<Number>>),
    Graph(Graph),
    String(String),
}

/// A written constant as a mathematical value.
pub enum ConstantValueView {
    Number(Number),
    OneDimArray(Seq<Number>),
    TwoDimArray(Seq<Seq<Number>>),
    Graph(GraphView),
    String(Seq<char>),
}

/// The views of the rows of a table of numbers.
pub open spec fn table_view(rows: Seq<Vec<Number>>) -> Seq<Seq<Number>> {
    Seq::new(rows.len(), |i: int| rows[i]@)
}

impl View for ConstantValue {
    type V = ConstantValueView;

    open spec fn view(&self) -> ConstantValueView {
        match self {
            ConstantValue::Number(n) => ConstantValueView::Number(*n),
            ConstantValue::OneDimArray(v) => ConstantValueView::OneDimArray(v@),
            ConstantValue::TwoDimArray(v) => ConstantValueView::TwoDimArray(table_view(v@)),
            ConstantValue::Graph(g) => ConstantValueView::Graph(g@),
            ConstantValue::String(s) => ConstantValueView::String(s@),
        }
    }
}

/// The texts of the rows of a table of numbers.
pub open spec fn row_texts(rows: Seq<Seq<Number>>) -> Seq<Seq<char>> {
    Seq::new(rows.len(), |i: int| bracketed(number_texts(rows[i])))
}

/// The text of a written constant.
pub open spec fn constant_value_text(c: ConstantValueView) -> Seq<char> {
    match c {
        ConstantValueView::Number(n) => n.text(),
        ConstantValueView::OneDimArray(v) => bracketed(number_texts(v)),
        ConstantValueView::TwoDimArray(rows) => "[\n"@ + join_text(row_texts(rows), ",\n"@)
            + "\n]"@,
        ConstantValueView::Graph(g) => "Graph {\n"@ + graph_text(g) + "\n}"@,
        ConstantValueView::String(s) => "\""@ + s + "\""@,
    }
}

/// The value that a written constant stands for.
pub open spec fn constant_primitive(c: ConstantValueView) -> PrimitiveView {
    match c {
        ConstantValueView::Number(n) => PrimitiveView::Number(n),
        ConstantValueView::OneDimArray(v) => PrimitiveView::Iterable(IterableView::Numbers(v)),
        ConstantValueView::TwoDimArray(rows) => PrimitiveView::Iterable(
            IterableView::Iterables(
                Seq::new(rows.len(), |i: int| IterableView::Numbers(rows[i])),
            ),
        ),
        ConstantValueView::Graph(g) => PrimitiveView::Graph(g),
        ConstantValueView::String(s) => PrimitiveView::String(s),
    }
}

/// The text of a list of numbers.
fn numbers_text(items: &Vec<Number>) -> (r: String)
    ensures
        r@ == bracketed(number_texts(items@)),
{
    let mut parts: Vec<String> = Vec::new();
    let mut i: usize = 0;
    while i < items.len()
        invariant
            i <= items.len(),
            parts.len() == i,
            forall|j: int| 0 <= j < i ==> parts[j]@ == items[j].text(),
        decreases items.len() - i,
    {
        parts.push(items[i].to_string());
        i = i + 1;
    }
    assert(parts.deep_view() =~= number_texts(items@));
    in_brackets(&parts)
}

impl ConstantValue {
    pub fn to_string(&self) -> (r: String)
        ensures
            r@ == constant_value_text(self@),
    {
        match self {
            ConstantValue::Number(n) => n.to_string(),
            ConstantValue::OneDimArray(v) => numbers_text(v),
            ConstantValue::TwoDimArray(v) => {
                let mut parts: Vec<String> = Vec::new();
                let mut i: usize = 0;
                while i < v.len()
                    invariant
                        i <= v.len(),
                        parts.len() == i,
                        forall|j: int|
                            0 <= j < i ==> parts[j]@ == bracketed(number_texts(v[j]@)),
                    decreases v.len() - i,
                {
                    parts.push(numbers_text(&v[i]));
                    i = i + 1;
                }
                assert(parts.deep_view() =~= row_texts(table_view(v@)));
                let mut out = owned("[\n");
                out.append(join(&parts, ",\n").as_str());
                out.append("\n]");
                out
            },
            ConstantValue::Graph(g) => {
                let mut out = owned("Graph {\n");
                out.append(g.to_string().as_str());
                out.append("\n}");
                out
            },
            ConstantValue::String(s) => {
                let mut out = owned("\"");
                out.append(s.as_str());
                out.append("\"");
                out
            },
        }
    }

    /// The value that the constant stands for.
    pub fn into_primitive(self) -> (r: Primitive)
        ensures
            r@ == constant_primitive(self@),
    {
        match self {
            ConstantValue::Number(n) => Primitive::Number(n),
            ConstantValue::OneDimArray(v) => Primitive::Iterable(IterableKind::Numbers(v)),
            ConstantValue::TwoDimArray(v) => {
                let mut rows: Vec<IterableKind> = Vec::new();
                let mut i: usize = 0;
                while i < v.len()
                    invariant
                        i <= v.len(),
                        rows.len() == i,
                        forall|j: int| 0 <= j < i ==> rows[j]@ == IterableView::Numbers(v[j]@),
                    decreases v.len() - i,
                {
                    rows.push(IterableKind::Numbers(duplicate_numbers(&v[i])));
                    i = i + 1;
                }
                assert(iterable_views(rows@) =~= Seq::new(
                    table_view(v@).len(),
                    |i: int| IterableView::Numbers(table_view(v@)[i]),
                ));
                Primitive::Iterable(IterableKind::Iterables(rows))
            },
            ConstantValue::Graph(g) => Primitive::Graph(g),
            ConstantValue::String(s) => Primitive::String(s),
        }
    }
}

} // verus!
