//! Gathering values into one iterable.
use vstd::prelude::*;
use vstd::string::*;
use crate::number::Number;
use crate::primitives::graph::{edge_views, graph_views, node_views, Graph, GraphEdge, GraphNode};
use crate::primitives::kind::kind_text;
use crate::primitives::primitive::{
    iterable_views, primitive_kind, primitive_views, tuple_views, IterableKind, IterableView,
    Primitive, PrimitiveView, Tuple,
};
use crate::text::owned;

verus! {

/// The sorts of values: which case of [`Primitive`] a value is.
#[derive(Clone, Copy, Debug, PartialEq, Eq, Structural)]
pub enum Sort {
    Number,
    String,
    Iterable,
    Graph,
    GraphEdge,
    GraphNode,
    Tuple,
    Boolean,
    Undefined,
}

/// The sort of a value.
pub open spec fn sort_of(p: PrimitiveView) -> Sort {
    match p {
        PrimitiveView::Number(_) => Sort::Number,
        PrimitiveView::String(_) => Sort::String,
        PrimitiveView::Iterable(_) => Sort::Iterable,
        PrimitiveView::Graph(_) => Sort::Graph,
        PrimitiveView::GraphEdge(_) => Sort::GraphEdge,
        PrimitiveView::GraphNode(_) => Sort::GraphNode,
        PrimitiveView::Tuple(_) => Sort::Tuple,
        PrimitiveView::Boolean(_) => Sort::Boolean,
        PrimitiveView::Undefined => Sort::Undefined,
    }
}

/// The place, from `from` on, of the first value that is not of the sort
/// `sort`.
pub open spec fn first_of_other_sort(values: Seq<PrimitiveView>, sort: Sort, from: int) -> Option<
    int,
>
    decreases values.len() - from,
{
    if from < 0 || from >= values.len() {
        None
    } else if sort_of(values[from]) != sort {
        Some(from)
    } else {
        first_of_other_sort(values, sort, from + 1)
    }
}

/// The iterable of the sort of the first value that holds all the values.
/// It is meant for values that are all of that sort.
pub open spec fn gathered(values: Seq<PrimitiveView>) -> IterableView {
    match values[0] {
        PrimitiveView::Number(_) => IterableView::Numbers(
            Seq::new(values.len(), |i: int| values[i]->Number_0),
        ),
        PrimitiveView::String(_) => IterableView::Strings(
            Seq::new(values.len(), |i: int| values[i]->String_0),
        ),
        PrimitiveView::Iterable(_) => IterableView::Iterables(
            Seq::new(values.len(), |i: int| values[i]->Iterable_0),
        ),
        PrimitiveView::Graph(_) => IterableView::Graphs(
            Seq::new(values.len(), |i: int| values[i]->Graph_0),
        ),
        PrimitiveView::GraphEdge(_) => IterableView::Edges(
            Seq::new(values.len(), |i: int| values[i]->GraphEdge_0),
        ),
        PrimitiveView::GraphNode(_) => IterableView::Nodes(
            Seq::new(values.len(), |i: int| values[i]->GraphNode_0),
        ),
        PrimitiveView::Tuple(_) => IterableView::Tuples(
            Seq::new(values.len(), |i: int| values[i]->Tuple_0),
        ),
        PrimitiveView::Boolean(_) => IterableView::Booleans(
            Seq::new(values.len(), |i: int| values[i]->Boolean_0),
        ),
        PrimitiveView::Undefined => IterableView::Numbers(Seq::<Number>::empty()),
    }
}

/// The name of a sort in messages.
pub open spec fn sort_name(sort: Sort) -> Seq<char> {
    match sort {
        Sort::Number => "Number"@,
        Sort::String => "String"@,
        Sort::Iterable => "Iterable"@,
        Sort::Graph => "Graph"@,
        Sort::GraphEdge => "GraphEdge"@,
        Sort::GraphNode => "GraphNode"@,
        Sort::Tuple => "Tuple"@,
        Sort::Boolean => "Boolean"@,
        Sort::Undefined => "Undefined"@,
    }
}

/// The message for a value that is not of the sort expected: it names that
/// sort and the kind of the value.
pub open spec fn other_sort_text(expected: Sort, got: PrimitiveView) -> Seq<char> {
    if expected == Sort::Number {
        "Expected Number, got \""@ + kind_text(primitive_kind(got)) + "\""@
    } else {
        "Expected "@ + sort_name(expected) + " but got "@ + kind_text(primitive_kind(got))
    }
}

/// What gathering `values` gives: the empty list of numbers where there is no
/// value or the first value is undefined; else the iterable of all the
/// values, if they are all of the sort of the first; else the message for the
/// first value of another sort.
pub open spec fn flattened_values(values: Seq<PrimitiveView>) -> Result<PrimitiveView, Seq<char>> {
    if values.len() == 0 || values[0] is Undefined {
        Ok(PrimitiveView::Iterable(IterableView::Numbers(Seq::<Number>::empty())))
    } else {
        match first_of_other_sort(values, sort_of(values[0]), 0) {
            Some(i) => Err(other_sort_text(sort_of(values[0]), values[i])),
            None => Ok(PrimitiveView::Iterable(gathered(values))),
        }
    }
}

/// Where no value from `from` on is of another sort, every value from there
/// on is of the sort.
pub proof fn lemma_all_of_sort(values: Seq<PrimitiveView>, sort: Sort, from: int, i: int)
    requires
        0 <= from <= i < values.len(),
        first_of_other_sort(values, sort, from) is None,
    ensures
        sort_of(values[i]) == sort,
    decreases i - from,
{
    if from < i {
        lemma_all_of_sort(values, sort, from + 1, i);
    }
}

/// The sort of a value.
pub fn get_sort(p: &Primitive) -> (r: Sort)
    ensures
        r == sort_of(p@),
{
    match p {
        Primitive::Number(_) => Sort::Number,
        Primitive::String(_) => Sort::String,
        Primitive::Iterable(_) => Sort::Iterable,
        Primitive::Graph(_) => Sort::Graph,
        Primitive::GraphEdge(_) => Sort::GraphEdge,
        Primitive::GraphNode(_) => Sort::GraphNode,
        Primitive::Tuple(_) => Sort::Tuple,
        Primitive::Boolean(_) => Sort::Boolean,
        Primitive::Undefined => Sort::Undefined,
    }
}

/// The message for the value `got`, which is not of the sort `expected`.
fn other_sort_message(expected: Sort, got: &Primitive) -> (r: String)
    ensures
        r@ == other_sort_text(expected, got@),
{
    let kind = got.get_type_string();
    match expected {
        Sort::Number => {
            let mut out = owned("Expected Number, got \"");
            out.append(kind.as_str());
            out.append("\"");
            out
        },
        _ => {
            let mut out = owned("Expected ");
            out.append(
                match expected {
                    Sort::Number => "Number",
                    Sort::String => "String",
                    Sort::Iterable => "Iterable",
                    Sort::Graph => "Graph",
                    Sort::GraphEdge => "GraphEdge",
                    Sort::GraphNode => "GraphNode",
                    Sort::Tuple => "Tuple",
                    Sort::Boolean => "Boolean",
                    Sort::Undefined => "Undefined",
                },
            );
            out.append(" but got ");
            out.append(kind.as_str());
            out
        },
    }
}

/// The iterable of the sort `sort` that holds copies of all the values.
fn gather(values: &Vec<Primitive>, sort: Sort) -> (r: IterableKind)
    requires
        values.len() > 0,
        sort == sort_of(values[0]@),
        forall|i: int| 0 <= i < values.len() ==> sort_of(#[trigger] values[i]@) == sort,
    ensures
        r@ == gathered(primitive_views(values@)),
{
    let ghost views = primitive_views(values@);
    let n = values.len();
    let mut i: usize = 0;
    match sort {
        Sort::Number => {
            let mut out: Vec<Number> = Vec::new();
            while i < n
                invariant
                    i <= n,
                    n == values.len(),
                    out.len() == i,
                    forall|j: int| 0 <= j < n ==> sort_of(#[trigger] values[j]@) == Sort::Number,
                    forall|j: int| 0 <= j < i ==> out[j] == values[j]@->Number_0,
                decreases n - i,
            {
                assert(sort_of(values[i as int]@) == Sort::Number);
                if let Primitive::Number(x) = &values[i] {
                    out.push(*x);
                }
                i = i + 1;
            }
            assert(out@ =~= Seq::new(views.len(), |i: int| views[i]->Number_0));
            IterableKind::Numbers(out)
        },
        Sort::String => {
            let mut out: Vec<String> = Vec::new();
            while i < n
                invariant
                    i <= n,
                    n == values.len(),
                    out.len() == i,
                    forall|j: int| 0 <= j < n ==> sort_of(#[trigger] values[j]@) == Sort::String,
                    forall|j: int| 0 <= j < i ==> out[j]@ == values[j]@->String_0,
                decreases n - i,
            {
                assert(sort_of(values[i as int]@) == Sort::String);
                if let Primitive::String(x) = &values[i] {
                    out.push(x.clone());
                }
                i = i + 1;
            }
            assert(out.deep_view() =~= Seq::new(views.len(), |i: int| views[i]->String_0));
            IterableKind::Strings(out)
        },
        Sort::Iterable => {
            let mut out: Vec<IterableKind> = Vec::new();
            while i < n
                invariant
                    i <= n,
                    n == values.len(),
                    out.len() == i,
                    forall|j: int| 0 <= j < n ==> sort_of(#[trigger] values[j]@) == Sort::Iterable,
                    forall|j: int| 0 <= j < i ==> out[j]@ == values[j]@->Iterable_0,
                decreases n - i,
            {
                assert(sort_of(values[i as int]@) == Sort::Iterable);
                if let Primitive::Iterable(x) = &values[i] {
                    out.push(x.duplicate());
                }
                i = i + 1;
            }
            assert(iterable_views(out@) =~= Seq::new(views.len(), |i: int| views[i]->Iterable_0));
            IterableKind::Iterables(out)
        },
        Sort::Graph => {
            let mut out: Vec<Graph> = Vec::new();
            while i < n
                invariant
                    i <= n,
                    n == values.len(),
                    out.len() == i,
                    forall|j: int| 0 <= j < n ==> sort_of(#[trigger] values[j]@) == Sort::Graph,
                    forall|j: int| 0 <= j < i ==> out[j]@ == values[j]@->Graph_0,
                decreases n - i,
            {
                assert(sort_of(values[i as int]@) == Sort::Graph);
                if let Primitive::Graph(x) = &values[i] {
                    out.push(x.duplicate());
                }
                i = i + 1;
            }
            assert(graph_views(out@) =~= Seq::new(views.len(), |i: int| views[i]->Graph_0));
            IterableKind::Graphs(out)
        },
        Sort::GraphEdge => {
            let mut out: Vec<GraphEdge> = Vec::new();
            while i < n
                invariant
                    i <= n,
                    n == values.len(),
                    out.len() == i,
                    forall|j: int| 0 <= j < n ==> sort_of(#[trigger] values[j]@) == Sort::GraphEdge,
                    forall|j: int| 0 <= j < i ==> out[j]@ == values[j]@->GraphEdge_0,
                decreases n - i,
            {
                assert(sort_of(values[i as int]@) == Sort::GraphEdge);
                if let Primitive::GraphEdge(x) = &values[i] {
                    out.push(x.duplicate());
                }
                i = i + 1;
            }
            assert(edge_views(out@) =~= Seq::new(views.len(), |i: int| views[i]->GraphEdge_0));
            IterableKind::Edges(out)
        },
        Sort::GraphNode => {
            let mut out: Vec<GraphNode> = Vec::new();
            while i < n
                invariant
                    i <= n,
                    n == values.len(),
                    out.len() == i,
                    forall|j: int| 0 <= j < n ==> sort_of(#[trigger] values[j]@) == Sort::GraphNode,
                    forall|j: int| 0 <= j < i ==> out[j]@ == values[j]@->GraphNode_0,
                decreases n - i,
            {
                assert(sort_of(values[i as int]@) == Sort::GraphNode);
                if let Primitive::GraphNode(x) = &values[i] {
                    out.push(x.duplicate());
                }
                i = i + 1;
            }
            assert(node_views(out@) =~= Seq::new(views.len(), |i: int| views[i]->GraphNode_0));
            IterableKind::Nodes(out)
        },
        Sort::Tuple => {
            let mut out: Vec<Tuple> = Vec::new();
            while i < n
                invariant
                    i <= n,
                    n == values.len(),
                    out.len() == i,
                    forall|j: int| 0 <= j < n ==> sort_of(#[trigger] values[j]@) == Sort::Tuple,
                    forall|j: int| 0 <= j < i ==> out[j]@ == values[j]@->Tuple_0,
                decreases n - i,
            {
                assert(sort_of(values[i as int]@) == Sort::Tuple);
                if let Primitive::Tuple(x) = &values[i] {
                    out.push(x.duplicate());
                }
                i = i + 1;
            }
            assert(tuple_views(out@) =~= Seq::new(views.len(), |i: int| views[i]->Tuple_0));
            IterableKind::Tuples(out)
        },
        Sort::Boolean => {
            let mut out: Vec<bool> = Vec::new();
            while i < n
                invariant
                    i <= n,
                    n == values.len(),
                    out.len() == i,
                    forall|j: int| 0 <= j < n ==> sort_of(#[trigger] values[j]@) == Sort::Boolean,
                    forall|j: int| 0 <= j < i ==> out[j] == values[j]@->Boolean_0,
                decreases n - i,
            {
                assert(sort_of(values[i as int]@) == Sort::Boolean);
                if let Primitive::Boolean(x) = &values[i] {
                    out.push(*x);
                }
                i = i + 1;
            }
            assert(out@ =~= Seq::new(views.len(), |i: int| views[i]->Boolean_0));
            IterableKind::Booleans(out)
        },
        Sort::Undefined => IterableKind::Numbers(Vec::new()),
    }
}

/// Gathers values into one iterable of the sort of the first of them. With no
/// value, or where the first is undefined, the result is the empty list of
/// numbers. A value of another sort than the first is refused, with a message
/// that names the sort expected and the kind found.
pub fn flatten_primitive_array_values(values: Vec<Primitive>) -> (r: Result<Primitive, String>)
    ensures
        match r {
            Ok(p) => flattened_values(primitive_views(values@)) == Ok::<
                PrimitiveView,
                Seq<char>,
            >(p@),
            Err(message) => flattened_values(primitive_views(values@)) == Err::<
                PrimitiveView,
                Seq<char>,
            >(message@),
        },
{
    let ghost views = primitive_views(values@);
    if values.len() == 0 {
        return Ok(Primitive::Iterable(IterableKind::Numbers(Vec::new())));
    }
    let sort = get_sort(&values[0]);
    if sort == Sort::Undefined {
        return Ok(Primitive::Iterable(IterableKind::Numbers(Vec::new())));
    }
    let mut i: usize = 0;
    while i < values.len()
        invariant
            i <= values.len(),
            views == primitive_views(values@),
            sort == sort_of(views[0]),
            sort != Sort::Undefined,
            values.len() > 0,
            first_of_other_sort(views, sort, 0) == first_of_other_sort(views, sort, i as int),
        decreases values.len() - i,
    {
        assert(views[i as int] == values[i as int]@);
        if get_sort(&values[i]) != sort {
            assert(first_of_other_sort(views, sort, i as int) == Some(i as int));
            return Err(other_sort_message(sort, &values[i]));
        }
        i = i + 1;
    }
    proof {
        assert forall|k: int| 0 <= k < values.len() implies sort_of(#[trigger] values[k]@)
            == sort by {
            lemma_all_of_sort(views, sort, 0, k);
        }
    }
    Ok(Primitive::Iterable(gather(&values, sort)))
}

} // verus!
