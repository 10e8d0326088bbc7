//! Graphs: an ordered list of nodes, each with its name and the edges that
//! leave it. An edge names the node it ends in, so that a graph with cycles is
//! a plain value and copies freely.
use vstd::prelude::*;
use vstd::string::*;
use crate::error::{ErrorView, TransformError};
use crate::number::Number;
use crate::text::{join, join_text, owned, same_text};

verus! {

/// An edge from the node `from` to the node `to`, with an optional weight.
#[derive(Debug, PartialEq)]
pub struct GraphEdge {
    pub from: String,
    pub to: String,
    pub weight: Option<Number>,
}

/// An edge as a mathematical value.
pub struct EdgeView {
    pub from: Seq<char>,
    pub to: Seq<char>,
    pub weight: Option<Number>,
}

impl View for GraphEdge {
    type V = EdgeView;

    open spec fn view(&self) -> EdgeView {
        EdgeView { from: self.from@, to: self.to@, weight: self.weight }
    }
}

/// The views of a list of edges.
pub open spec fn edge_views(edges: Seq<GraphEdge>) -> Seq<EdgeView> {
    Seq::new(edges.len(), |i: int| edges[i]@)
}

/// The text of an edge: the node it ends in, then, where it has a weight, a
/// colon and the weight.
pub open spec fn edge_text(e: EdgeView) -> Seq<char> {
    match e.weight {
        Some(w) => e.to + ":"@ + w.text(),
        None => e.to,
    }
}

/// The texts of a list of edges.
pub open spec fn edge_texts(edges: Seq<EdgeView>) -> Seq<Seq<char>> {
    Seq::new(edges.len(), |i: int| edge_text(edges[i]))
}

/// The position of the first edge that ends in `to`.
pub open spec fn index_of_target(edges: Seq<EdgeView>, to: Seq<char>) -> Option<int>
    decreases edges.len(),
{
    if edges.len() == 0 {
        None
    } else {
        match index_of_target(edges.drop_last(), to) {
            Some(i) => Some(i),
            None => if edges.last().to == to {
                Some(edges.len() - 1)
            } else {
                None
            },
        }
    }
}

/// The edges as a node keeps them: of several edges that end in the same
/// node only the last one given is kept, at the place of the first.
pub open spec fn keyed_by_target(edges: Seq<EdgeView>) -> Seq<EdgeView>
    decreases edges.len(),
{
    if edges.len() == 0 {
        Seq::<EdgeView>::empty()
    } else {
        let kept = keyed_by_target(edges.drop_last());
        match index_of_target(kept, edges.last().to) {
            Some(i) => kept.update(i, edges.last()),
            None => kept.push(edges.last()),
        }
    }
}

/// No two of the edges end in the same node.
pub open spec fn distinct_targets(edges: Seq<EdgeView>) -> bool {
    forall|i: int, j: int|
        0 <= i < j < edges.len() ==> (#[trigger] edges[i]).to != (#[trigger] edges[j]).to
}

/// Where `index_of_target` finds an edge, it ends in the node asked for and no
/// edge before it does; where it finds none, no edge does.
pub proof fn lemma_index_of_target(edges: Seq<EdgeView>, to: Seq<char>)
    ensures
        match index_of_target(edges, to) {
            Some(i) => 0 <= i < edges.len() && edges[i].to == to && forall|j: int|
                0 <= j < i ==> (#[trigger] edges[j]).to != to,
            None => forall|j: int| 0 <= j < edges.len() ==> (#[trigger] edges[j]).to != to,
        },
    decreases edges.len(),
{
    if edges.len() > 0 {
        lemma_index_of_target(edges.drop_last(), to);
        assert(forall|j: int| 0 <= j < edges.len() - 1 ==> edges.drop_last()[j] == edges[j]);
    }
}

/// A node keeps at most one edge to each node.
pub proof fn lemma_keyed_by_target_distinct(edges: Seq<EdgeView>)
    ensures
        distinct_targets(keyed_by_target(edges)),
    decreases edges.len(),
{
    if edges.len() > 0 {
        let kept = keyed_by_target(edges.drop_last());
        lemma_keyed_by_target_distinct(edges.drop_last());
        lemma_index_of_target(kept, edges.last().to);
    }
}

impl GraphEdge {
    pub fn new(from: String, to: String, weight: Option<Number>) -> (r: GraphEdge)
        ensures
            r@ == (EdgeView { from: from@, to: to@, weight }),
    {
        GraphEdge { from, to, weight }
    }

    /// A copy of the edge.
    pub fn duplicate(&self) -> (r: GraphEdge)
        ensures
            r@ == self@,
    {
        GraphEdge { from: self.from.clone(), to: self.to.clone(), weight: self.weight }
    }

    pub fn to_string(&self) -> (r: String)
        ensures
            r@ == edge_text(self@),
    {
        match self.weight {
            Some(w) => {
                let mut out = self.to.clone();
                out.append(":");
                out.append(w.to_string().as_str());
                out
            },
            None => self.to.clone(),
        }
    }
}

impl Clone for GraphEdge {
    fn clone(&self) -> (r: GraphEdge)
        ensures
            r@ == self@,
    {
        self.duplicate()
    }
}

/// A copy of a list of edges.
pub fn duplicate_edges(edges: &Vec<GraphEdge>) -> (r: Vec<GraphEdge>)
    ensures
        edge_views(r@) == edge_views(edges@),
{
    let mut out: Vec<GraphEdge> = Vec::new();
    let mut i: usize = 0;
    while i < edges.len()
        invariant
            i <= edges.len(),
            out.len() == i,
            forall|j: int| 0 <= j < i ==> out[j]@ == edges[j]@,
        decreases edges.len() - i,
    {
        out.push(edges[i].duplicate());
        i = i + 1;
    }
    assert(edge_views(out@) =~= edge_views(edges@));
    out
}

/// The position of the first of `edges` that ends in `to`.
pub fn find_target(edges: &Vec<GraphEdge>, to: &str) -> (r: Option<usize>)
    ensures
        match r {
            Some(i) => index_of_target(edge_views(edges@), to@) == Some(i as int),
            None => index_of_target(edge_views(edges@), to@) is None,
        },
{
    let ghost views = edge_views(edges@);
    let mut found: Option<usize> = None;
    let mut i: usize = 0;
    while i < edges.len()
        invariant
            i <= edges.len(),
            views == edge_views(edges@),
            match found {
                Some(k) => index_of_target(views.take(i as int), to@) == Some(k as int),
                None => index_of_target(views.take(i as int), to@) is None,
            },
        decreases edges.len() - i,
    {
        assert(views.take(i + 1).drop_last() =~= views.take(i as int));
        if found.is_none() && same_text(edges[i].to.as_str(), to) {
            found = Some(i);
        }
        i = i + 1;
    }
    assert(views.take(i as int) =~= views);
    found
}

/// A node of a graph: its name and the edges that leave it.
#[derive(Debug, PartialEq)]
pub struct GraphNode {
    pub name: String,
    pub edges: Vec<GraphEdge>,
}

/// A node as a mathematical value.
pub struct NodeView {
    pub name: Seq<char>,
    pub edges: Seq<EdgeView>,
}

impl View for GraphNode {
    type V = NodeView;

    open spec fn view(&self) -> NodeView {
        NodeView { name: self.name@, edges: edge_views(self.edges@) }
    }
}

/// The views of a list of nodes.
pub open spec fn node_views(nodes: Seq<GraphNode>) -> Seq<NodeView> {
    Seq::new(nodes.len(), |i: int| nodes[i]@)
}

/// The text of a node: its name, a colon, and its edges in curly brackets.
pub open spec fn node_text(n: NodeView) -> Seq<char> {
    n.name + ": {"@ + join_text(edge_texts(n.edges), ", "@) + "}"@
}

/// The texts of a list of nodes.
pub open spec fn node_texts(nodes: Seq<NodeView>) -> Seq<Seq<char>> {
    Seq::new(nodes.len(), |i: int| node_text(nodes[i]))
}

impl NodeView {
    /// Every edge of the node starts at the node.
    pub open spec fn owns_its_edges(self) -> bool {
        forall|i: int| 0 <= i < self.edges.len() ==> (#[trigger] self.edges[i]).from == self.name
    }
}

impl GraphNode {
    /// The node `name` with the given edges. Of several edges that end in
    /// the same node the last one is kept.
    pub fn new(name: String, edges: Vec<GraphEdge>) -> (r: GraphNode)
        ensures
            r@ == (NodeView { name: name@, edges: keyed_by_target(edge_views(edges@)) }),
            distinct_targets(r@.edges),
    {
        let ghost views = edge_views(edges@);
        let mut kept: Vec<GraphEdge> = Vec::new();
        let mut i: usize = 0;
        assert(edge_views(kept@) =~= keyed_by_target(views.take(0)));
        while i < edges.len()
            invariant
                i <= edges.len(),
                views == edge_views(edges@),
                edge_views(kept@) == keyed_by_target(views.take(i as int)),
            decreases edges.len() - i,
        {
            let ghost before = edge_views(kept@);
            proof {
                assert(views.take(i + 1).drop_last() =~= views.take(i as int));
                lemma_index_of_target(before, edges[i as int]@.to);
            }
            let edge = edges[i].duplicate();
            match find_target(&kept, edge.to.as_str()) {
                Some(k) => {
                    kept.set(k, edge);
                    assert(edge_views(kept@) =~= before.update(k as int, edges[i as int]@));
                },
                None => {
                    kept.push(edge);
                    assert(edge_views(kept@) =~= before.push(edges[i as int]@));
                },
            }
            i = i + 1;
        }
        proof {
            assert(views.take(i as int) =~= views);
            lemma_keyed_by_target_distinct(views);
        }
        GraphNode { name, edges: kept }
    }

    /// A copy of the node.
    pub fn duplicate(&self) -> (r: GraphNode)
        ensures
            r@ == self@,
    {
        GraphNode { name: self.name.clone(), edges: duplicate_edges(&self.edges) }
    }

    pub fn get_name(&self) -> (r: &String)
        ensures
            r@ == self@.name,
    {
        &self.name
    }

    /// The edges that leave the node.
    pub fn to_edges(&self) -> (r: Vec<GraphEdge>)
        ensures
            edge_views(r@) == self@.edges,
    {
        duplicate_edges(&self.edges)
    }

    pub fn to_string(&self) -> (r: String)
        ensures
            r@ == node_text(self@),
    {
        let mut parts: Vec<String> = Vec::new();
        let mut i: usize = 0;
        while i < self.edges.len()
            invariant
                i <= self.edges.len(),
                parts.len() == i,
                forall|j: int| 0 <= j < i ==> parts[j]@ == edge_text(self.edges[j]@),
            decreases self.edges.len() - i,
        {
            parts.push(self.edges[i].to_string());
            i = i + 1;
        }
        assert(parts.deep_view() =~= edge_texts(self@.edges));
        let mut out = self.name.clone();
        out.append(": {");
        out.append(join(&parts, ", ").as_str());
        out.append("}");
        out
    }
}

impl Clone for GraphNode {
    fn clone(&self) -> (r: GraphNode)
        ensures
            r@ == self@,
    {
        self.duplicate()
    }
}

/// A copy of a list of nodes.
pub fn duplicate_nodes(nodes: &Vec<GraphNode>) -> (r: Vec<GraphNode>)
    ensures
        node_views(r@) == node_views(nodes@),
{
    let mut out: Vec<GraphNode> = Vec::new();
    let mut i: usize = 0;
    while i < nodes.len()
        invariant
            i <= nodes.len(),
            out.len() == i,
            forall|j: int| 0 <= j < i ==> out[j]@ == nodes[j]@,
        decreases nodes.len() - i,
    {
        out.push(nodes[i].duplicate());
        i = i + 1;
    }
    assert(node_views(out@) =~= node_views(nodes@));
    out
}

/// A graph: its nodes, in the order in which they were given.
#[derive(Debug, PartialEq)]
pub struct Graph {
    pub vertices: Vec<GraphNode>,
}

/// A graph as a mathematical value.
pub struct GraphView {
    pub vertices: Seq<NodeView>,
}

impl View for Graph {
    type V = GraphView;

    open spec fn view(&self) -> GraphView {
        GraphView { vertices: node_views(self.vertices@) }
    }
}

/// The views of a list of graphs.
pub open spec fn graph_views(graphs: Seq<Graph>) -> Seq<GraphView> {
    Seq::new(graphs.len(), |i: int| graphs[i]@)
}

/// The edges of all the nodes, node by node.
pub open spec fn all_edges(nodes: Seq<NodeView>) -> Seq<EdgeView>
    decreases nodes.len(),
{
    if nodes.len() == 0 {
        Seq::<EdgeView>::empty()
    } else {
        all_edges(nodes.drop_last()) + nodes.last().edges
    }
}

/// The position of the first node called `name`.
pub open spec fn index_of_node(nodes: Seq<NodeView>, name: Seq<char>) -> Option<int>
    decreases nodes.len(),
{
    if nodes.len() == 0 {
        None
    } else {
        match index_of_node(nodes.drop_last(), name) {
            Some(i) => Some(i),
            None => if nodes.last().name == name {
                Some(nodes.len() - 1)
            } else {
                None
            },
        }
    }
}

/// The text of a graph: its nodes in square brackets, one to a line.
pub open spec fn graph_text(g: GraphView) -> Seq<char> {
    "["@ + join_text(node_texts(g.vertices), "\n"@) + "]"@
}

/// The message of the error for a node that a graph does not have.
pub open spec fn node_not_found_text(name: Seq<char>) -> Seq<char> {
    "node "@ + name + " not found in graph"@
}

impl GraphView {
    /// All the edges of the graph.
    pub open spec fn edges(self) -> Seq<EdgeView> {
        all_edges(self.vertices)
    }

    /// Every edge of the graph starts at the node that holds it.
    pub open spec fn well_formed(self) -> bool {
        forall|i: int| 0 <= i < self.vertices.len() ==> (#[trigger] self.vertices[i]).owns_its_edges()
    }

    /// The edges that leave the first node called `name`, if there is one.
    pub open spec fn neighbours_of(self, name: Seq<char>) -> Option<Seq<EdgeView>> {
        match index_of_node(self.vertices, name) {
            Some(i) => Some(self.vertices[i].edges),
            None => None,
        }
    }
}

/// Where `index_of_node` finds a node, it has the name asked for; where it
/// finds none, no node has.
pub proof fn lemma_index_of_node(nodes: Seq<NodeView>, name: Seq<char>)
    ensures
        match index_of_node(nodes, name) {
            Some(i) => 0 <= i < nodes.len() && nodes[i].name == name && forall|j: int|
                0 <= j < i ==> (#[trigger] nodes[j]).name != name,
            None => forall|j: int| 0 <= j < nodes.len() ==> (#[trigger] nodes[j]).name != name,
        },
    decreases nodes.len(),
{
    if nodes.len() > 0 {
        lemma_index_of_node(nodes.drop_last(), name);
        assert(forall|j: int| 0 <= j < nodes.len() - 1 ==> nodes.drop_last()[j] == nodes[j]);
    }
}

/// Every edge of every node is among all the edges.
pub proof fn lemma_all_edges_contains(nodes: Seq<NodeView>, i: int, k: int)
    requires
        0 <= i < nodes.len(),
        0 <= k < nodes[i].edges.len(),
    ensures
        all_edges(nodes).contains(nodes[i].edges[k]),
    decreases nodes.len(),
{
    let head = all_edges(nodes.drop_last());
    if i == nodes.len() - 1 {
        assert(all_edges(nodes)[head.len() + k] == nodes[i].edges[k]);
    } else {
        lemma_all_edges_contains(nodes.drop_last(), i, k);
        let at = choose|at: int| 0 <= at < head.len() && head[at] == nodes[i].edges[k];
        assert(all_edges(nodes)[at] == nodes[i].edges[k]);
    }
}

/// The neighbours of a node are edges of the graph, and in a graph whose
/// nodes hold only their own edges each of them starts at that node.
pub proof fn lemma_neighbours_are_edges_from_node(g: GraphView, name: Seq<char>, k: int)
    requires
        g.neighbours_of(name) is Some,
        0 <= k < g.neighbours_of(name)->Some_0.len(),
    ensures
        g.edges().contains(g.neighbours_of(name)->Some_0[k]),
        g.well_formed() ==> g.neighbours_of(name)->Some_0[k].from == name,
{
    lemma_index_of_node(g.vertices, name);
    let i = index_of_node(g.vertices, name)->Some_0;
    lemma_all_edges_contains(g.vertices, i, k);
    if g.well_formed() {
        assert(g.vertices[i].owns_its_edges());
    }
}

impl Graph {
    pub fn new(vertices: Vec<GraphNode>) -> (r: Graph)
        ensures
            r@ == (GraphView { vertices: node_views(vertices@) }),
    {
        Graph { vertices }
    }

    /// A copy of the graph.
    pub fn duplicate(&self) -> (r: Graph)
        ensures
            r@ == self@,
    {
        Graph { vertices: duplicate_nodes(&self.vertices) }
    }

    /// All the edges of the graph, node by node.
    pub fn edges(&self) -> (r: Vec<GraphEdge>)
        ensures
            edge_views(r@) == self@.edges(),
    {
        let ghost nodes = node_views(self.vertices@);
        let mut out: Vec<GraphEdge> = Vec::new();
        let mut i: usize = 0;
        assert(edge_views(out@) =~= all_edges(nodes.take(0)));
        while i < self.vertices.len()
            invariant
                i <= self.vertices.len(),
                nodes == node_views(self.vertices@),
                edge_views(out@) == all_edges(nodes.take(i as int)),
            decreases self.vertices.len() - i,
        {
            let ghost before = edge_views(out@);
            let node = &self.vertices[i];
            let mut k: usize = 0;
            while k < node.edges.len()
                invariant
                    k <= node.edges.len(),
                    edge_views(out@) == before + node@.edges.take(k as int),
                decreases node.edges.len() - k,
            {
                let ghost inner = edge_views(out@);
                out.push(node.edges[k].duplicate());
                assert(edge_views(out@) =~= inner.push(node.edges[k as int]@));
                assert(node@.edges.take(k + 1) =~= node@.edges.take(k as int).push(
                    node.edges[k as int]@,
                ));
                k = k + 1;
            }
            proof {
                assert(node@.edges.take(k as int) =~= node@.edges);
                assert(nodes.take(i + 1).drop_last() =~= nodes.take(i as int));
            }
            i = i + 1;
        }
        assert(nodes.take(i as int) =~= nodes);
        out
    }

    /// All the edges of the graph, node by node.
    pub fn to_edges(&self) -> (r: Vec<GraphEdge>)
        ensures
            edge_views(r@) == self@.edges(),
    {
        self.edges()
    }

    pub fn vertices(&self) -> (r: &Vec<GraphNode>)
        ensures
            node_views(r@) == self@.vertices,
    {
        &self.vertices
    }

    /// The nodes of the graph.
    pub fn to_nodes(&self) -> (r: Vec<GraphNode>)
        ensures
            node_views(r@) == self@.vertices,
    {
        duplicate_nodes(&self.vertices)
    }

    /// The position of the first node called `name`.
    pub fn find_node(&self, name: &str) -> (r: Option<usize>)
        ensures
            match r {
                Some(i) => index_of_node(self@.vertices, name@) == Some(i as int),
                None => index_of_node(self@.vertices, name@) is None,
            },
    {
        let ghost nodes = node_views(self.vertices@);
        let mut found: Option<usize> = None;
        let mut i: usize = 0;
        while i < self.vertices.len()
            invariant
                i <= self.vertices.len(),
                nodes == node_views(self.vertices@),
                match found {
                    Some(k) => index_of_node(nodes.take(i as int), name@) == Some(k as int),
                    None => index_of_node(nodes.take(i as int), name@) is None,
                },
            decreases self.vertices.len() - i,
        {
            assert(nodes.take(i + 1).drop_last() =~= nodes.take(i as int));
            if found.is_none() && same_text(self.vertices[i].name.as_str(), name) {
                found = Some(i);
            }
            i = i + 1;
        }
        assert(nodes.take(i as int) =~= nodes);
        found
    }

    /// The edges that leave the first node called `node_name`; the error
    /// `NotFound` where the graph has no node of that name.
    pub fn neighbour_of(&self, node_name: &str) -> (r: Result<Vec<GraphEdge>, TransformError>)
        ensures
            match r {
                Ok(edges) => self@.neighbours_of(node_name@) == Some(edge_views(edges@)),
                Err(e) => self@.neighbours_of(node_name@) is None && e@ == ErrorView::NotFound(
                    node_not_found_text(node_name@),
                ),
            },
    {
        match self.find_node(node_name) {
            Some(i) => {
                proof {
                    lemma_index_of_node(self@.vertices, node_name@);
                }
                Ok(self.vertices[i].to_edges())
            },
            None => {
                let mut message = owned("node ");
                message.append(node_name);
                message.append(" not found in graph");
                Err(TransformError::NotFound(message))
            },
        }
    }

    /// The edges that leave the first node called `node_name`.
    pub fn into_neighbours_of(&self, node_name: &str) -> (r: Result<Vec<GraphEdge>, TransformError>)
        ensures
            match r {
                Ok(edges) => self@.neighbours_of(node_name@) == Some(edge_views(edges@)),
                Err(e) => self@.neighbours_of(node_name@) is None && e@ == ErrorView::NotFound(
                    node_not_found_text(node_name@),
                ),
            },
    {
        self.neighbour_of(node_name)
    }

    pub fn to_string(&self) -> (r: String)
        ensures
            r@ == graph_text(self@),
    {
        let mut parts: Vec<String> = Vec::new();
        let mut i: usize = 0;
        while i < self.vertices.len()
            invariant
                i <= self.vertices.len(),
                parts.len() == i,
                forall|j: int| 0 <= j < i ==> parts[j]@ == node_text(self.vertices[j]@),
            decreases self.vertices.len() - i,
        {
            parts.push(self.vertices[i].to_string());
            i = i + 1;
        }
        assert(parts.deep_view() =~= node_texts(self@.vertices));
        let mut out = owned("[");
        out.append(join(&parts, "\n").as_str());
        out.append("]");
        out
    }
}

impl Clone for Graph {
    fn clone(&self) -> (r: Graph)
        ensures
            r@ == self@,
    {
        self.duplicate()
    }
}

} // verus!
