//! The text of the tree of a model, as it would be written in the language.
use vstd::prelude::*;
use vstd::string::*;
use crate::parser::evaluator::{
    lemma_size_exps_member, size_call, size_exp, size_exps, size_parameter, size_sets,
};
use crate::parser::pre_exp::{
    AddressableAccess, BlockFunction, BlockScopedFunction, BuiltinFunction, EdgesOfGraphFn,
    EnumerateArray, IterableSet, LenOfIterableFn, NeighbourOfNodeFn, NeighboursOfNodeInGraphFn,
    NodesOfGraphFn, NumericRange, Parameter, PreExp,
};
use crate::text::{join, join_text, owned};

verus! {

/// The texts of the expressions of a list.
pub open spec fn pre_exp_texts(items: Seq<PreExp>) -> Seq<Seq<char>>
    decreases size_exps(items, 0), 3nat,
{
    Seq::new(
        items.len(),
        |i: int|
            if 0 <= i < items.len() {
                proof {
                    lemma_size_exps_member(items, 0, i);
                }
                pre_exp_text(items[i])
            } else {
                Seq::<char>::empty()
            },
    )
}

/// The accesses of a list, each in square brackets.
pub open spec fn access_texts(items: Seq<PreExp>) -> Seq<Seq<char>>
    decreases size_exps(items, 0), 3nat,
{
    Seq::new(
        items.len(),
        |i: int|
            if 0 <= i < items.len() {
                proof {
                    lemma_size_exps_member(items, 0, i);
                }
                "["@ + pre_exp_text(items[i]) + "]"@
            } else {
                Seq::<char>::empty()
            },
    )
}

/// No iteration set of a list is larger than the list.
pub proof fn lemma_size_sets_member(items: Seq<IterableSet>, from: int, i: int)
    requires
        0 <= from <= i < items.len(),
    ensures
        1 + size_exp(items[i].iterator.value) + size_sets(items, i + 1) <= size_sets(items, from),
    decreases i - from,
{
    if from < i {
        lemma_size_sets_member(items, from + 1, i);
    }
}

/// The texts of the iteration sets of a list.
pub open spec fn set_texts(items: Seq<IterableSet>) -> Seq<Seq<char>>
    decreases size_sets(items, 0), 3nat,
{
    Seq::new(
        items.len(),
        |i: int|
            if 0 <= i < items.len() {
                proof {
                    lemma_size_sets_member(items, 0, i);
                }
                set_text(items[i])
            } else {
                Seq::<char>::empty()
            },
    )
}

/// The text of an iteration set: its names, `in`, and its producer.
pub open spec fn set_text(set: IterableSet) -> Seq<char>
    decreases 1 + size_exp(set.iterator.value), 0nat,
{
    set.var.text() + " in "@ + pre_exp_text(set.iterator.value)
}

/// The text of an access: the name and each index in square brackets.
pub open spec fn access_text(a: AddressableAccess) -> Seq<char>
    decreases size_exps(a.accesses@, 0), 4nat,
{
    a.name@ + join_text(access_texts(a.accesses@), Seq::<char>::empty())
}

/// The text of an argument of a built-in function.
pub open spec fn parameter_text(p: Parameter) -> Seq<char>
    decreases size_parameter(p), 0nat,
{
    match p {
        Parameter::Number(n) => n.text(),
        Parameter::String(s) => "\""@ + s@ + "\""@,
        Parameter::Variable(s) => s@,
        Parameter::CompoundVariable(c) => c.text(),
        Parameter::ArrayAccess(a) => access_text(a),
        Parameter::FunctionCall(f) => call_text(*f),
    }
}

/// The text of a call of a built-in function.
pub open spec fn call_text(f: BuiltinFunction) -> Seq<char>
    decreases size_call(f), 0nat,
{
    match f {
        BuiltinFunction::Edges(x) => "edges"@ + "("@ + parameter_text(x.of_graph) + ")"@,
        BuiltinFunction::Nodes(x) => "nodes"@ + "("@ + parameter_text(x.of_graph) + ")"@,
        BuiltinFunction::NeighbourEdges(x) => "neigh_edges"@ + "("@ + parameter_text(x.of_node) + ")"@,
        BuiltinFunction::NeighboursOf(x) => "neighs_of"@ + "("@ + parameter_text(x.of_node) + ","@
            + parameter_text(x.in_graph) + ")"@,
        BuiltinFunction::Len(x) => "len"@ + "("@ + parameter_text(x.of_iterable) + ")"@,
        BuiltinFunction::Enumerate(x) => "enumerate"@ + "("@ + parameter_text(x.array) + ")"@,
        BuiltinFunction::Range(x) => parameter_text(x.from) + ".."@ + parameter_text(x.to),
    }
}

/// The text of an expression, written so that it reads back as the same
/// tree. The left side of an operation stands in round brackets where it
/// binds looser than the operation, the right side where it does not bind
/// tighter, and what a negation negates where it is an operation on two
/// expressions.
pub open spec fn pre_exp_text(e: PreExp) -> Seq<char>
    decreases size_exp(e), 0nat,
{
    match e {
        PreExp::Number(n) => n.value.text(),
        PreExp::Variable(name) => name.value@,
        PreExp::CompoundVariable(c) => c.value.text(),
        PreExp::ArrayAccess(a) => access_text(a.value),
        PreExp::FunctionCall(_, f) => call_text(f),
        PreExp::BinaryOperation(op, l, r) => pre_exp_text_within(*l, op.value.precedence_spec())
            + " "@ + op.value.text() + " "@ + pre_exp_text_within(
            *r,
            (op.value.precedence_spec() + 1) as u8,
        ),
        PreExp::UnaryOperation(op, x) => if *x is BinaryOperation {
            op.value.text() + "("@ + pre_exp_text(*x) + ")"@
        } else {
            op.value.text() + pre_exp_text(*x)
        },
        PreExp::Mod(_, x) => "|"@ + pre_exp_text(*x) + "|"@,
        PreExp::BlockFunction(f) => f.value.kind.text() + " { "@ + join_text(
            pre_exp_texts(f.value.exps@),
            ", "@,
        ) + " }"@,
        PreExp::BlockScopedFunction(f) => f.value.kind.text() + "("@ + join_text(
            set_texts(f.value.iters@),
            ", "@,
        ) + ") { "@ + pre_exp_text(*f.value.exp) + " }"@,
    }
}

/// The text of an expression that is a side of an operation of the
/// precedence `outer`.
pub open spec fn pre_exp_text_within(e: PreExp, outer: u8) -> Seq<char>
    decreases size_exp(e), 1nat,
{
    match e {
        PreExp::BinaryOperation(op, _, _) => if op.value.precedence_spec() < outer {
            "("@ + pre_exp_text(e) + ")"@
        } else {
            pre_exp_text(e)
        },
        _ => pre_exp_text(e),
    }
}

/// The text of a function over iteration sets.
pub open spec fn block_scoped_text(f: BlockScopedFunction) -> Seq<char> {
    f.kind.text() + "("@ + join_text(set_texts(f.iters@), ", "@) + ") { "@ + pre_exp_text(*f.exp)
        + " }"@
}

/// The text of a function over a list of expressions.
pub open spec fn block_text(f: BlockFunction) -> Seq<char> {
    f.kind.text() + " { "@ + join_text(pre_exp_texts(f.exps@), ", "@) + " }"@
}

/// The texts of the expressions of a list.
fn texts_of(items: &Vec<PreExp>) -> (r: Vec<String>)
    ensures
        r.deep_view() == pre_exp_texts(items@),
    decreases size_exps(items@, 0), 3nat,
{
    let mut parts: Vec<String> = Vec::new();
    let mut i: usize = 0;
    while i < items.len()
        invariant
            i <= items.len(),
            parts.len() == i,
            forall|j: int| 0 <= j < i ==> parts[j]@ == pre_exp_text(items[j]),
        decreases items.len() - i,
    {
        proof {
            lemma_size_exps_member(items@, 0, i as int);
        }
        parts.push(items[i].to_string());
        i = i + 1;
    }
    assert(parts.deep_view() =~= pre_exp_texts(items@));
    parts
}

/// The accesses of a list, each in square brackets.
fn accesses_of(items: &Vec<PreExp>) -> (r: Vec<String>)
    ensures
        r.deep_view() == access_texts(items@),
    decreases size_exps(items@, 0), 3nat,
{
    let mut parts: Vec<String> = Vec::new();
    let mut i: usize = 0;
    while i < items.len()
        invariant
            i <= items.len(),
            parts.len() == i,
            forall|j: int| 0 <= j < i ==> parts[j]@ == "["@ + pre_exp_text(items[j]) + "]"@,
        decreases items.len() - i,
    {
        proof {
            lemma_size_exps_member(items@, 0, i as int);
        }
        let mut part = owned("[");
        part.append(items[i].to_string().as_str());
        part.append("]");
        parts.push(part);
        i = i + 1;
    }
    assert(parts.deep_view() =~= access_texts(items@));
    parts
}

/// The texts of the iteration sets of a list.
fn sets_of(items: &Vec<IterableSet>) -> (r: Vec<String>)
    ensures
        r.deep_view() == set_texts(items@),
    decreases size_sets(items@, 0), 3nat,
{
    let mut parts: Vec<String> = Vec::new();
    let mut i: usize = 0;
    while i < items.len()
        invariant
            i <= items.len(),
            parts.len() == i,
            forall|j: int| 0 <= j < i ==> parts[j]@ == set_text(items[j]),
        decreases items.len() - i,
    {
        proof {
            lemma_size_sets_member(items@, 0, i as int);
        }
        parts.push(items[i].to_string());
        i = i + 1;
    }
    assert(parts.deep_view() =~= set_texts(items@));
    parts
}

impl IterableSet {
    pub fn to_string(&self) -> (r: String)
        ensures
            r@ == set_text(*self),
        decreases 1 + size_exp(self.iterator.value), 0nat,
    {
        let mut out = self.var.to_string();
        out.append(" in ");
        out.append(self.iterator.value.to_string().as_str());
        out
    }
}

impl AddressableAccess {
    pub fn to_string(&self) -> (r: String)
        ensures
            r@ == access_text(*self),
        decreases size_exps(self.accesses@, 0), 4nat,
    {
        let parts = accesses_of(&self.accesses);
        assert(""@ =~= Seq::<char>::empty()) by {
            reveal_strlit("");
        }
        let mut out = self.name.clone();
        out.append(join(&parts, "").as_str());
        out
    }
}

impl Parameter {
    pub fn to_string(&self) -> (r: String)
        ensures
            r@ == parameter_text(*self),
        decreases size_parameter(*self), 0nat,
    {
        match self {
            Parameter::Number(n) => n.to_string(),
            Parameter::String(s) => {
                let mut out = owned("\"");
                out.append(s.as_str());
                out.append("\"");
                out
            },
            Parameter::Variable(s) => s.clone(),
            Parameter::CompoundVariable(c) => c.to_string(),
            Parameter::ArrayAccess(a) => a.to_string(),
            Parameter::FunctionCall(f) => f.to_string(),
        }
    }
}

/// `name`, and `inner` in round brackets.
fn applied(name: &str, inner: String) -> (r: String)
    ensures
        r@ == name@ + "("@ + inner@ + ")"@,
{
    let mut out = owned(name);
    out.append("(");
    out.append(inner.as_str());
    out.append(")");
    out
}

impl EdgesOfGraphFn {
    pub fn to_string(&self) -> (r: String)
        ensures
            r@ == call_text(BuiltinFunction::Edges(*self)),
        decreases size_parameter(self.of_graph), 1nat,
    {
        applied("edges", self.of_graph.to_string())
    }
}

impl NodesOfGraphFn {
    pub fn to_string(&self) -> (r: String)
        ensures
            r@ == call_text(BuiltinFunction::Nodes(*self)),
        decreases size_parameter(self.of_graph), 1nat,
    {
        applied("nodes", self.of_graph.to_string())
    }
}

impl NeighbourOfNodeFn {
    pub fn to_string(&self) -> (r: String)
        ensures
            r@ == call_text(BuiltinFunction::NeighbourEdges(*self)),
        decreases size_parameter(self.of_node), 1nat,
    {
        applied("neigh_edges", self.of_node.to_string())
    }
}

impl NeighboursOfNodeInGraphFn {
    pub fn to_string(&self) -> (r: String)
        ensures
            r@ == call_text(BuiltinFunction::NeighboursOf(*self)),
        decreases size_parameter(self.of_node) + size_parameter(self.in_graph), 1nat,
    {
        let mut inner = self.of_node.to_string();
        inner.append(",");
        inner.append(self.in_graph.to_string().as_str());
        applied("neighs_of", inner)
    }
}

impl LenOfIterableFn {
    pub fn to_string(&self) -> (r: String)
        ensures
            r@ == call_text(BuiltinFunction::Len(*self)),
        decreases size_parameter(self.of_iterable), 1nat,
    {
        applied("len", self.of_iterable.to_string())
    }
}

impl EnumerateArray {
    pub fn to_string(&self) -> (r: String)
        ensures
            r@ == call_text(BuiltinFunction::Enumerate(*self)),
        decreases size_parameter(self.array), 1nat,
    {
        applied("enumerate", self.array.to_string())
    }
}

impl NumericRange {
    pub fn to_string(&self) -> (r: String)
        ensures
            r@ == call_text(BuiltinFunction::Range(*self)),
        decreases size_parameter(self.from) + size_parameter(self.to), 1nat,
    {
        let mut out = self.from.to_string();
        out.append("..");
        out.append(self.to.to_string().as_str());
        out
    }
}

impl BuiltinFunction {
    pub fn to_string(&self) -> (r: String)
        ensures
            r@ == call_text(*self),
        decreases size_call(*self), 0nat,
    {
        match self {
            BuiltinFunction::Edges(f) => f.to_string(),
            BuiltinFunction::Nodes(f) => f.to_string(),
            BuiltinFunction::NeighbourEdges(f) => f.to_string(),
            BuiltinFunction::NeighboursOf(f) => f.to_string(),
            BuiltinFunction::Len(f) => f.to_string(),
            BuiltinFunction::Enumerate(f) => f.to_string(),
            BuiltinFunction::Range(f) => f.to_string(),
        }
    }
}

impl PreExp {
    pub fn to_string(&self) -> (r: String)
        ensures
            r@ == pre_exp_text(*self),
        decreases size_exp(*self), 0nat,
    {
        match self {
            PreExp::Number(n) => n.value.to_string(),
            PreExp::Variable(name) => name.value.clone(),
            PreExp::CompoundVariable(c) => c.value.to_string(),
            PreExp::ArrayAccess(a) => a.value.to_string(),
            PreExp::FunctionCall(_, f) => f.to_string(),
            PreExp::BinaryOperation(op, l, r) => {
                let precedence = op.value.precedence();
                let mut out = l.to_string_with_precedence(precedence);
                out.append(" ");
                out.append(op.value.to_string().as_str());
                out.append(" ");
                out.append(r.to_string_with_precedence(precedence + 1).as_str());
                out
            },
            PreExp::UnaryOperation(op, x) => {
                let mut out = op.value.to_string();
                if matches!(**x, PreExp::BinaryOperation(_, _, _)) {
                    out.append("(");
                    out.append(x.to_string().as_str());
                    out.append(")");
                } else {
                    out.append(x.to_string().as_str());
                }
                out
            },
            PreExp::Mod(_, x) => {
                let mut out = owned("|");
                out.append(x.to_string().as_str());
                out.append("|");
                out
            },
            PreExp::BlockFunction(f) => {
                let parts = texts_of(&f.value.exps);
                let mut out = f.value.kind.to_string();
                out.append(" { ");
                out.append(join(&parts, ", ").as_str());
                out.append(" }");
                out
            },
            PreExp::BlockScopedFunction(f) => {
                let sets = sets_of(&f.value.iters);
                let mut out = f.value.kind.to_string();
                out.append("(");
                out.append(join(&sets, ", ").as_str());
                out.append(") { ");
                out.append(f.value.exp.to_string().as_str());
                out.append(" }");
                out
            },
        }
    }

    /// The text of the expression as a side of an operation of the precedence
    /// `last_precedence`.
    pub fn to_string_with_precedence(&self, last_precedence: u8) -> (r: String)
        ensures
            r@ == pre_exp_text_within(*self, last_precedence),
        decreases size_exp(*self), 1nat,
    {
        match self {
            PreExp::BinaryOperation(op, _, _) => {
                if op.value.precedence() < last_precedence {
                    let mut out = owned("(");
                    out.append(self.to_string().as_str());
                    out.append(")");
                    out
                } else {
                    self.to_string()
                }
            },
            _ => self.to_string(),
        }
    }
}

impl BlockScopedFunction {
    pub fn to_string(&self) -> (r: String)
        ensures
            r@ == block_scoped_text(*self),
    {
        let sets = sets_of(&self.iters);
        let mut out = self.kind.to_string();
        out.append("(");
        out.append(join(&sets, ", ").as_str());
        out.append(") { ");
        out.append(self.exp.to_string().as_str());
        out.append(" }");
        out
    }
}

impl BlockFunction {
    pub fn to_string(&self) -> (r: String)
        ensures
            r@ == block_text(*self),
    {
        let parts = texts_of(&self.exps);
        let mut out = self.kind.to_string();
        out.append(" { ");
        out.append(join(&parts, ", ").as_str());
        out.append(" }");
        out
    }
}

} // verus!
