//! The scopes in which a model is expanded, and the expanded model.
//!
//! A [`TransformerContext`] is a stack of frames. The frame at the bottom
//! holds the constants of the model; a frame is pushed where a block binds
//! names and popped where the block ends. A name stands for what the
//! innermost frame that declares it says.
use vstd::prelude::*;
use vstd::string::*;
use crate::error::{ErrorView, TransformError};
use crate::math::{Comparison, OptimizationType};
use crate::number::Number;
use crate::parser::evaluator::{
    agrees, bodies_of, exp_of, exp_rows, recursive_set_resolver, spanned, unrolled,
};
use crate::parser::exp::{exp_text, Exp, ExpView};
use crate::parser::pre_exp::{Constant, PreCondition, PreObjective, PreProblem};
use crate::parser::frame::{entries_map, Frame};
use crate::primitives::kind::kind_text;
use crate::primitives::primitive::{
    primitive_kind, wrong_argument_text, Primitive, PrimitiveView,
};
use crate::text::{join, join_text, owned, same_text};

verus! {

/// A frame as a mathematical value.
pub type FrameView = Map<Seq<char>, PrimitiveView>;

/// A stack of frames as a mathematical value, the innermost frame last.
pub type ContextView = Seq<FrameView>;

/// The views of a list of frames.
pub open spec fn frame_views<T: View>(frames: Seq<Frame<T>>) -> Seq<Map<Seq<char>, T::V>> {
    Seq::new(frames.len(), |i: int| frames[i]@)
}

/// The place of the innermost frame that declares `name`.
pub open spec fn holder<V>(ctx: Seq<Map<Seq<char>, V>>, name: Seq<char>) -> Option<int>
    decreases ctx.len(),
{
    if ctx.len() == 0 {
        None
    } else if ctx.last().dom().contains(name) {
        Some(ctx.len() - 1)
    } else {
        holder(ctx.drop_last(), name)
    }
}

/// What `name` stands for: what the innermost frame that declares it says.
pub open spec fn lookup<V>(ctx: Seq<Map<Seq<char>, V>>, name: Seq<char>) -> Option<V> {
    match holder(ctx, name) {
        Some(i) => Some(ctx[i][name]),
        None => None,
    }
}

/// The holder of a name is a frame of the stack, it declares the name, and no
/// frame further in does.
pub proof fn lemma_holder<V>(ctx: Seq<Map<Seq<char>, V>>, name: Seq<char>)
    ensures
        match holder(ctx, name) {
            Some(i) => 0 <= i < ctx.len() && ctx[i].dom().contains(name) && forall|j: int|
                i < j < ctx.len() ==> !(#[trigger] ctx[j]).dom().contains(name),
            None => forall|j: int| 0 <= j < ctx.len() ==> !(#[trigger] ctx[j]).dom().contains(name),
        },
    decreases ctx.len(),
{
    if ctx.len() > 0 && !ctx.last().dom().contains(name) {
        lemma_holder(ctx.drop_last(), name);
        assert(forall|j: int| 0 <= j < ctx.len() - 1 ==> ctx.drop_last()[j] == ctx[j]);
    }
}

/// The name that stands for no variable: what is declared under it is thrown
/// away.
pub open spec fn is_sink(name: Seq<char>) -> bool {
    name == "_"@
}

/// The part that a value adds to the name of a compound variable: a number
/// its decimal form, a text itself, a node its name. Other values add none.
pub open spec fn name_part(v: PrimitiveView) -> Option<Seq<char>> {
    match v {
        PrimitiveView::Number(n) => Some(n.text()),
        PrimitiveView::String(s) => Some(s),
        PrimitiveView::GraphNode(n) => Some(n.name),
        _ => None,
    }
}

/// The message for an index of a compound variable that stands for a value
/// with no part to add.
pub open spec fn flattening_text(v: PrimitiveView, name: Seq<char>) -> Seq<char> {
    "Expected a number or string for variable flattening, got "@ + kind_text(primitive_kind(v))
        + ", check the definition of "@ + name
}

/// The parts that the indexes `names`, from `from` on, add to the name of a
/// compound variable; the error of the first index that is not declared or
/// stands for a value with no part to add.
pub open spec fn name_parts(ctx: ContextView, names: Seq<Seq<char>>, from: int) -> Result<
    Seq<Seq<char>>,
    ErrorView,
>
    decreases names.len() - from,
{
    if from < 0 || from >= names.len() {
        Ok(Seq::<Seq<char>>::empty())
    } else {
        match lookup(ctx, names[from]) {
            None => Err(ErrorView::MissingVariable(names[from])),
            Some(v) => match name_part(v) {
                None => Err(ErrorView::WrongArgument(flattening_text(v, names[from]))),
                Some(part) => match name_parts(ctx, names, from + 1) {
                    Ok(rest) => Ok(seq![part] + rest),
                    Err(e) => Err(e),
                },
            },
        }
    }
}

/// The indexes of a compound variable, each replaced by the part that its
/// value adds, joined by `_`.
pub open spec fn flattened_name(ctx: ContextView, names: Seq<Seq<char>>) -> Result<
    Seq<char>,
    ErrorView,
> {
    match name_parts(ctx, names, 0) {
        Ok(parts) => Ok(join_text(parts, "_"@)),
        Err(e) => Err(e),
    }
}

/// The name of the variable that a compound variable stands for: the stem,
/// `_`, and the flattened indexes.
pub open spec fn flattened_compound(ctx: ContextView, stem: Seq<char>, names: Seq<Seq<char>>)
    -> Result<Seq<char>, ErrorView> {
    match flattened_name(ctx, names) {
        Ok(joined) => Ok(stem + "_"@ + joined),
        Err(e) => Err(e),
    }
}

/// The scopes in which a model is expanded.
#[derive(Debug)]
pub struct TransformerContext {
    pub frames: Vec<Frame<Primitive>>,
}

impl View for TransformerContext {
    type V = ContextView;

    open spec fn view(&self) -> ContextView {
        frame_views(self.frames@)
    }
}

impl TransformerContext {
    /// There is a frame at the bottom, and no frame declares a name twice.
    pub open spec fn well_formed(&self) -> bool {
        &&& self.frames.len() >= 1
        &&& forall|i: int| 0 <= i < self.frames.len() ==> (#[trigger] self.frames[i]).well_formed()
    }

    /// The context with the constants `primitives` in its bottom frame. Of
    /// several constants of one name the last counts.
    pub fn new(primitives: Vec<(String, Primitive)>) -> (r: TransformerContext)
        ensures
            r.well_formed(),
            r@ == seq![entries_map(primitives@)],
    {
        let frame = Frame::from_primitives(primitives);
        let mut frames: Vec<Frame<Primitive>> = Vec::new();
        frames.push(frame);
        assert(frame_views(frames@) =~= seq![entries_map(primitives@)]);
        TransformerContext { frames }
    }

    /// How many frames the stack has.
    pub fn depth(&self) -> (r: usize)
        ensures
            r == self@.len(),
    {
        self.frames.len()
    }

    /// Pushes `frame`.
    pub fn add_populated_scope(&mut self, frame: Frame<Primitive>)
        requires
            old(self).well_formed(),
            frame.well_formed(),
        ensures
            final(self).well_formed(),
            final(self)@ == old(self)@.push(frame@),
    {
        self.frames.push(frame);
        assert(self@ =~= old(self)@.push(frame@));
    }

    /// Puts `frame` in the place of the innermost frame.
    pub fn replace_last_frame(&mut self, frame: Frame<Primitive>)
        requires
            old(self).well_formed(),
            frame.well_formed(),
        ensures
            final(self).well_formed(),
            final(self)@ == old(self)@.drop_last().push(frame@),
    {
        self.frames.pop();
        self.frames.push(frame);
        assert(self@ =~= old(self)@.drop_last().push(frame@));
    }

    /// Pushes an empty frame.
    pub fn add_scope(&mut self)
        requires
            old(self).well_formed(),
        ensures
            final(self).well_formed(),
            final(self)@ == old(self)@.push(Map::<Seq<char>, PrimitiveView>::empty()),
    {
        let frame: Frame<Primitive> = Frame::new();
        self.frames.push(frame);
        assert(self@ =~= old(self)@.push(Map::<Seq<char>, PrimitiveView>::empty()));
    }

    /// Pops the innermost frame and hands it back; an error, and the stack as
    /// it was, where only the bottom frame is left.
    pub fn pop_scope(&mut self) -> (r: Result<Frame<Primitive>, TransformError>)
        requires
            old(self).well_formed(),
        ensures
            final(self).well_formed(),
            match r {
                Ok(frame) => old(self)@.len() > 1 && frame.well_formed() && frame@ == old(
                    self,
                )@.last() && final(self)@ == old(self)@.drop_last(),
                Err(e) => old(self)@.len() == 1 && final(self)@ == old(self)@ && e@
                    == ErrorView::Other("Missing frame to pop"@),
            },
    {
        if self.frames.len() <= 1 {
            return Err(TransformError::Other(owned("Missing frame to pop")));
        }
        let frame = self.frames.pop().unwrap();
        assert(self@ =~= old(self)@.drop_last());
        Ok(frame)
    }

    /// The place of the innermost frame that declares `name`.
    pub fn find_holder(&self, name: &str) -> (r: Option<usize>)
        ensures
            match r {
                Some(i) => holder(self@, name@) == Some(i as int) && i < self.frames.len(),
                None => holder(self@, name@) is None,
            },
    {
        let mut i: usize = self.frames.len();
        assert(self@.take(i as int) =~= self@);
        while i > 0
            invariant
                i <= self.frames.len(),
                holder(self@, name@) == holder(self@.take(i as int), name@),
            decreases i,
        {
            let ghost upper = self@.take(i as int);
            assert(upper.last() == self.frames[i - 1]@);
            assert(upper.drop_last() =~= self@.take(i - 1));
            if self.frames[i - 1].has_variable(name) {
                return Some(i - 1);
            }
            i = i - 1;
        }
        None
    }

    /// What `name` stands for, if it is declared.
    pub fn get_value(&self, name: &str) -> (r: Option<&Primitive>)
        requires
            self.well_formed(),
        ensures
            match r {
                Some(v) => lookup(self@, name@) == Some(v@),
                None => lookup(self@, name@) is None,
            },
    {
        proof {
            lemma_holder(self@, name@);
        }
        match self.find_holder(name) {
            Some(i) => {
                assert(self@[i as int] == self.frames[i as int]@);
                self.frames[i].get_value(name)
            },
            None => None,
        }
    }

    /// Whether `name` is declared: in any frame where `strict` is set, in
    /// the innermost frame where it is not.
    pub fn exists_variable(&self, name: &str, strict: bool) -> (r: bool)
        requires
            self.well_formed(),
        ensures
            r == if strict {
                lookup(self@, name@) is Some
            } else {
                self@.last().dom().contains(name@)
            },
    {
        if strict {
            self.find_holder(name).is_some()
        } else {
            self.frames[self.frames.len() - 1].has_variable(name)
        }
    }

    /// Declares `name` in the innermost frame. The name `_` is thrown away.
    /// The error `AlreadyExistingVariable`, and the stack as it was, where
    /// the innermost frame declares the name already, or, with `strict` set,
    /// any frame does.
    pub fn declare_variable(&mut self, name: &str, value: Primitive, strict: bool) -> (r: Result<
        (),
        TransformError,
    >)
        requires
            old(self).well_formed(),
        ensures
            final(self).well_formed(),
            final(self)@.len() == old(self)@.len(),
            match r {
                Ok(_) => if is_sink(name@) {
                    final(self)@ == old(self)@
                } else {
                    &&& !old(self)@.last().dom().contains(name@)
                    &&& strict ==> lookup(old(self)@, name@) is None
                    &&& final(self)@ == old(self)@.update(
                        old(self)@.len() - 1,
                        old(self)@.last().insert(name@, value@),
                    )
                },
                Err(e) => {
                    &&& !is_sink(name@)
                    &&& old(self)@.last().dom().contains(name@) || (strict && lookup(
                        old(self)@,
                        name@,
                    ) is Some)
                    &&& final(self)@ == old(self)@
                    &&& e@ == ErrorView::AlreadyExistingVariable(name@)
                },
            },
    {
        if same_text(name, "_") {
            return Ok(());
        }
        if strict && self.find_holder(name).is_some() {
            return Err(TransformError::AlreadyExistingVariable(name.to_owned()));
        }
        let top = self.frames.len() - 1;
        let mut frame = self.frames.pop().unwrap();
        let result = frame.declare_variable(name, value);
        self.frames.push(frame);
        proof {
            match result {
                Ok(_) => {
                    assert(self@ =~= old(self)@.update(
                        old(self)@.len() - 1,
                        old(self)@.last().insert(name@, value@),
                    ));
                },
                Err(_) => {
                    assert(self@ =~= old(self)@);
                },
            }
            assert forall|i: int| 0 <= i < self.frames.len() implies (
            #[trigger] self.frames[i]).well_formed() by {
                if i < top {
                    assert(self.frames[i] == old(self).frames[i]);
                }
            }
        }
        result
    }

    /// Gives `name` a new value in the innermost frame that declares it. The
    /// name `_` is thrown away. The error `MissingVariable`, and the stack as
    /// it was, where no frame declares the name.
    pub fn update_variable(&mut self, name: &str, value: Primitive) -> (r: Result<
        (),
        TransformError,
    >)
        requires
            old(self).well_formed(),
        ensures
            final(self).well_formed(),
            final(self)@.len() == old(self)@.len(),
            match r {
                Ok(_) => if is_sink(name@) {
                    final(self)@ == old(self)@
                } else {
                    &&& holder(old(self)@, name@) is Some
                    &&& final(self)@ == old(self)@.update(
                        holder(old(self)@, name@)->Some_0,
                        old(self)@[holder(old(self)@, name@)->Some_0].insert(name@, value@),
                    )
                },
                Err(e) => {
                    &&& !is_sink(name@)
                    &&& holder(old(self)@, name@) is None
                    &&& final(self)@ == old(self)@
                    &&& e@ == ErrorView::MissingVariable(name@)
                },
            },
    {
        if same_text(name, "_") {
            return Ok(());
        }
        match self.find_holder(name) {
            Some(i) => {
                proof {
                    lemma_holder(self@, name@);
                }
                let mut frame = self.frames.remove(i);
                let result = frame.update_variable(name, value);
                self.frames.insert(i, frame);
                proof {
                    assert(self@ =~= old(self)@.update(
                        i as int,
                        old(self)@[i as int].insert(name@, value@),
                    ));
                    assert forall|k: int| 0 <= k < self.frames.len() implies (
                    #[trigger] self.frames[k]).well_formed() by {
                        if k != i {
                            assert(self.frames[k] == old(self).frames[k]);
                        }
                    }
                }
                result
            },
            None => Err(TransformError::MissingVariable(name.to_owned())),
        }
    }

    /// Takes `name` out of the innermost frame that declares it and hands
    /// back what it stood for. For the name `_` that is the undefined value.
    /// The error `MissingVariable`, and the stack as it was, where no frame
    /// declares the name.
    pub fn remove_variable(&mut self, name: &str) -> (r: Result<Primitive, TransformError>)
        requires
            old(self).well_formed(),
        ensures
            final(self).well_formed(),
            final(self)@.len() == old(self)@.len(),
            match r {
                Ok(v) => if is_sink(name@) {
                    final(self)@ == old(self)@ && v@ == PrimitiveView::Undefined
                } else {
                    &&& lookup(old(self)@, name@) == Some(v@)
                    &&& final(self)@ == old(self)@.update(
                        holder(old(self)@, name@)->Some_0,
                        old(self)@[holder(old(self)@, name@)->Some_0].remove(name@),
                    )
                },
                Err(e) => {
                    &&& !is_sink(name@)
                    &&& holder(old(self)@, name@) is None
                    &&& final(self)@ == old(self)@
                    &&& e@ == ErrorView::MissingVariable(name@)
                },
            },
    {
        if same_text(name, "_") {
            return Ok(Primitive::Undefined);
        }
        match self.find_holder(name) {
            Some(i) => {
                proof {
                    lemma_holder(self@, name@);
                }
                let mut frame = self.frames.remove(i);
                let result = frame.drop_variable(name);
                self.frames.insert(i, frame);
                proof {
                    assert(self@ =~= old(self)@.update(
                        i as int,
                        old(self)@[i as int].remove(name@),
                    ));
                    assert forall|k: int| 0 <= k < self.frames.len() implies (
                    #[trigger] self.frames[k]).well_formed() by {
                        if k != i {
                            assert(self.frames[k] == old(self).frames[k]);
                        }
                    }
                }
                result
            },
            None => Err(TransformError::MissingVariable(name.to_owned())),
        }
    }

    /// The indexes of a compound variable, each replaced by the part that its
    /// value adds to the name, joined by `_`.
    pub fn flatten_variable_name(&self, compound_name: &[String]) -> (r: Result<
        String,
        TransformError,
    >)
        requires
            self.well_formed(),
        ensures
            match r {
                Ok(s) => flattened_name(self@, compound_name.deep_view()) == Ok::<
                    Seq<char>,
                    ErrorView,
                >(s@),
                Err(e) => flattened_name(self@, compound_name.deep_view()) == Err::<
                    Seq<char>,
                    ErrorView,
                >(e@),
            },
    {
        let ghost names = compound_name.deep_view();
        let n = compound_name.len();
        let mut parts: Vec<String> = Vec::new();
        // The parts are gathered from the last index to the first, and put
        // in order at the end; the first index that fails is looked for
        // from the front.
        let mut k: usize = 0;
        while k < n
            invariant
                k <= n,
                n == compound_name.len(),
                names == compound_name.deep_view(),
                self.well_formed(),
                forall|j: int|
                    0 <= j < k ==> (#[trigger] lookup(self@, names[j])) is Some && name_part(
                        lookup(self@, names[j])->Some_0,
                    ) is Some,
            decreases n - k,
        {
            assert(names[k as int] == compound_name[k as int]@);
            match self.get_value(compound_name[k].as_str()) {
                Some(value) => {
                    match value {
                        Primitive::Number(_) => {},
                        Primitive::String(_) => {},
                        Primitive::GraphNode(_) => {},
                        other => {
                            let mut message = owned(
                                "Expected a number or string for variable flattening, got ",
                            );
                            message.append(other.get_type_string().as_str());
                            message.append(", check the definition of ");
                            message.append(compound_name[k].as_str());
                            proof {
                                lemma_name_parts_fail(self@, names, 0, k as int);
                            }
                            return Err(TransformError::WrongArgument(message));
                        },
                    }
                },
                None => {
                    proof {
                        lemma_name_parts_fail(self@, names, 0, k as int);
                    }
                    return Err(TransformError::MissingVariable(compound_name[k].clone()));
                },
            }
            k = k + 1;
        }
        let mut k: usize = 0;
        while k < n
            invariant
                k <= n,
                n == compound_name.len(),
                names == compound_name.deep_view(),
                self.well_formed(),
                parts.len() == k,
                forall|j: int|
                    0 <= j < n ==> (#[trigger] lookup(self@, names[j])) is Some && name_part(
                        lookup(self@, names[j])->Some_0,
                    ) is Some,
                forall|j: int|
                    0 <= j < k ==> parts[j]@ == name_part(lookup(self@, names[j])->Some_0)->Some_0,
            decreases n - k,
        {
            assert(names[k as int] == compound_name[k as int]@);
            assert(lookup(self@, names[k as int]) is Some);
            let part = match self.get_value(compound_name[k].as_str()) {
                Some(Primitive::Number(value)) => value.to_string(),
                Some(Primitive::String(value)) => value.clone(),
                Some(Primitive::GraphNode(v)) => v.get_name().clone(),
                _ => String::new(),
            };
            parts.push(part);
            k = k + 1;
        }
        proof {
            lemma_name_parts_ok(self@, names, 0);
            assert(parts.deep_view() =~= name_parts(self@, names, 0)->Ok_0);
        }
        Ok(join(&parts, "_"))
    }

    /// The name of the variable that the compound variable `name` with the
    /// indexes `indexes` stands for.
    pub fn flatten_compound_variable(&self, name: &String, indexes: &[String]) -> (r: Result<
        String,
        TransformError,
    >)
        requires
            self.well_formed(),
        ensures
            match r {
                Ok(s) => flattened_compound(self@, name@, indexes.deep_view()) == Ok::<
                    Seq<char>,
                    ErrorView,
                >(s@),
                Err(e) => flattened_compound(self@, name@, indexes.deep_view()) == Err::<
                    Seq<char>,
                    ErrorView,
                >(e@),
            },
    {
        let names = self.flatten_variable_name(indexes)?;
        let mut out = name.clone();
        out.append("_");
        out.append(names.as_str());
        Ok(out)
    }

    /// The number that the constant `name` stands for; `MissingVariable`
    /// where it is not declared, `WrongArgument` where it is no number.
    pub fn get_numerical_constant(&self, name: &str) -> (r: Result<Number, TransformError>)
        requires
            self.well_formed(),
        ensures
            match r {
                Ok(n) => lookup(self@, name@) == Some(PrimitiveView::Number(n)),
                Err(e) => match lookup(self@, name@) {
                    Some(v) => !(v is Number) && e@ == ErrorView::WrongArgument(
                        wrong_argument_text("Number"@, primitive_kind(v)),
                    ),
                    None => e@ == ErrorView::MissingVariable(name@),
                },
            },
    {
        match self.get_value(name) {
            Some(v) => v.as_number(),
            None => Err(TransformError::MissingVariable(name.to_owned())),
        }
    }
}

/// Where every index before `at` adds a part and the index at `at` fails,
/// the parts fail with the error of that index.
pub proof fn lemma_name_parts_fail(ctx: ContextView, names: Seq<Seq<char>>, from: int, at: int)
    requires
        0 <= from <= at < names.len(),
        forall|j: int|
            from <= j < at ==> (#[trigger] lookup(ctx, names[j])) is Some && name_part(
                lookup(ctx, names[j])->Some_0,
            ) is Some,
        lookup(ctx, names[at]) is None || name_part(lookup(ctx, names[at])->Some_0) is None,
    ensures
        name_parts(ctx, names, from) == Err::<Seq<Seq<char>>, ErrorView>(
            match lookup(ctx, names[at]) {
                None => ErrorView::MissingVariable(names[at]),
                Some(v) => ErrorView::WrongArgument(flattening_text(v, names[at])),
            },
        ),
    decreases at - from,
{
    if from < at {
        assert(lookup(ctx, names[from]) is Some);
        lemma_name_parts_fail(ctx, names, from + 1, at);
    }
}

/// Where every index adds a part, the parts are those.
pub proof fn lemma_name_parts_ok(ctx: ContextView, names: Seq<Seq<char>>, from: int)
    requires
        0 <= from <= names.len(),
        forall|j: int|
            from <= j < names.len() ==> (#[trigger] lookup(ctx, names[j])) is Some && name_part(
                lookup(ctx, names[j])->Some_0,
            ) is Some,
    ensures
        name_parts(ctx, names, from) is Ok,
        name_parts(ctx, names, from)->Ok_0.len() == names.len() - from,
        forall|k: int|
            0 <= k < names.len() - from ==> (#[trigger] name_parts(ctx, names, from)->Ok_0[k])
                == name_part(lookup(ctx, names[from + k])->Some_0)->Some_0,
    decreases names.len() - from,
{
    if from < names.len() {
        assert(lookup(ctx, names[from]) is Some);
        lemma_name_parts_ok(ctx, names, from + 1);
        let rest = name_parts(ctx, names, from + 1)->Ok_0;
        let part = name_part(lookup(ctx, names[from])->Some_0)->Some_0;
        let all = seq![part] + rest;
        assert forall|k: int| 0 <= k < names.len() - from implies (#[trigger] all[k])
            == name_part(lookup(ctx, names[from + k])->Some_0)->Some_0 by {
            if k > 0 {
                assert(all[k] == rest[k - 1]);
                assert(lookup(ctx, names[from + 1 + (k - 1)]) is Some);
            }
        }
    }
}

/// The objective of an expanded model.
#[derive(Debug)]
pub struct Objective {
    pub objective_type: OptimizationType,
    pub rhs: Exp,
}

/// An objective as a mathematical value.
pub struct ObjectiveView {
    pub objective_type: OptimizationType,
    pub rhs: ExpView,
}

impl View for Objective {
    type V = ObjectiveView;

    open spec fn view(&self) -> ObjectiveView {
        ObjectiveView { objective_type: self.objective_type, rhs: self.rhs@ }
    }
}

/// The text of an objective: what is asked, and of which expression.
pub open spec fn objective_text(o: ObjectiveView) -> Seq<char> {
    o.objective_type.text() + " "@ + exp_text(o.rhs)
}

impl Objective {
    pub fn new(objective_type: OptimizationType, rhs: Exp) -> (r: Objective)
        ensures
            r@ == (ObjectiveView { objective_type, rhs: rhs@ }),
    {
        Objective { objective_type, rhs }
    }

    pub fn to_string(&self) -> (r: String)
        ensures
            r@ == objective_text(self@),
    {
        let mut out = self.objective_type.to_string();
        out.append(" ");
        out.append(self.rhs.to_string().as_str());
        out
    }
}

/// A condition of an expanded model.
#[derive(Debug)]
pub struct Condition {
    pub lhs: Exp,
    pub condition_type: Comparison,
    pub rhs: Exp,
}

/// A condition as a mathematical value.
pub struct ConditionView {
    pub lhs: ExpView,
    pub condition_type: Comparison,
    pub rhs: ExpView,
}

impl View for Condition {
    type V = ConditionView;

    open spec fn view(&self) -> ConditionView {
        ConditionView { lhs: self.lhs@, condition_type: self.condition_type, rhs: self.rhs@ }
    }
}

/// The views of a list of conditions.
pub open spec fn condition_views(items: Seq<Condition>) -> Seq<ConditionView> {
    Seq::new(items.len(), |i: int| items[i]@)
}

/// The text of a condition: its two sides with the comparison between them.
pub open spec fn condition_text(c: ConditionView) -> Seq<char> {
    exp_text(c.lhs) + " "@ + c.condition_type.text() + " "@ + exp_text(c.rhs)
}

/// The texts of a list of conditions.
pub open spec fn condition_texts(items: Seq<ConditionView>) -> Seq<Seq<char>> {
    Seq::new(items.len(), |i: int| condition_text(items[i]))
}

impl Condition {
    pub fn new(lhs: Exp, condition_type: Comparison, rhs: Exp) -> (r: Condition)
        ensures
            r@ == (ConditionView { lhs: lhs@, condition_type, rhs: rhs@ }),
    {
        Condition { lhs, condition_type, rhs }
    }

    /// A copy of the condition.
    pub fn duplicate(&self) -> (r: Condition)
        ensures
            r@ == self@,
    {
        Condition {
            lhs: self.lhs.duplicate(),
            condition_type: self.condition_type,
            rhs: self.rhs.duplicate(),
        }
    }

    pub fn to_string(&self) -> (r: String)
        ensures
            r@ == condition_text(self@),
    {
        let mut out = self.lhs.to_string();
        out.append(" ");
        out.append(self.condition_type.to_string().as_str());
        out.append(" ");
        out.append(self.rhs.to_string().as_str());
        out
    }
}

impl Clone for Condition {
    fn clone(&self) -> (r: Condition)
        ensures
            r@ == self@,
    {
        self.duplicate()
    }
}

/// An expanded model: an objective and the conditions under which it is
/// sought.
#[derive(Debug)]
pub struct Problem {
    pub objective: Objective,
    pub conditions: Vec<Condition>,
}

/// An expanded model as a mathematical value.
pub struct ProblemView {
    pub objective: ObjectiveView,
    pub conditions: Seq<ConditionView>,
}

impl View for Problem {
    type V = ProblemView;

    open spec fn view(&self) -> ProblemView {
        ProblemView { objective: self.objective@, conditions: condition_views(self.conditions@) }
    }
}

/// The text of a model: the objective, `s.t`, and the conditions one to a
/// line.
pub open spec fn problem_text(p: ProblemView) -> Seq<char> {
    objective_text(p.objective) + "\ns.t\n    "@ + join_text(
        condition_texts(p.conditions),
        "\n    "@,
    )
}

impl Problem {
    pub fn new(objective: Objective, conditions: Vec<Condition>) -> (r: Problem)
        ensures
            r@ == (ProblemView {
                objective: objective@,
                conditions: condition_views(conditions@),
            }),
    {
        Problem { objective, conditions }
    }

    pub fn to_string(&self) -> (r: String)
        ensures
            r@ == problem_text(self@),
    {
        let mut parts: Vec<String> = Vec::new();
        let mut i: usize = 0;
        while i < self.conditions.len()
            invariant
                i <= self.conditions.len(),
                parts.len() == i,
                forall|j: int| 0 <= j < i ==> parts[j]@ == condition_text(self.conditions[j]@),
            decreases self.conditions.len() - i,
        {
            parts.push(self.conditions[i].to_string());
            i = i + 1;
        }
        assert(parts.deep_view() =~= condition_texts(self@.conditions));
        let mut out = self.objective.to_string();
        out.append("\ns.t\n    ");
        out.append(join(&parts, "\n    ").as_str());
        out
    }
}

/// The condition that a condition without iteration stands for.
pub open spec fn condition_of(c: PreCondition, ctx: ContextView) -> Result<
    ConditionView,
    ErrorView,
> {
    match exp_of(c.lhs, ctx) {
        Err(e) => Err(e),
        Ok(lhs) => match exp_of(c.rhs, ctx) {
            Err(e) => Err(e),
            Ok(rhs) => Ok(ConditionView { lhs, condition_type: c.condition_type, rhs }),
        },
    }
}

/// The conditions whose two sides are the rows of a table.
pub open spec fn rows_as_conditions(rows: Seq<Seq<ExpView>>, condition_type: Comparison) -> Seq<
    ConditionView,
> {
    Seq::new(
        rows.len(),
        |i: int| ConditionView { lhs: rows[i][0], condition_type, rhs: rows[i][1] },
    )
}

/// The conditions that a condition stands for: itself where it has no
/// iteration, else one for every combination of elements of its iteration
/// sets, and none where a set is empty.
pub open spec fn conditions_of(c: PreCondition, ctx: ContextView) -> Result<
    Seq<ConditionView>,
    ErrorView,
> {
    if c.iteration.len() == 0 {
        match condition_of(c, ctx) {
            Ok(condition) => Ok(seq![condition]),
            Err(e) => Err(e),
        }
    } else {
        match spanned(unrolled(c.iteration@, seq![c.lhs, c.rhs], 0, ctx), c.span) {
            Ok(rows) => Ok(rows_as_conditions(rows, c.condition_type)),
            Err(e) => Err(e),
        }
    }
}

/// The conditions that the conditions of a list, from `from` on, stand for.
pub open spec fn all_conditions(items: Seq<PreCondition>, ctx: ContextView, from: int) -> Result<
    Seq<ConditionView>,
    ErrorView,
>
    decreases items.len() - from,
{
    if from < 0 || from >= items.len() {
        Ok(Seq::<ConditionView>::empty())
    } else {
        match conditions_of(items[from], ctx) {
            Err(e) => Err(e),
            Ok(first) => match all_conditions(items, ctx, from + 1) {
                Err(e) => Err(e),
                Ok(rest) => Ok(first + rest),
            },
        }
    }
}

/// The objective that an objective stands for.
pub open spec fn objective_of(o: PreObjective, ctx: ContextView) -> Result<
    ObjectiveView,
    ErrorView,
> {
    match exp_of(o.rhs, ctx) {
        Err(e) => Err(e),
        Ok(rhs) => Ok(ObjectiveView { objective_type: o.objective_type, rhs }),
    }
}

/// The expanded model that a model stands for in the scopes `ctx`.
pub open spec fn problem_of(p: PreProblem, ctx: ContextView) -> Result<ProblemView, ErrorView> {
    match objective_of(p.objective, ctx) {
        Err(e) => Err(e),
        Ok(objective) => match all_conditions(p.conditions@, ctx, 0) {
            Err(e) => Err(e),
            Ok(conditions) => Ok(ProblemView { objective, conditions }),
        },
    }
}

/// The constants of a model as declarations.
pub open spec fn constant_entries(constants: Seq<Constant>) -> Seq<(Seq<char>, PrimitiveView)> {
    Seq::new(constants.len(), |i: int| (constants[i].name.value@, constants[i].value@))
}

/// The frame of the constants of a model: of several constants of one name
/// the last counts.
pub open spec fn constants_frame(entries: Seq<(Seq<char>, PrimitiveView)>) -> FrameView
    decreases entries.len(),
{
    if entries.len() == 0 {
        Map::<Seq<char>, PrimitiveView>::empty()
    } else {
        constants_frame(entries.drop_last()).insert(entries.last().0, entries.last().1)
    }
}

/// The frame of a list of declarations is the frame of their views.
pub proof fn lemma_constants_frame(entries: Seq<(String, Primitive)>, views: Seq<
    (Seq<char>, PrimitiveView),
>)
    requires
        views.len() == entries.len(),
        forall|i: int|
            0 <= i < entries.len() ==> (#[trigger] views[i]) == (entries[i].0@, entries[i].1@),
    ensures
        entries_map(entries) == constants_frame(views),
    decreases entries.len(),
{
    if entries.len() > 0 {
        lemma_constants_frame(entries.drop_last(), views.drop_last());
    }
}

/// The expanded condition that a condition without iteration stands for.
pub fn transform_condition(condition: &PreCondition, context: &mut TransformerContext) -> (r:
    Result<Condition, TransformError>)
    requires
        old(context).well_formed(),
    ensures
        final(context).well_formed(),
        final(context)@ == old(context)@,
        agrees(r, condition_of(*condition, old(context)@)),
{
    let lhs = condition.lhs.into_exp(context)?;
    let rhs = condition.rhs.into_exp(context)?;
    Ok(Condition::new(lhs, condition.condition_type, rhs))
}

/// The expanded conditions that a condition stands for: one for every
/// combination of elements of its iteration sets. The scopes are left as
/// they were found.
pub fn transform_condition_with_iteration(
    condition: &PreCondition,
    context: &mut TransformerContext,
) -> (r: Result<Vec<Condition>, TransformError>)
    requires
        old(context).well_formed(),
    ensures
        final(context).well_formed(),
        final(context)@ == old(context)@,
        match r {
            Ok(conditions) => conditions_of(*condition, old(context)@) == Ok::<
                Seq<ConditionView>,
                ErrorView,
            >(condition_views(conditions@)),
            Err(e) => conditions_of(*condition, old(context)@) == Err::<
                Seq<ConditionView>,
                ErrorView,
            >(e@),
        },
{
    if condition.iteration.len() == 0 {
        let single = transform_condition(condition, context)?;
        let mut out: Vec<Condition> = Vec::new();
        out.push(single);
        assert(condition_views(out@) =~= seq![single@]);
        return Ok(out);
    }
    let mut rows: Vec<Vec<Exp>> = Vec::new();
    let ghost bodies = seq![condition.lhs, condition.rhs];
    assert(bodies_of(condition.lhs, Some(&condition.rhs)) == bodies);
    assert(exp_rows(rows@) =~= Seq::<Seq<ExpView>>::empty());
    match recursive_set_resolver(
        &condition.iteration,
        context,
        &mut rows,
        0,
        &condition.lhs,
        Some(&condition.rhs),
    ) {
        Ok(_) => {},
        Err(e) => {
            return Err(e.to_spanned_error(&condition.span));
        },
    }
    let ghost expected = unrolled(condition.iteration@, bodies, 0, old(context)@)->Ok_0;
    assert(exp_rows(rows@) =~= expected);
    let mut results: Vec<Condition> = Vec::new();
    let mut i: usize = 0;
    while i < rows.len()
        invariant
            i <= rows.len(),
            results.len() == i,
            forall|j: int| 0 <= j < rows.len() ==> (#[trigger] rows[j]).len() == 2,
            forall|j: int|
                0 <= j < i ==> results[j]@ == (ConditionView {
                    lhs: rows[j][0]@,
                    condition_type: condition.condition_type,
                    rhs: rows[j][1]@,
                }),
        decreases rows.len() - i,
    {
        assert(rows[i as int].len() == 2);
        results.push(
            Condition::new(
                rows[i][0].duplicate(),
                condition.condition_type,
                rows[i][1].duplicate(),
            ),
        );
        i = i + 1;
    }
    assert(condition_views(results@) =~= rows_as_conditions(
        exp_rows(rows@),
        condition.condition_type,
    ));
    Ok(results)
}

/// The expanded objective that an objective stands for.
pub fn transform_objective(objective: &PreObjective, context: &mut TransformerContext) -> (r:
    Result<Objective, TransformError>)
    requires
        old(context).well_formed(),
    ensures
        final(context).well_formed(),
        final(context)@ == old(context)@,
        agrees(r, objective_of(*objective, old(context)@)),
{
    let rhs = objective.rhs.into_exp(context)?;
    Ok(Objective::new(objective.objective_type, rhs))
}

/// The expanded model that `problem` stands for in `context`. Whether the
/// expansion succeeds or fails, the scopes are left as they were found: as
/// many frames, each with the same names and values.
pub fn transform_problem(problem: &PreProblem, context: &mut TransformerContext) -> (r: Result<
    Problem,
    TransformError,
>)
    requires
        old(context).well_formed(),
    ensures
        final(context).well_formed(),
        final(context)@ == old(context)@,
        agrees(r, problem_of(*problem, old(context)@)),
{
    let ghost ctx = context@;
    let objective = transform_objective(&problem.objective, context)?;
    let mut conditions: Vec<Condition> = Vec::new();
    let mut i: usize = 0;
    assert(condition_views(conditions@) =~= Seq::<ConditionView>::empty());
    while i < problem.conditions.len()
        invariant
            i <= problem.conditions.len(),
            context.well_formed(),
            context@ == ctx,
            ctx == old(context)@,
            objective_of(problem.objective, ctx) == Ok::<ObjectiveView, ErrorView>(objective@),
            all_conditions(problem.conditions@, ctx, 0) == match all_conditions(
                problem.conditions@,
                ctx,
                i as int,
            ) {
                Ok(rest) => Ok::<Seq<ConditionView>, ErrorView>(
                    condition_views(conditions@) + rest,
                ),
                Err(e) => Err::<Seq<ConditionView>, ErrorView>(e),
            },
        decreases problem.conditions.len() - i,
    {
        let transformed = match transform_condition_with_iteration(
            &problem.conditions[i],
            context,
        ) {
            Ok(t) => t,
            Err(e) => {
                return Err(e);
            },
        };
        let ghost before = condition_views(conditions@);
        let mut k: usize = 0;
        while k < transformed.len()
            invariant
                k <= transformed.len(),
                condition_views(conditions@) == before + condition_views(transformed@).take(
                    k as int,
                ),
            decreases transformed.len() - k,
        {
            let ghost inner = condition_views(conditions@);
            conditions.push(transformed[k].duplicate());
            assert(condition_views(conditions@) =~= inner.push(transformed[k as int]@));
            assert(condition_views(transformed@).take(k + 1) =~= condition_views(
                transformed@,
            ).take(k as int).push(transformed[k as int]@));
            k = k + 1;
        }
        proof {
            let added = condition_views(transformed@);
            assert(added.take(k as int) =~= added);
            match all_conditions(problem.conditions@, ctx, i + 1) {
                Ok(rest) => {
                    assert(before + (added + rest) =~= condition_views(conditions@) + rest);
                },
                Err(_) => {},
            }
        }
        i = i + 1;
    }
    assert(condition_views(conditions@) + Seq::<ConditionView>::empty() =~= condition_views(
        conditions@,
    ));
    Ok(Problem::new(objective, conditions))
}

/// The expanded model that `pre_problem` stands for, with its constants in
/// the bottom scope.
pub fn transform_parsed_problem(pre_problem: &PreProblem) -> (r: Result<Problem, TransformError>)
    ensures
        agrees(
            r,
            problem_of(
                *pre_problem,
                seq![constants_frame(constant_entries(pre_problem.constants@))],
            ),
        ),
{
    let mut constants: Vec<(String, Primitive)> = Vec::new();
    let mut i: usize = 0;
    while i < pre_problem.constants.len()
        invariant
            i <= pre_problem.constants.len(),
            constants.len() == i,
            forall|j: int|
                0 <= j < i ==> (#[trigger] constants[j]).0@ == pre_problem.constants[j].name.value@
                    && constants[j].1@ == pre_problem.constants[j].value@,
        decreases pre_problem.constants.len() - i,
    {
        let c = &pre_problem.constants[i];
        constants.push((c.name.value.clone(), c.value.duplicate()));
        i = i + 1;
    }
    proof {
        lemma_constants_frame(constants@, constant_entries(pre_problem.constants@));
    }
    let mut context = TransformerContext::new(constants);
    transform_problem(pre_problem, &mut context)
}

} // verus!
