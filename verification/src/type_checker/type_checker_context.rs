//! The scopes of kinds in which a model is checked, and the map of the
//! tokens whose kind was found.
use std::collections::HashMap;
use vstd::prelude::*;
use vstd::string::*;
use crate::error::{option_text, ErrorView, TransformError};
use crate::parser::evaluator::{lemma_size_exps_member, size_call, size_exp, size_exps, size_parameter};
use crate::parser::frame::{entries_map, Frame};
use crate::parser::pre_exp::{
    AddressableAccess, BuiltinFunction, Constant, Parameter, PreExp,
};

use crate::parser::transformer::{frame_views, holder, lemma_holder, lookup};
use crate::primitives::kind::{kind_text, KindView, PrimitiveKind};
use crate::primitives::primitive::primitive_kind;
use crate::span::InputSpan;
use crate::text::{owned, usize_to_string};
use crate::type_checker::kinds::{
    accessed_kind, call_kind, declared_kind, depth_of, dimensions_text, innermost, kind_of,
    parameter_kind, unindexable, KindContext, KindFrame,
};

verus! {

/// What can be checked for the kinds of its parts.
pub trait TypeCheckable {
    /// What the check of this value gives in the scopes `ctx`.
    spec fn checked(&self, ctx: KindContext) -> Result<(), ErrorView>;

    /// Checks the value in `context`. The scopes are left as they were found.
    fn type_check(&self, context: &mut TypeCheckerContext) -> (r: Result<(), TransformError>)
        requires
            old(context).well_formed(),
        ensures
            final(context).well_formed(),
            final(context)@ == old(context)@,
            final(context).token_map@ == old(context).token_map@,
            match r {
                Ok(_) => self.checked(old(context)@) is Ok,
                Err(e) => self.checked(old(context)@) == Err::<(), ErrorView>(e@),
            },
    ;

    /// The tokens that are known once the tokens of this value are added
    /// to `tokens`, in the scopes `ctx`.
    spec fn noted(&self, ctx: KindContext, tokens: TokenMap) -> TokenMap;

    /// Adds the tokens of the value, each with the kind that it has in
    /// `context`, to the tokens of `context`. The scopes are left as they
    /// were found.
    fn populate_token_type_map(&self, context: &mut TypeCheckerContext)
        requires
            old(context).well_formed(),
        ensures
            final(context).well_formed(),
            final(context)@ == old(context)@,
            final(context).tokens() == self.noted(old(context)@, old(context).tokens()),
    ;
}

/// What has a kind.
pub trait WithType {
    /// The kind of this value in the scopes `ctx`.
    spec fn kind(&self, ctx: KindContext) -> KindView;

    /// The kind of the value in `context`.
    fn get_type(&self, context: &TypeCheckerContext) -> (r: PrimitiveKind)
        requires
            context.well_formed(),
        ensures
            r@ == self.kind(context@),
    ;
}

/// A token of the source with the kind that was found for it.
#[derive(Debug)]
pub struct TypedToken {
    pub span: InputSpan,
    pub value: PrimitiveKind,
    pub identifier: Option<String>,
}

impl TypedToken {
    pub fn new(span: InputSpan, value: PrimitiveKind, identifier: Option<String>) -> (r: TypedToken)
        ensures
            r.span == span,
            r.value == value,
            r.identifier == identifier,
    {
        TypedToken { span, value, identifier }
    }
}

/// A token with its kind as a mathematical value.
pub struct TokenView {
    pub span: InputSpan,
    pub kind: KindView,
    pub identifier: Option<Seq<char>>,
}

impl View for TypedToken {
    type V = TokenView;

    open spec fn view(&self) -> TokenView {
        TokenView { span: self.span, kind: self.value@, identifier: option_text(self.identifier) }
    }
}

/// The tokens of a source whose kind is known, each under the place where
/// it starts.
pub type TokenMap = Map<usize, TokenView>;

/// The views of the tokens of a map.
pub open spec fn token_map_view(map: Map<usize, TypedToken>) -> TokenMap {
    Map::new(|k: usize| map.contains_key(k), |k: usize| map[k]@)
}

/// The tokens `tokens` and the token at `span`, of the kind `kind` and
/// with the name `identifier`. Of two tokens that start at one place the
/// later one stays.
pub open spec fn with_token(
    tokens: TokenMap,
    span: InputSpan,
    kind: KindView,
    identifier: Option<Seq<char>>,
) -> TokenMap {
    tokens.insert(span.start, TokenView { span, kind, identifier })
}

/// The tokens of the names of the first `upto` constants.
pub open spec fn constant_tokens(constants: Seq<Constant>, upto: int) -> TokenMap
    decreases upto,
{
    if upto <= 0 || upto > constants.len() {
        Map::<usize, TokenView>::empty()
    } else {
        with_token(
            constant_tokens(constants, upto - 1),
            constants[upto - 1].name.span,
            primitive_kind(constants[upto - 1].value@),
            Some(constants[upto - 1].name.value@),
        )
    }
}

/// The scopes of kinds in which a model is checked.
pub struct TypeCheckerContext {
    pub frames: Vec<Frame<PrimitiveKind>>,
    pub token_map: HashMap<usize, TypedToken>,
}

impl View for TypeCheckerContext {
    type V = KindContext;

    open spec fn view(&self) -> KindContext {
        frame_views(self.frames@)
    }
}

/// The message for an index of a compound variable of a kind that adds no
/// part to the name.
pub open spec fn compound_kind_text(got: KindView, name: Seq<char>) -> Seq<char> {
    "Expected value of type \"Number\", \"String\", \"GraphNode\" for variable flattening, got \""@
        + kind_text(got) + "\", check the definition of \""@ + name + "\""@
}

/// What the check of the indexes of a compound variable gives, from `from`
/// on: `MissingVariable` for the first index that is not declared, and
/// `WrongArgument` for the first that is no number, text or node.
pub open spec fn compound_checked(ctx: KindContext, names: Seq<Seq<char>>, from: int) -> Result<
    (),
    ErrorView,
>
    decreases names.len() - from,
{
    if from < 0 || from >= names.len() {
        Ok(())
    } else {
        match lookup(ctx, names[from]) {
            None => Err(ErrorView::MissingVariable(names[from])),
            Some(k) => match k {
                KindView::Number => compound_checked(ctx, names, from + 1),
                KindView::String => compound_checked(ctx, names, from + 1),
                KindView::GraphNode => compound_checked(ctx, names, from + 1),
                _ => Err(ErrorView::WrongArgument(compound_kind_text(k, names[from]))),
            },
        }
    }
}

/// The kinds of the constants of a model as declarations.
pub open spec fn constant_kinds(constants: Seq<Constant>) -> Seq<(Seq<char>, KindView)> {
    Seq::new(
        constants.len(),
        |i: int| (constants[i].name.value@, primitive_kind(constants[i].value@)),
    )
}

/// The frame of a list of declared kinds: of several declarations of one
/// name the last counts.
pub open spec fn kinds_frame(entries: Seq<(Seq<char>, KindView)>) -> KindFrame
    decreases entries.len(),
{
    if entries.len() == 0 {
        Map::<Seq<char>, KindView>::empty()
    } else {
        kinds_frame(entries.drop_last()).insert(entries.last().0, entries.last().1)
    }
}

/// The frame of a list of declarations is the frame of their views.
pub proof fn lemma_kinds_frame(entries: Seq<(String, PrimitiveKind)>, views: Seq<
    (Seq<char>, KindView),
>)
    requires
        views.len() == entries.len(),
        forall|i: int|
            0 <= i < entries.len() ==> (#[trigger] views[i]) == (entries[i].0@, entries[i].1@),
    ensures
        entries_map(entries) == kinds_frame(views),
    decreases entries.len(),
{
    if entries.len() > 0 {
        lemma_kinds_frame(entries.drop_last(), views.drop_last());
    }
}

impl TypeCheckerContext {
    /// There is a frame at the bottom, and no frame declares a name twice.
    pub open spec fn well_formed(&self) -> bool {
        &&& self.frames.len() >= 1
        &&& forall|i: int| 0 <= i < self.frames.len() ==> (#[trigger] self.frames[i]).well_formed()
    }

    /// The tokens whose kind is known.
    pub open spec fn tokens(&self) -> TokenMap {
        token_map_view(self.token_map@)
    }

    /// The context with the kinds `primitives` in its bottom frame and the
    /// tokens `token_map`.
    pub fn new(primitives: Vec<(String, PrimitiveKind)>, token_map: HashMap<usize, TypedToken>) -> (r:
        TypeCheckerContext)
        ensures
            r.well_formed(),
            r@ == seq![entries_map(primitives@)],
            r.token_map == token_map,
    {
        let frame = Frame::from_map(primitives);
        let mut frames: Vec<Frame<PrimitiveKind>> = Vec::new();
        frames.push(frame);
        assert(frame_views(frames@) =~= seq![entries_map(primitives@)]);
        TypeCheckerContext { frames, token_map }
    }

    /// The context for a model with the constants `constants`: each
    /// constant is declared with the kind of its value, and has a token at
    /// the place of its name.
    pub fn new_from_constants(constants: &Vec<Constant>) -> (r: TypeCheckerContext)
        ensures
            r.well_formed(),
            r@ == seq![kinds_frame(constant_kinds(constants@))],
            forall|i: int|
                0 <= i < constants.len() ==> r.token_map@.contains_key(
                    (#[trigger] constants[i]).name.span.start,
                ),
            forall|k: usize|
                r.token_map@.contains_key(k) ==> exists|i: int|
                    0 <= i < constants.len() && (#[trigger] constants[i]).name.span.start == k,
            r.tokens() == constant_tokens(constants@, constants.len() as int),
    {
        broadcast use vstd::std_specs::hash::group_hash_axioms;

        let mut primitives: Vec<(String, PrimitiveKind)> = Vec::new();
        let mut token_map: HashMap<usize, TypedToken> = HashMap::new();
        let mut i: usize = 0;
        assert(token_map_view(token_map@) =~= constant_tokens(constants@, 0));
        while i < constants.len()
            invariant
                i <= constants.len(),
                primitives.len() == i,
                token_map_view(token_map@) == constant_tokens(constants@, i as int),
                forall|j: int|
                    0 <= j < i ==> (#[trigger] primitives[j]).0@ == constants[j].name.value@
                        && primitives[j].1@ == primitive_kind(constants[j].value@),
                forall|j: int|
                    0 <= j < i ==> token_map@.contains_key((#[trigger] constants[j]).name.span.start),
                forall|k: usize|
                    token_map@.contains_key(k) ==> exists|j: int|
                        0 <= j < i && (#[trigger] constants[j]).name.span.start == k,
            decreases constants.len() - i,
        {
            let c = &constants[i];
            primitives.push((c.name.value.clone(), c.value.get_type()));
            let token = TypedToken::new(c.name.span, c.value.get_type(), Some(c.name.value.clone()));
            let ghost before = token_map@;
            let ghost view = token@;
            token_map.insert(c.name.span.start, token);
            assert(token_map_view(token_map@) =~= token_map_view(before).insert(
                c.name.span.start,
                view,
            ));
            i = i + 1;
        }
        proof {
            lemma_kinds_frame(primitives@, constant_kinds(constants@));
        }
        TypeCheckerContext::new(primitives, token_map)
    }

    /// The tokens whose kind was found.
    pub fn into_token_map(self) -> (r: HashMap<usize, TypedToken>)
        ensures
            r == self.token_map,
    {
        self.token_map
    }

    /// Pushes an empty frame.
    pub fn add_scope(&mut self)
        requires
            old(self).well_formed(),
        ensures
            final(self).well_formed(),
            final(self)@ == old(self)@.push(Map::<Seq<char>, KindView>::empty()),
            final(self).token_map == old(self).token_map,
    {
        let frame: Frame<PrimitiveKind> = Frame::new();
        self.frames.push(frame);
        assert(self@ =~= old(self)@.push(Map::<Seq<char>, KindView>::empty()));
    }

    /// Pushes `frame`.
    pub fn add_frame(&mut self, frame: Frame<PrimitiveKind>)
        requires
            old(self).well_formed(),
            frame.well_formed(),
        ensures
            final(self).well_formed(),
            final(self)@ == old(self)@.push(frame@),
            final(self).token_map == old(self).token_map,
    {
        self.frames.push(frame);
        assert(self@ =~= old(self)@.push(frame@));
    }

    /// Pops the innermost frame and hands it back; an error, and the stack as
    /// it was, where only the bottom frame is left.
    pub fn pop_scope(&mut self) -> (r: Result<Frame<PrimitiveKind>, TransformError>)
        requires
            old(self).well_formed(),
        ensures
            final(self).well_formed(),
            final(self).token_map == old(self).token_map,
            match r {
                Ok(frame) => old(self)@.len() > 1 && frame.well_formed() && frame@ == old(
                    self,
                )@.last() && final(self)@ == old(self)@.drop_last(),
                Err(e) => old(self)@.len() == 1 && final(self)@ == old(self)@ && e@
                    == ErrorView::Other("Missing frame to pop"@),
            },
    {
        if self.frames.len() <= 1 {
            return Err(TransformError::Other(owned("Missing frame to pop")));
        }
        let frame = self.frames.pop().unwrap();
        assert(self@ =~= old(self)@.drop_last());
        Ok(frame)
    }

    /// The place of the innermost frame that declares `name`.
    pub fn find_holder(&self, name: &str) -> (r: Option<usize>)
        ensures
            match r {
                Some(i) => holder(self@, name@) == Some(i as int) && i < self.frames.len(),
                None => holder(self@, name@) is None,
            },
    {
        let mut i: usize = self.frames.len();
        assert(self@.take(i as int) =~= self@);
        while i > 0
            invariant
                i <= self.frames.len(),
                holder(self@, name@) == holder(self@.take(i as int), name@),
            decreases i,
        {
            let ghost upper = self@.take(i as int);
            assert(upper.last() == self.frames[i - 1]@);
            assert(upper.drop_last() =~= self@.take(i - 1));
            if self.frames[i - 1].has_variable(name) {
                return Some(i - 1);
            }
            i = i - 1;
        }
        None
    }

    /// The kind that `name` stands for, if it is declared.
    pub fn get_value(&self, name: &str) -> (r: Option<&PrimitiveKind>)
        requires
            self.well_formed(),
        ensures
            match r {
                Some(v) => lookup(self@, name@) == Some(v@),
                None => lookup(self@, name@) is None,
            },
    {
        proof {
            lemma_holder(self@, name@);
        }
        match self.find_holder(name) {
            Some(i) => {
                assert(self@[i as int] == self.frames[i as int]@);
                self.frames[i].get_value(name)
            },
            None => None,
        }
    }

    /// The kind that `name` stands for, and `Undefined` where it is not
    /// declared.
    pub fn kind_of_name(&self, name: &str) -> (r: PrimitiveKind)
        requires
            self.well_formed(),
        ensures
            r@ == declared_kind(self@, name@),
    {
        match self.get_value(name) {
            Some(k) => k.duplicate(),
            None => PrimitiveKind::Undefined,
        }
    }

    /// Checks the indexes of a compound variable: each must be declared, as
    /// a number, a text or a node.
    pub fn check_compound_variable(&self, compound_name: &[String]) -> (r: Result<
        (),
        TransformError,
    >)
        requires
            self.well_formed(),
        ensures
            match r {
                Ok(_) => compound_checked(self@, compound_name.deep_view(), 0) is Ok,
                Err(e) => compound_checked(self@, compound_name.deep_view(), 0) == Err::<
                    (),
                    ErrorView,
                >(e@),
            },
    {
        let ghost names = compound_name.deep_view();
        let mut i: usize = 0;
        while i < compound_name.len()
            invariant
                i <= compound_name.len(),
                self.well_formed(),
                names == compound_name.deep_view(),
                compound_checked(self@, names, 0) == compound_checked(self@, names, i as int),
            decreases compound_name.len() - i,
        {
            assert(names[i as int] == compound_name[i as int]@);
            let name = &compound_name[i];
            match self.get_value(name.as_str()) {
                None => {
                    return Err(TransformError::MissingVariable(name.clone()));
                },
                Some(value) => {
                    match value {
                        PrimitiveKind::Number => {},
                        PrimitiveKind::String => {},
                        PrimitiveKind::GraphNode => {},
                        _ => {
                            let mut message = owned(
                                "Expected value of type \"Number\", \"String\", \"GraphNode\" for variable flattening, got \"",
                            );
                            message.append(value.to_string().as_str());
                            message.append("\", check the definition of \"");
                            message.append(name.as_str());
                            message.append("\"");
                            return Err(TransformError::WrongArgument(message));
                        },
                    }
                },
            }
            i = i + 1;
        }
        Ok(())
    }

    /// Declares `name` with the kind `value` in the innermost frame; the
    /// error `AlreadyExistingVariable`, and the stack as it was, where the
    /// innermost frame declares the name already, or, with `strict` set, any
    /// frame does.
    pub fn declare_variable(&mut self, name: &str, value: PrimitiveKind, strict: bool) -> (r:
        Result<(), TransformError>)
        requires
            old(self).well_formed(),
        ensures
            final(self).well_formed(),
            final(self)@.len() == old(self)@.len(),
            final(self).token_map == old(self).token_map,
            match r {
                Ok(_) => {
                    &&& !old(self)@.last().dom().contains(name@)
                    &&& strict ==> lookup(old(self)@, name@) is None
                    &&& final(self)@ == old(self)@.update(
                        old(self)@.len() - 1,
                        old(self)@.last().insert(name@, value@),
                    )
                },
                Err(e) => {
                    &&& old(self)@.last().dom().contains(name@) || (strict && lookup(
                        old(self)@,
                        name@,
                    ) is Some)
                    &&& final(self)@ == old(self)@
                    &&& e@ == ErrorView::AlreadyExistingVariable(name@)
                },
            },
    {
        if strict && self.find_holder(name).is_some() {
            return Err(TransformError::AlreadyExistingVariable(name.to_owned()));
        }
        let top = self.frames.len() - 1;
        let mut frame = self.frames.pop().unwrap();
        let result = frame.declare_variable(name, value);
        self.frames.push(frame);
        proof {
            match result {
                Ok(_) => {
                    assert(self@ =~= old(self)@.update(
                        old(self)@.len() - 1,
                        old(self)@.last().insert(name@, value@),
                    ));
                },
                Err(_) => {
                    assert(self@ =~= old(self)@);
                },
            }
            assert forall|i: int| 0 <= i < self.frames.len() implies (
            #[trigger] self.frames[i]).well_formed() by {
                if i < top {
                    assert(self.frames[i] == old(self).frames[i]);
                }
            }
        }
        result
    }

    /// Records the kind `value` for the token at `span`, with the name
    /// `identifier` where it is one. The scopes stay as they are.
    pub fn note_token(&mut self, value: PrimitiveKind, span: InputSpan, identifier: Option<String>)
        requires
            old(self).well_formed(),
        ensures
            final(self).well_formed(),
            final(self)@ == old(self)@,
            final(self).tokens() == with_token(
                old(self).tokens(),
                span,
                value@,
                option_text(identifier),
            ),
    {
        broadcast use vstd::std_specs::hash::group_hash_axioms;

        let token = TypedToken::new(span, value, identifier);
        let ghost view = token@;
        self.token_map.insert(span.start, token);
        assert(self.tokens() =~= old(self).tokens().insert(span.start, view));
    }

    /// Records the kind `value` for the token at `span`, and, where the
    /// token is the name `identifier`, declares the name with that kind in
    /// the innermost frame unless that frame declares it already.
    pub fn add_token_type(&mut self, value: PrimitiveKind, span: InputSpan, identifier: Option<
        String,
    >)
        requires
            old(self).well_formed(),
        ensures
            final(self).well_formed(),
            final(self)@.len() == old(self)@.len(),
            final(self).token_map@.dom() == old(self).token_map@.dom().insert(span.start),
            final(self).token_map@[span.start].span == span,
            final(self).token_map@[span.start].value@ == value@,
            final(self).tokens() == with_token(
                old(self).tokens(),
                span,
                value@,
                option_text(identifier),
            ),
            forall|k: usize|
                k != span.start && old(self).token_map@.contains_key(k) ==> final(self).token_map@[k]
                    == old(self).token_map@[k],
            match identifier {
                Some(name) => final(self)@ == if old(self)@.last().dom().contains(name@) {
                    old(self)@
                } else {
                    old(self)@.update(
                        old(self)@.len() - 1,
                        old(self)@.last().insert(name@, value@),
                    )
                },
                None => final(self)@ == old(self)@,
            },
    {
        broadcast use vstd::std_specs::hash::group_hash_axioms;

        let start = span.start;
        match &identifier {
            Some(val) => {
                let _ = self.declare_variable(val.as_str(), value.duplicate(), false);
            },
            None => {},
        }
        let token = TypedToken::new(span, value, identifier);
        let ghost view = token@;
        let ghost before = self.tokens();
        self.token_map.insert(start, token);
        assert(self.tokens() =~= before.insert(start, view));
    }

    /// The error for the first access that is no number, if there is one.
    fn find_unindexable(&self, accesses: &Vec<PreExp>) -> (r: Option<TransformError>)
        requires
            self.well_formed(),
        ensures
            match r {
                Some(e) => unindexable(accesses@, self@, 0) == Some(e@),
                None => unindexable(accesses@, self@, 0) is None,
            },
        decreases size_exps(accesses@, 0), 1nat,
    {
        let mut i: usize = 0;
        while i < accesses.len()
            invariant
                i <= accesses.len(),
                self.well_formed(),
                unindexable(accesses@, self@, 0) == unindexable(accesses@, self@, i as int),
            decreases accesses.len() - i,
        {
            proof {
                lemma_size_exps_member(accesses@, 0, i as int);
            }
            let kind = accesses[i].infer(self);
            if !matches!(kind, PrimitiveKind::Number) {
                let mut message = owned("Expected value of type \"Number\" to index array, got \"");
                message.append(kind.to_string().as_str());
                message.append("\", check the definition of \"");
                message.append(accesses[i].to_string().as_str());
                message.append("\"");
                return Some(TransformError::WrongArgument(message));
            }
            i = i + 1;
        }
        None
    }

    /// The kind of what the access `addressable_access` leads to.
    pub fn get_addressable_value(&self, addressable_access: &AddressableAccess) -> (r: Result<
        PrimitiveKind,
        TransformError,
    >)
        requires
            self.well_formed(),
        ensures
            match r {
                Ok(k) => accessed_kind(*addressable_access, self@) == Ok::<KindView, ErrorView>(
                    k@,
                ),
                Err(e) => accessed_kind(*addressable_access, self@) == Err::<KindView, ErrorView>(
                    e@,
                ),
            },
        decreases size_exps(addressable_access.accesses@, 0), 2nat,
    {
        match self.get_value(addressable_access.name.as_str()) {
            Some(v) => {
                let len = addressable_access.accesses.len();
                match self.find_unindexable(&addressable_access.accesses) {
                    Some(e) => {
                        return Err(e);
                    },
                    None => {},
                }
                let mut depth: usize = 0;
                let mut counted: bool = true;
                let mut last_value: &PrimitiveKind = v;
                loop
                    invariant
                        innermost(v@) == innermost(last_value@),
                        counted ==> depth_of(v@) == depth + depth_of(last_value@),
                        !counted ==> depth == usize::MAX && depth_of(v@) > usize::MAX,
                    ensures
                        last_value@ == innermost(v@),
                        counted ==> depth_of(v@) == depth,
                        !counted ==> depth == usize::MAX && depth_of(v@) > usize::MAX,
                    decreases last_value,
                {
                    match last_value {
                        PrimitiveKind::Iterable(iterable) => {
                            if depth < usize::MAX {
                                depth = depth + 1;
                            } else {
                                counted = false;
                            }
                            last_value = iterable;
                        },
                        _ => {
                            break ;
                        },
                    }
                }
                if !counted || depth > len {
                    return Err(
                        TransformError::OutOfBounds(
                            dimensions_message(&addressable_access.name, len, depth),
                        ),
                    );
                }
                Ok(last_value.duplicate())
            },
            None => Err(TransformError::MissingVariable(addressable_access.name.clone())),
        }
    }
}

/// The message for an access into something with more dimensions than the
/// access has indexes.
fn dimensions_message(name: &String, indexes: usize, dimensions: usize) -> (r: String)
    ensures
        r@ == dimensions_text(name@, indexes as nat, dimensions as nat),
{
    let mut message = owned("Indexing ");
    message.append(name.as_str());
    message.append(" with ");
    message.append(usize_to_string(indexes).as_str());
    message.append(" indexes, but it only has ");
    message.append(usize_to_string(dimensions).as_str());
    message.append(" dimensions");
    message
}

/// The kind of the iterables of elements of the kind `inner`.
pub fn iterable_of(inner: PrimitiveKind) -> (r: PrimitiveKind)
    ensures
        r@ == KindView::Iterable(Box::new(inner@)),
{
    PrimitiveKind::Iterable(Box::new(inner))
}

impl Parameter {
    /// The kind of the argument in `context`.
    pub fn infer(&self, context: &TypeCheckerContext) -> (r: PrimitiveKind)
        requires
            context.well_formed(),
        ensures
            r@ == parameter_kind(*self, context@),
        decreases size_parameter(*self), 0nat,
    {
        match self {
            Parameter::Number(_) => PrimitiveKind::Number,
            Parameter::String(_) => PrimitiveKind::String,
            Parameter::Variable(name) => context.kind_of_name(name.as_str()),
            Parameter::CompoundVariable(c) => context.kind_of_name(c.name.as_str()),
            Parameter::ArrayAccess(a) => match context.get_addressable_value(a) {
                Ok(k) => k,
                Err(_) => PrimitiveKind::Undefined,
            },
            Parameter::FunctionCall(f) => f.infer(context),
        }
    }
}

impl BuiltinFunction {
    /// The kind of what the call gives.
    pub fn infer(&self, context: &TypeCheckerContext) -> (r: PrimitiveKind)
        requires
            context.well_formed(),
        ensures
            r@ == call_kind(*self, context@),
        decreases size_call(*self), 0nat,
    {
        match self {
            BuiltinFunction::Edges(_) => iterable_of(PrimitiveKind::GraphEdge),
            BuiltinFunction::Nodes(_) => iterable_of(PrimitiveKind::GraphNode),
            BuiltinFunction::NeighbourEdges(_) => iterable_of(PrimitiveKind::GraphEdge),
            BuiltinFunction::NeighboursOf(_) => iterable_of(PrimitiveKind::GraphEdge),
            BuiltinFunction::Len(_) => PrimitiveKind::Number,
            BuiltinFunction::Enumerate(x) => {
                let inner = x.array.infer(context);
                match inner {
                    PrimitiveKind::Iterable(element) => {
                        let ghost element_view = element@;
                        assert(inner@ == KindView::Iterable(Box::new(element_view)));
                        let mut parts: Vec<PrimitiveKind> = Vec::new();
                        parts.push(*element);
                        parts.push(PrimitiveKind::Number);
                        assert(crate::primitives::kind::kind_views(parts@) =~= seq![
                            element_view,
                            KindView::Number,
                        ]);
                        iterable_of(PrimitiveKind::Tuple(parts))
                    },
                    _ => PrimitiveKind::Undefined,
                }
            },
            BuiltinFunction::Range(_) => iterable_of(PrimitiveKind::Number),
        }
    }
}

impl PreExp {
    /// The kind of the expression in `context`.
    pub fn infer(&self, context: &TypeCheckerContext) -> (r: PrimitiveKind)
        requires
            context.well_formed(),
        ensures
            r@ == kind_of(*self, context@),
        decreases size_exp(*self), 0nat,
    {
        match self {
            PreExp::Number(_) => PrimitiveKind::Number,
            PreExp::Variable(name) => context.kind_of_name(name.value.as_str()),
            PreExp::CompoundVariable(c) => context.kind_of_name(c.value.name.as_str()),
            PreExp::ArrayAccess(a) => match context.get_addressable_value(&a.value) {
                Ok(k) => k,
                Err(_) => PrimitiveKind::Undefined,
            },
            PreExp::FunctionCall(_, f) => f.infer(context),
            PreExp::BinaryOperation(op, l, r) => {
                let a = l.infer(context);
                let b = r.infer(context);
                if a.can_apply_binary_op(op.value, b) {
                    a
                } else {
                    PrimitiveKind::Undefined
                }
            },
            PreExp::UnaryOperation(op, x) => {
                let k = x.infer(context);
                if k.can_apply_unary_op(op.value) {
                    k
                } else {
                    PrimitiveKind::Undefined
                }
            },
            PreExp::Mod(_, _) => PrimitiveKind::Number,
            PreExp::BlockFunction(_) => PrimitiveKind::Number,
            PreExp::BlockScopedFunction(_) => PrimitiveKind::Number,
        }
    }
}

impl WithType for PreExp {
    open spec fn kind(&self, ctx: KindContext) -> KindView {
        kind_of(*self, ctx)
    }

    fn get_type(&self, context: &TypeCheckerContext) -> (r: PrimitiveKind) {
        self.infer(context)
    }
}

impl WithType for Parameter {
    open spec fn kind(&self, ctx: KindContext) -> KindView {
        parameter_kind(*self, ctx)
    }

    fn get_type(&self, context: &TypeCheckerContext) -> (r: PrimitiveKind) {
        self.infer(context)
    }
}

} // verus!
