//! The parser: it reads the tokens of a source by recursive descent and
//! builds the tree of the model. Every function here gives what the function
//! of the same name in [`crate::parser::grammar`] says of the tokens.
use vstd::prelude::*;
use vstd::string::*;
use crate::error::{CompilationError, CompilationErrorView, ParseError};
use crate::math::{Comparison, Op, OptimizationType, UnOp, VariableDomain};
use crate::number::Number;
use crate::parser::ast::{
    constant_views, domain_views, name_views, parameter_views, pre_condition_views, pre_exp_views,
    set_views, CallView, ParameterView, PreExpView,
};
use crate::parser::grammar;
use crate::parser::grammar::{Parsed, PreModelView};
use crate::parser::lexer::{token_views, tokenize, Symbol, Token, TokenKind};
use crate::parser::pre_exp::{
    AddressableAccess, BlockFunction, BlockFunctionKind, BlockScopedFunction,
    BlockScopedFunctionKind, BuiltinFunction, CompoundVariable, Constant, DomainVariable,
    IterableSet, NumericRange, Parameter, PreCondition, PreExp, PreObjective, PreProblem,
    VariableType,
};
use crate::parser::iterable_utils::flatten_primitive_array_values;
use crate::primitives::graph::{edge_views, node_views, Graph, GraphEdge, GraphNode};
use crate::primitives::primitive::{primitive_views, Primitive, PrimitiveView};
use crate::span::{InputSpan, Spanned};
use crate::text::{owned, same_text};

verus! {

/// The most tokens that the parser takes.
pub open spec fn most_tokens() -> int {
    usize::MAX - 8
}

/// A construct that was read, with the place behind it.
pub open spec fn done<V>(value: V, pos: int) -> Parsed<V> {
    Ok((value, pos))
}

/// A construct that was refused.
pub open spec fn failed<V>(e: CompilationErrorView) -> Parsed<V> {
    Err(e)
}

fn symbol_text(s: Symbol) -> (r: String)
    ensures
        r@ == grammar::symbol_text(s),
{
    match s {
        Symbol::Plus => owned("+"),
        Symbol::Minus => owned("-"),
        Symbol::Star => owned("*"),
        Symbol::Slash => owned("/"),
        Symbol::Bar => owned("|"),
        Symbol::LeftParen => owned("("),
        Symbol::RightParen => owned(")"),
        Symbol::LeftBrace => owned("{"),
        Symbol::RightBrace => owned("}"),
        Symbol::LeftBracket => owned("["),
        Symbol::RightBracket => owned("]"),
        Symbol::Comma => owned(","),
        Symbol::Colon => owned(":"),
        Symbol::Equal => owned("="),
        Symbol::LowerOrEqual => owned("<="),
        Symbol::UpperOrEqual => owned(">="),
        Symbol::DotDot => owned(".."),
        Symbol::Arrow => owned("->"),
        Symbol::Underscore => owned("_"),
        Symbol::SubjectTo => owned("s.t."),
    }
}

fn token_text(kind: &TokenKind) -> (r: String)
    ensures
        r@ == grammar::token_text(kind@),
{
    match kind {
        TokenKind::Number(n) => n.to_string(),
        TokenKind::Ident(s) => s.clone(),
        TokenKind::Text(s) => {
            let mut out = owned("\"");
            out.append(s.as_str());
            out.append("\"");
            out
        },
        TokenKind::Symbol(s) => symbol_text(*s),
        TokenKind::Separator => owned("line break"),
    }
}

fn end_column(span: &InputSpan) -> (r: usize)
    ensures
        r == grammar::end_column(*span),
{
    if span.len > usize::MAX - span.start_column {
        usize::MAX
    } else {
        span.start_column + span.len
    }
}

fn error_at(kind: ParseError, tokens: &Vec<Token>, pos: usize) -> (r: CompilationError)
    ensures
        r@ == grammar::error_at(kind@, token_views(tokens@), pos as int),
{
    if pos < tokens.len() {
        let span = &tokens[pos].span;
        CompilationError::new(
            kind,
            span.start_line,
            span.start_column,
            span.start_line,
            end_column(span),
            token_text(&tokens[pos].kind),
        )
    } else if tokens.len() > 0 {
        let span = &tokens[tokens.len() - 1].span;
        let column = end_column(span);
        CompilationError::new(kind, span.start_line, column, span.start_line, column, String::new())
    } else {
        CompilationError::new(kind, 1, 1, 1, 1, String::new())
    }
}

fn unexpected(tokens: &Vec<Token>, pos: usize) -> (r: CompilationError)
    ensures
        r@ == grammar::unexpected(token_views(tokens@), pos as int),
{
    if pos < tokens.len() {
        error_at(ParseError::UnexpectedToken(token_text(&tokens[pos].kind)), tokens, pos)
    } else {
        error_at(ParseError::MissingToken(owned("more input")), tokens, pos)
    }
}

fn missing(tokens: &Vec<Token>, pos: usize, what: &str) -> (r: CompilationError)
    ensures
        r@ == grammar::missing(token_views(tokens@), pos as int, what@),
{
    error_at(ParseError::MissingToken(owned(what)), tokens, pos)
}

fn is_symbol(tokens: &Vec<Token>, pos: usize, s: Symbol) -> (r: bool)
    ensures
        r == grammar::is_symbol(token_views(tokens@), pos as int, s),
{
    if pos < tokens.len() {
        match &tokens[pos].kind {
            TokenKind::Symbol(found) => *found == s,
            _ => false,
        }
    } else {
        false
    }
}

fn is_word(tokens: &Vec<Token>, pos: usize, w: &str) -> (r: bool)
    ensures
        r == grammar::is_word(token_views(tokens@), pos as int, w@),
{
    if pos < tokens.len() {
        match &tokens[pos].kind {
            TokenKind::Ident(found) => same_text(found.as_str(), w),
            _ => false,
        }
    } else {
        false
    }
}

fn is_reserved(w: &str) -> (r: bool)
    ensures
        r == grammar::is_reserved(w@),
{
    same_text(w, "min") || same_text(w, "max") || same_text(w, "sum") || same_text(w, "prod")
        || same_text(w, "avg") || same_text(w, "for") || same_text(w, "in") || same_text(
        w,
        "where",
    ) || same_text(w, "define") || same_text(w, "Graph") || same_text(w, "Real") || same_text(
        w,
        "NonNegativeReal",
    ) || same_text(w, "Integer") || same_text(w, "Boolean")
}

fn is_adjacent(tokens: &Vec<Token>, pos: usize) -> (r: bool)
    ensures
        r == grammar::is_adjacent(token_views(tokens@), pos as int),
{
    if 0 < pos && pos < tokens.len() {
        let before = &tokens[pos - 1].span;
        before.len <= usize::MAX - before.start && tokens[pos].span.start == before.start
            + before.len
    } else {
        false
    }
}

fn skip_separators(tokens: &Vec<Token>, pos: usize) -> (r: usize)
    requires
        pos <= tokens.len(),
    ensures
        r == grammar::skip_separators(token_views(tokens@), pos as int),
        pos <= r <= tokens.len(),
{
    let mut at: usize = pos;
    while at < tokens.len() && matches!(tokens[at].kind, TokenKind::Separator)
        invariant
            pos <= at <= tokens.len(),
            grammar::skip_separators(token_views(tokens@), pos as int) == grammar::skip_separators(
                token_views(tokens@),
                at as int,
            ),
        decreases tokens.len() - at,
    {
        at = at + 1;
    }
    at
}

/// What was read is what the grammar says, and the place behind it lies
/// behind `pos`.
pub open spec fn reads<T: View>(
    r: Result<(T, usize), CompilationError>,
    expected: Parsed<T::V>,
    pos: int,
    len: int,
) -> bool {
    match r {
        Ok((value, p)) => expected == done(value@, p as int) && pos < p <= len,
        Err(e) => expected == failed::<T::V>(e@),
    }
}

/// What was read behind `left` is what the grammar says, and the place
/// behind it lies at or behind `pos`.
pub open spec fn reads_on<T: View>(
    r: Result<(T, usize), CompilationError>,
    expected: Parsed<T::V>,
    pos: int,
    len: int,
) -> bool {
    match r {
        Ok((value, p)) => expected == done(value@, p as int) && pos <= p <= len,
        Err(e) => expected == failed::<T::V>(e@),
    }
}

/// The list `before` has grown to `after` by what the grammar says, and the
/// place behind the list lies at or behind `pos`.
pub open spec fn reads_list<V>(
    r: Result<usize, CompilationError>,
    before: Seq<V>,
    after: Seq<V>,
    expected: Parsed<Seq<V>>,
    pos: int,
    len: int,
) -> bool {
    match r {
        Ok(p) => expected is Ok && after == before + expected->Ok_0.0 && expected->Ok_0.1 == p
            && pos <= p <= len,
        Err(e) => expected == failed::<Seq<V>>(e@),
    }
}

fn as_parameter(e: PreExp) -> (r: Option<Parameter>)
    ensures
        match r {
            Some(p) => grammar::as_parameter(e@) == Some(p@),
            None => grammar::as_parameter(e@) is None,
        },
{
    match e {
        PreExp::Number(n) => Some(Parameter::Number(n.value)),
        PreExp::Variable(name) => Some(Parameter::Variable(name.value)),
        PreExp::CompoundVariable(c) => Some(Parameter::CompoundVariable(c.value)),
        PreExp::ArrayAccess(a) => Some(Parameter::ArrayAccess(a.value)),
        PreExp::FunctionCall(_, f) => Some(Parameter::FunctionCall(Box::new(f))),
        _ => None,
    }
}

fn part_text(kind: &TokenKind) -> (r: Option<String>)
    ensures
        match r {
            Some(s) => grammar::part_text(kind@) == Some(s@),
            None => grammar::part_text(kind@) is None,
        },
{
    match kind {
        TokenKind::Ident(s) => Some(s.clone()),
        TokenKind::Number(n) => Some(n.to_string()),
        _ => None,
    }
}

fn is_number(tokens: &Vec<Token>, pos: usize) -> (r: bool)
    requires
        pos < tokens.len(),
    ensures
        r == (token_views(tokens@)[pos as int].kind is Number),
{
    match &tokens[pos].kind {
        TokenKind::Number(_) => true,
        _ => false,
    }
}

fn is_ident(tokens: &Vec<Token>, pos: usize) -> (r: bool)
    requires
        pos < tokens.len(),
    ensures
        r == (token_views(tokens@)[pos as int].kind is Ident),
{
    match &tokens[pos].kind {
        TokenKind::Ident(_) => true,
        _ => false,
    }
}

fn braced_parts(tokens: &Vec<Token>, pos: usize, parts: &mut Vec<String>) -> (r: Option<
    (bool, usize),
>)
    requires
        tokens.len() <= most_tokens(),
        pos <= tokens.len(),
    ensures
        match r {
            Some((numeric, p)) => {
                let found = grammar::braced_parts_at(token_views(tokens@), pos as int);
                &&& found is Some
                &&& final(parts).deep_view() == old(parts).deep_view() + found->Some_0.0
                &&& numeric == found->Some_0.1
                &&& p == found->Some_0.2
                &&& pos < p <= tokens.len()
            },
            None => grammar::braced_parts_at(token_views(tokens@), pos as int) is None,
        },
    decreases tokens.len() - pos,
{
    if pos >= tokens.len() {
        return None;
    }
    let ghost before = parts.deep_view();
    match part_text(&tokens[pos].kind) {
        None => None,
        Some(text) => {
            let numeric = is_number(tokens, pos);
            let ghost first = text@;
            if is_symbol(tokens, pos + 1, Symbol::Comma) {
                parts.push(text);
                assert(parts.deep_view() =~= before.push(first));
                match braced_parts(tokens, pos + 2, parts) {
                    None => None,
                    Some((rest, p)) => {
                        proof {
                            let found = grammar::braced_parts_at(
                                token_views(tokens@),
                                pos + 2,
                            )->Some_0;
                            assert(before.push(first) + found.0 =~= before + (seq![first]
                                + found.0));
                        }
                        Some((numeric && rest, p))
                    },
                }
            } else if is_symbol(tokens, pos + 1, Symbol::RightBrace) {
                parts.push(text);
                assert(parts.deep_view() =~= before + seq![first]);
                Some((numeric, pos + 2))
            } else {
                None
            }
        },
    }
}

fn parts(tokens: &Vec<Token>, pos: usize, acc: &mut Vec<String>) -> (r: (bool, usize))
    requires
        tokens.len() <= most_tokens(),
        pos <= tokens.len(),
    ensures
        final(acc).deep_view() == old(acc).deep_view() + grammar::parts_at(
            token_views(tokens@),
            pos as int,
        ).0,
        r.0 == grammar::parts_at(token_views(tokens@), pos as int).1,
        r.1 == grammar::parts_at(token_views(tokens@), pos as int).2,
        pos <= r.1 <= tokens.len(),
    decreases tokens.len() - pos,
{
    let ghost before = acc.deep_view();
    let ghost ts = token_views(tokens@);
    if is_symbol(tokens, pos, Symbol::Underscore) && is_adjacent(tokens, pos) {
        if is_symbol(tokens, pos + 1, Symbol::LeftBrace) && is_adjacent(tokens, pos + 1) {
            let mut group: Vec<String> = Vec::new();
            assert(group.deep_view() =~= Seq::<Seq<char>>::empty());
            match braced_parts(tokens, pos + 2, &mut group) {
                Some((numeric, p)) => {
                    let ghost found = grammar::braced_parts_at(ts, pos + 2)->Some_0;
                    assert(group.deep_view() =~= found.0);
                    acc.append(&mut group);
                    assert(acc.deep_view() =~= before + found.0);
                    let (rest, q) = parts(tokens, p, acc);
                    proof {
                        let tail = grammar::parts_at(ts, p as int);
                        assert((before + found.0) + tail.0 =~= before + (found.0 + tail.0));
                    }
                    return (numeric && rest, q);
                },
                None => {},
            }
        }
        if pos + 1 < tokens.len() && is_adjacent(tokens, pos + 1) {
            match part_text(&tokens[pos + 1].kind) {
                Some(text) => {
                    let numeric = is_number(tokens, pos + 1);
                    let ghost first = text@;
                    acc.push(text);
                    assert(acc.deep_view() =~= before.push(first));
                    let (rest, q) = parts(tokens, pos + 2, acc);
                    proof {
                        let tail = grammar::parts_at(ts, pos + 2);
                        assert(before.push(first) + tail.0 =~= before + (seq![first] + tail.0));
                    }
                    return (numeric && rest, q);
                },
                None => {},
            }
        }
    }
    assert(acc.deep_view() =~= before + Seq::<Seq<char>>::empty());
    (true, pos)
}

fn joined_name(stem: &str, parts: &Vec<String>) -> (r: String)
    ensures
        r@ == grammar::joined_name(stem@, parts.deep_view(), 0),
{
    let mut name = owned(stem);
    let mut i: usize = 0;
    while i < parts.len()
        invariant
            i <= parts.len(),
            grammar::joined_name(stem@, parts.deep_view(), 0) == grammar::joined_name(
                name@,
                parts.deep_view(),
                i as int,
            ),
        decreases parts.len() - i,
    {
        assert(parts.deep_view()[i as int] == parts[i as int]@);
        name.append("_");
        name.append(parts[i].as_str());
        i = i + 1;
    }
    name
}

fn bound_name(tokens: &Vec<Token>, pos: usize) -> (r: Option<Spanned<String>>)
    ensures
        match r {
            Some(name) => grammar::bound_name_at(token_views(tokens@), pos as int) == Some(
                (name.span, name.value@),
            ),
            None => grammar::bound_name_at(token_views(tokens@), pos as int) is None,
        },
{
    if pos < tokens.len() {
        match &tokens[pos].kind {
            TokenKind::Ident(w) => if is_reserved(w.as_str()) {
                None
            } else {
                Some(Spanned::new(w.clone(), tokens[pos].span))
            },
            TokenKind::Symbol(s) => if *s == Symbol::Underscore {
                Some(Spanned::new(owned("_"), tokens[pos].span))
            } else {
                None
            },
            _ => None,
        }
    } else {
        None
    }
}

fn names(tokens: &Vec<Token>, pos: usize, acc: &mut Vec<Spanned<String>>) -> (r: Result<
    usize,
    CompilationError,
>)
    requires
        tokens.len() <= most_tokens(),
        pos <= tokens.len(),
    ensures
        reads_list(
            r,
            name_views(old(acc)@),
            name_views(final(acc)@),
            grammar::names_at(token_views(tokens@), pos as int),
            pos as int,
            tokens.len() as int,
        ),
        r is Ok ==> pos < r->Ok_0,
    decreases tokens.len() - pos,
{
    let ghost before = name_views(acc@);
    match bound_name(tokens, pos) {
        None => Err(unexpected(tokens, pos)),
        Some(name) => {
            let ghost first = (name.span, name.value@);
            acc.push(name);
            assert(name_views(acc@) =~= before + seq![first]);
            if is_symbol(tokens, pos + 1, Symbol::Comma) {
                match names(tokens, pos + 2, acc) {
                    Err(e) => Err(e),
                    Ok(q) => {
                        proof {
                            let rest = grammar::names_at(token_views(tokens@), pos + 2)->Ok_0.0;
                            assert((before + seq![first]) + rest =~= before + (seq![first]
                                + rest));
                        }
                        Ok(q)
                    },
                }
            } else {
                Ok(pos + 1)
            }
        },
    }
}

fn pattern(tokens: &Vec<Token>, pos: usize) -> (r: Result<(VariableType, usize), CompilationError>)
    requires
        tokens.len() <= most_tokens(),
        pos <= tokens.len(),
    ensures
        reads(
            r,
            grammar::pattern_at(token_views(tokens@), pos as int),
            pos as int,
            tokens.len() as int,
        ),
{
    if is_symbol(tokens, pos, Symbol::LeftParen) {
        let mut found: Vec<Spanned<String>> = Vec::new();
        assert(name_views(found@) =~= Seq::empty());
        match names(tokens, pos + 1, &mut found) {
            Err(e) => Err(e),
            Ok(p) => {
                assert(name_views(found@) =~= grammar::names_at(
                    token_views(tokens@),
                    pos + 1,
                )->Ok_0.0);
                if is_symbol(tokens, p, Symbol::RightParen) {
                    Ok((VariableType::Tuple(found), p + 1))
                } else {
                    Err(missing(tokens, p, ")"))
                }
            },
        }
    } else {
        match bound_name(tokens, pos) {
            Some(name) => Ok((VariableType::Single(name), pos + 1)),
            None => Err(unexpected(tokens, pos)),
        }
    }
}

fn primary(tokens: &Vec<Token>, pos: usize) -> (r: Result<(PreExp, usize), CompilationError>)
    requires
        tokens.len() <= most_tokens(),
        pos <= tokens.len(),
    ensures
        reads(
            r,
            grammar::primary_at(token_views(tokens@), pos as int),
            pos as int,
            tokens.len() as int,
        ),
    decreases tokens.len() - pos, 1nat,
{
    if pos >= tokens.len() {
        return Err(unexpected(tokens, pos));
    }
    let ghost ts = token_views(tokens@);
    let span = tokens[pos].span;
    match &tokens[pos].kind {
        TokenKind::Number(n) => {
            let number = PreExp::Number(Spanned::new(*n, span));
            assert(number@ == PreExpView::Number(span, *n));
            if is_adjacent(tokens, pos + 1) && (is_ident(tokens, pos + 1) || is_symbol(
                tokens,
                pos + 1,
                Symbol::LeftParen,
            )) {
                match primary(tokens, pos + 1) {
                    Err(e) => Err(e),
                    Ok((factor, p)) => Ok(
                        (
                            PreExp::BinaryOperation(
                                Spanned::new(Op::Mul, span),
                                Box::new(number),
                                Box::new(factor),
                            ),
                            p,
                        ),
                    ),
                }
            } else {
                Ok((number, pos + 1))
            }
        },
        TokenKind::Ident(word) => {
            let scoped_kind = BlockScopedFunctionKind::from_str(word.as_str());
            let block_kind = BlockFunctionKind::from_str(word.as_str());
            if scoped_kind.is_ok() && is_symbol(tokens, pos + 1, Symbol::LeftParen) {
                match scoped_kind {
                    Ok(kind) => scoped(tokens, pos, kind),
                    Err(_) => Err(unexpected(tokens, pos)),
                }
            } else if block_kind.is_ok() && is_symbol(tokens, pos + 1, Symbol::LeftBrace) {
                match block_kind {
                    Ok(kind) => block(tokens, pos, kind),
                    Err(_) => Err(unexpected(tokens, pos)),
                }
            } else if is_reserved(word.as_str()) {
                Err(unexpected(tokens, pos))
            } else {
                let mut indexes: Vec<String> = Vec::new();
                assert(indexes.deep_view() =~= Seq::<Seq<char>>::empty());
                let (numeric, end) = parts(tokens, pos + 1, &mut indexes);
                assert(indexes.deep_view() =~= grammar::parts_at(ts, pos + 1).0);
                if is_symbol(tokens, end, Symbol::LeftParen) && is_adjacent(tokens, end) {
                    let whole = joined_name(word.as_str(), &indexes);
                    call(tokens, pos, whole.as_str(), end)
                } else if is_symbol(tokens, pos + 1, Symbol::LeftBracket) {
                    access(tokens, pos, word.as_str())
                } else {
                    Ok(name(tokens, pos, word.as_str(), indexes, numeric, end))
                }
            }
        },
        TokenKind::Symbol(sign) => {
            if *sign == Symbol::LeftParen {
                match exp(tokens, pos + 1) {
                    Err(e) => Err(e),
                    Ok((inner, p)) => if is_symbol(tokens, p, Symbol::RightParen) {
                        Ok((inner, p + 1))
                    } else {
                        Err(missing(tokens, p, ")"))
                    },
                }
            } else if *sign == Symbol::Bar {
                match exp(tokens, pos + 1) {
                    Err(e) => Err(e),
                    Ok((inner, p)) => if is_symbol(tokens, p, Symbol::Bar) {
                        Ok((PreExp::Mod(span, Box::new(inner)), p + 1))
                    } else {
                        Err(missing(tokens, p, "|"))
                    },
                }
            } else {
                Err(unexpected(tokens, pos))
            }
        },
        _ => Err(unexpected(tokens, pos)),
    }
}

fn block(tokens: &Vec<Token>, pos: usize, kind: BlockFunctionKind) -> (r: Result<
    (PreExp, usize),
    CompilationError,
>)
    requires
        tokens.len() <= most_tokens(),
        pos <= tokens.len(),
    ensures
        reads(
            r,
            grammar::block_at(token_views(tokens@), pos as int, kind),
            pos as int,
            tokens.len() as int,
        ),
    decreases tokens.len() - pos, 0nat,
{
    if pos >= tokens.len() || !is_symbol(tokens, pos + 1, Symbol::LeftBrace) {
        return Err(unexpected(tokens, pos));
    }
    let mut items: Vec<PreExp> = Vec::new();
    assert(pre_exp_views(items@) =~= Seq::empty());
    match exps(tokens, pos + 2, &mut items) {
        Err(e) => Err(e),
        Ok(close) => {
            assert(pre_exp_views(items@) =~= grammar::exps_at(
                token_views(tokens@),
                pos + 2,
            )->Ok_0.0);
            if is_symbol(tokens, close, Symbol::RightBrace) {
                Ok(
                    (
                        PreExp::BlockFunction(
                            Spanned::new(BlockFunction::new(kind, items), tokens[pos].span),
                        ),
                        close + 1,
                    ),
                )
            } else {
                Err(missing(tokens, close, "}"))
            }
        },
    }
}

fn call(tokens: &Vec<Token>, pos: usize, name: &str, open: usize) -> (r: Result<
    (PreExp, usize),
    CompilationError,
>)
    requires
        tokens.len() <= most_tokens(),
        pos <= tokens.len(),
        open <= tokens.len(),
    ensures
        reads(
            r,
            grammar::call_at(token_views(tokens@), pos as int, name@, open as int),
            pos as int,
            tokens.len() as int,
        ),
    decreases tokens.len() - pos, 0nat,
{
    if pos >= tokens.len() || open <= pos || !is_symbol(tokens, open, Symbol::LeftParen) {
        return Err(unexpected(tokens, pos));
    }
    let mut params: Vec<Parameter> = Vec::new();
    assert(parameter_views(params@) =~= Seq::empty());
    match arguments(tokens, open + 1, &mut params) {
        Err(e) => Err(e),
        Ok(close) => {
            assert(parameter_views(params@) =~= grammar::arguments_at(
                token_views(tokens@),
                open + 1,
            )->Ok_0.0);
            if is_symbol(tokens, close, Symbol::RightParen) {
                match BuiltinFunction::with_arguments(name, params) {
                    Err(kind) => Err(error_at(kind, tokens, pos)),
                    Ok(found) => Ok((PreExp::FunctionCall(tokens[pos].span, found), close + 1)),
                }
            } else {
                Err(missing(tokens, close, ")"))
            }
        },
    }
}

fn access(tokens: &Vec<Token>, pos: usize, word: &str) -> (r: Result<
    (PreExp, usize),
    CompilationError,
>)
    requires
        tokens.len() <= most_tokens(),
        pos <= tokens.len(),
    ensures
        reads(
            r,
            grammar::access_at(token_views(tokens@), pos as int, word@),
            pos as int,
            tokens.len() as int,
        ),
    decreases tokens.len() - pos, 0nat,
{
    if pos >= tokens.len() {
        return Err(unexpected(tokens, pos));
    }
    let mut indexes: Vec<PreExp> = Vec::new();
    assert(pre_exp_views(indexes@) =~= Seq::empty());
    match accesses(tokens, pos + 1, &mut indexes) {
        Err(e) => Err(e),
        Ok(p) => {
            assert(pre_exp_views(indexes@) =~= grammar::accesses_at(
                token_views(tokens@),
                pos + 1,
            )->Ok_0.0);
            Ok(
                (
                    PreExp::ArrayAccess(
                        Spanned::new(AddressableAccess::new(owned(word), indexes), tokens[pos].span),
                    ),
                    p,
                ),
            )
        },
    }
}

fn name(
    tokens: &Vec<Token>,
    pos: usize,
    word: &str,
    indexes: Vec<String>,
    numeric: bool,
    end: usize,
) -> (r: (PreExp, usize))
    requires
        tokens.len() <= most_tokens(),
        pos < tokens.len(),
        indexes.deep_view() == grammar::parts_at(token_views(tokens@), pos + 1).0,
        numeric == grammar::parts_at(token_views(tokens@), pos + 1).1,
        end == grammar::parts_at(token_views(tokens@), pos + 1).2,
        pos < end <= tokens.len(),
    ensures
        (r.0@, r.1 as int) == grammar::name_at(token_views(tokens@), pos as int, word@),
        pos < r.1 <= tokens.len(),
{
    let span = tokens[pos].span;
    if indexes.len() == 0 {
        (PreExp::Variable(Spanned::new(owned(word), span)), pos + 1)
    } else if numeric {
        (PreExp::Variable(Spanned::new(joined_name(word, &indexes), span)), end)
    } else {
        (
            PreExp::CompoundVariable(
                Spanned::new(CompoundVariable::new(owned(word), indexes), span),
            ),
            end,
        )
    }
}

fn scoped(tokens: &Vec<Token>, pos: usize, kind: BlockScopedFunctionKind) -> (r: Result<
    (PreExp, usize),
    CompilationError,
>)
    requires
        tokens.len() <= most_tokens(),
        pos <= tokens.len(),
    ensures
        reads(
            r,
            grammar::scoped_at(token_views(tokens@), pos as int, kind),
            pos as int,
            tokens.len() as int,
        ),
    decreases tokens.len() - pos, 0nat,
{
    if pos >= tokens.len() || !is_symbol(tokens, pos + 1, Symbol::LeftParen) {
        return Err(unexpected(tokens, pos));
    }
    let ghost ts = token_views(tokens@);
    let mut sets_found: Vec<IterableSet> = Vec::new();
    assert(set_views(sets_found@) =~= Seq::empty());
    match sets(tokens, pos + 2, &mut sets_found) {
        Err(e) => Err(e),
        Ok(close) => {
            assert(set_views(sets_found@) =~= grammar::sets_at(ts, pos + 2)->Ok_0.0);
            if !is_symbol(tokens, close, Symbol::RightParen) {
                Err(missing(tokens, close, ")"))
            } else if !is_symbol(tokens, close + 1, Symbol::LeftBrace) {
                Err(missing(tokens, close + 1, "{"))
            } else {
                match exp(tokens, close + 2) {
                    Err(e) => Err(e),
                    Ok((body, q)) => if is_symbol(tokens, q, Symbol::RightBrace) {
                        Ok(
                            (
                                PreExp::BlockScopedFunction(
                                    Spanned::new(
                                        BlockScopedFunction::new(kind, sets_found, Box::new(body)),
                                        tokens[pos].span,
                                    ),
                                ),
                                q + 1,
                            ),
                        )
                    } else {
                        Err(missing(tokens, q, "}"))
                    },
                }
            }
        },
    }
}

fn unary(tokens: &Vec<Token>, pos: usize) -> (r: Result<(PreExp, usize), CompilationError>)
    requires
        tokens.len() <= most_tokens(),
        pos <= tokens.len(),
    ensures
        reads(
            r,
            grammar::unary_at(token_views(tokens@), pos as int),
            pos as int,
            tokens.len() as int,
        ),
    decreases tokens.len() - pos, 2nat,
{
    if is_symbol(tokens, pos, Symbol::Minus) {
        match unary(tokens, pos + 1) {
            Err(e) => Err(e),
            Ok((inner, p)) => Ok(
                (
                    PreExp::UnaryOperation(
                        Spanned::new(UnOp::Neg, tokens[pos].span),
                        Box::new(inner),
                    ),
                    p,
                ),
            ),
        }
    } else {
        primary(tokens, pos)
    }
}

fn term_rest(tokens: &Vec<Token>, pos: usize, left: PreExp) -> (r: Result<
    (PreExp, usize),
    CompilationError,
>)
    requires
        tokens.len() <= most_tokens(),
        pos <= tokens.len(),
    ensures
        reads_on(
            r,
            grammar::term_rest(token_views(tokens@), pos as int, left@),
            pos as int,
            tokens.len() as int,
        ),
    decreases tokens.len() - pos, 3nat,
{
    let times = is_symbol(tokens, pos, Symbol::Star);
    if times || is_symbol(tokens, pos, Symbol::Slash) {
        let op = if times {
            Op::Mul
        } else {
            Op::Div
        };
        match unary(tokens, pos + 1) {
            Err(e) => Err(e),
            Ok((right, p)) => term_rest(
                tokens,
                p,
                PreExp::BinaryOperation(
                    Spanned::new(op, tokens[pos].span),
                    Box::new(left),
                    Box::new(right),
                ),
            ),
        }
    } else {
        Ok((left, pos))
    }
}

fn term(tokens: &Vec<Token>, pos: usize) -> (r: Result<(PreExp, usize), CompilationError>)
    requires
        tokens.len() <= most_tokens(),
        pos <= tokens.len(),
    ensures
        reads(
            r,
            grammar::term_at(token_views(tokens@), pos as int),
            pos as int,
            tokens.len() as int,
        ),
    decreases tokens.len() - pos, 4nat,
{
    match unary(tokens, pos) {
        Err(e) => Err(e),
        Ok((left, p)) => term_rest(tokens, p, left),
    }
}

fn exp_rest(tokens: &Vec<Token>, pos: usize, left: PreExp) -> (r: Result<
    (PreExp, usize),
    CompilationError,
>)
    requires
        tokens.len() <= most_tokens(),
        pos <= tokens.len(),
    ensures
        reads_on(
            r,
            grammar::exp_rest(token_views(tokens@), pos as int, left@),
            pos as int,
            tokens.len() as int,
        ),
    decreases tokens.len() - pos, 5nat,
{
    let plus = is_symbol(tokens, pos, Symbol::Plus);
    if plus || is_symbol(tokens, pos, Symbol::Minus) {
        let op = if plus {
            Op::Add
        } else {
            Op::Sub
        };
        match term(tokens, pos + 1) {
            Err(e) => Err(e),
            Ok((right, p)) => exp_rest(
                tokens,
                p,
                PreExp::BinaryOperation(
                    Spanned::new(op, tokens[pos].span),
                    Box::new(left),
                    Box::new(right),
                ),
            ),
        }
    } else {
        Ok((left, pos))
    }
}

fn exp(tokens: &Vec<Token>, pos: usize) -> (r: Result<(PreExp, usize), CompilationError>)
    requires
        tokens.len() <= most_tokens(),
        pos <= tokens.len(),
    ensures
        reads(
            r,
            grammar::exp_at(token_views(tokens@), pos as int),
            pos as int,
            tokens.len() as int,
        ),
    decreases tokens.len() - pos, 6nat,
{
    match term(tokens, pos) {
        Err(e) => Err(e),
        Ok((left, p)) => exp_rest(tokens, p, left),
    }
}

fn exps(tokens: &Vec<Token>, pos: usize, acc: &mut Vec<PreExp>) -> (r: Result<
    usize,
    CompilationError,
>)
    requires
        tokens.len() <= most_tokens(),
        pos <= tokens.len(),
    ensures
        reads_list(
            r,
            pre_exp_views(old(acc)@),
            pre_exp_views(final(acc)@),
            grammar::exps_at(token_views(tokens@), pos as int),
            pos as int,
            tokens.len() as int,
        ),
    decreases tokens.len() - pos, 7nat,
{
    let ghost before = pre_exp_views(acc@);
    match exp(tokens, pos) {
        Err(e) => Err(e),
        Ok((first, p)) => {
            let ghost head = first@;
            acc.push(first);
            assert(pre_exp_views(acc@) =~= before + seq![head]);
            if is_symbol(tokens, p, Symbol::Comma) {
                match exps(tokens, p + 1, acc) {
                    Err(e) => Err(e),
                    Ok(q) => {
                        proof {
                            let rest = grammar::exps_at(token_views(tokens@), p + 1)->Ok_0.0;
                            assert((before + seq![head]) + rest =~= before + (seq![head] + rest));
                        }
                        Ok(q)
                    },
                }
            } else {
                Ok(p)
            }
        },
    }
}

fn argument(tokens: &Vec<Token>, pos: usize) -> (r: Result<(Parameter, usize), CompilationError>)
    requires
        tokens.len() <= most_tokens(),
        pos <= tokens.len(),
    ensures
        reads(
            r,
            grammar::argument_at(token_views(tokens@), pos as int),
            pos as int,
            tokens.len() as int,
        ),
    decreases tokens.len() - pos, 7nat,
{
    if pos < tokens.len() {
        match &tokens[pos].kind {
            TokenKind::Text(s) => {
                return Ok((Parameter::String(s.clone()), pos + 1));
            },
            _ => {},
        }
    }
    match exp(tokens, pos) {
        Err(e) => Err(e),
        Ok((e, p)) => match as_parameter(e) {
            Some(param) => Ok((param, p)),
            None => Err(
                error_at(
                    ParseError::SemanticError(
                        owned(
                            "Only a number, a text, a name, an access or a call can be an argument",
                        ),
                    ),
                    tokens,
                    pos,
                ),
            ),
        },
    }
}

fn arguments(tokens: &Vec<Token>, pos: usize, acc: &mut Vec<Parameter>) -> (r: Result<
    usize,
    CompilationError,
>)
    requires
        tokens.len() <= most_tokens(),
        pos <= tokens.len(),
    ensures
        reads_list(
            r,
            parameter_views(old(acc)@),
            parameter_views(final(acc)@),
            grammar::arguments_at(token_views(tokens@), pos as int),
            pos as int,
            tokens.len() as int,
        ),
    decreases tokens.len() - pos, 9nat,
{
    if is_symbol(tokens, pos, Symbol::RightParen) {
        assert(parameter_views(acc@) =~= parameter_views(acc@) + Seq::<ParameterView>::empty());
        Ok(pos)
    } else {
        arguments_rest(tokens, pos, acc)
    }
}

fn arguments_rest(tokens: &Vec<Token>, pos: usize, acc: &mut Vec<Parameter>) -> (r: Result<
    usize,
    CompilationError,
>)
    requires
        tokens.len() <= most_tokens(),
        pos <= tokens.len(),
    ensures
        reads_list(
            r,
            parameter_views(old(acc)@),
            parameter_views(final(acc)@),
            grammar::arguments_rest(token_views(tokens@), pos as int),
            pos as int,
            tokens.len() as int,
        ),
    decreases tokens.len() - pos, 8nat,
{
    let ghost before = parameter_views(acc@);
    match argument(tokens, pos) {
        Err(e) => Err(e),
        Ok((first, p)) => {
            let ghost head = first@;
            acc.push(first);
            assert(parameter_views(acc@) =~= before + seq![head]);
            if is_symbol(tokens, p, Symbol::Comma) {
                match arguments_rest(tokens, p + 1, acc) {
                    Err(e) => Err(e),
                    Ok(q) => {
                        proof {
                            let rest = grammar::arguments_rest(
                                token_views(tokens@),
                                p + 1,
                            )->Ok_0.0;
                            assert((before + seq![head]) + rest =~= before + (seq![head] + rest));
                        }
                        Ok(q)
                    },
                }
            } else {
                Ok(p)
            }
        },
    }
}

fn accesses(tokens: &Vec<Token>, pos: usize, acc: &mut Vec<PreExp>) -> (r: Result<
    usize,
    CompilationError,
>)
    requires
        tokens.len() <= most_tokens(),
        pos <= tokens.len(),
    ensures
        reads_list(
            r,
            pre_exp_views(old(acc)@),
            pre_exp_views(final(acc)@),
            grammar::accesses_at(token_views(tokens@), pos as int),
            pos as int,
            tokens.len() as int,
        ),
    decreases tokens.len() - pos, 8nat,
{
    let ghost before = pre_exp_views(acc@);
    if is_symbol(tokens, pos, Symbol::LeftBracket) {
        match exp(tokens, pos + 1) {
            Err(e) => Err(e),
            Ok((index, p)) => if is_symbol(tokens, p, Symbol::RightBracket) {
                let ghost head = index@;
                acc.push(index);
                assert(pre_exp_views(acc@) =~= before + seq![head]);
                match accesses(tokens, p + 1, acc) {
                    Err(e) => Err(e),
                    Ok(q) => {
                        proof {
                            let rest = grammar::accesses_at(token_views(tokens@), p + 1)->Ok_0.0;
                            assert((before + seq![head]) + rest =~= before + (seq![head] + rest));
                        }
                        Ok(q)
                    },
                }
            } else {
                Err(missing(tokens, p, "]"))
            },
        }
    } else {
        assert(before =~= before + Seq::<PreExpView>::empty());
        Ok(pos)
    }
}

fn range_between(span: InputSpan, from: PreExp, to: PreExp) -> (r: Option<PreExp>)
    ensures
        match r {
            Some(range) => grammar::range_between(span, from@, to@) == Some(range@),
            None => grammar::range_between(span, from@, to@) is None,
        },
{
    match as_parameter(from) {
        None => None,
        Some(a) => match as_parameter(to) {
            None => None,
            Some(b) => {
                let range = BuiltinFunction::Range(NumericRange { from: a, to: b });
                assert(range@ == CallView::Range(a@, b@));
                Some(PreExp::FunctionCall(span, range))
            },
        },
    }
}

fn producer(tokens: &Vec<Token>, pos: usize) -> (r: Result<(PreExp, usize), CompilationError>)
    requires
        tokens.len() <= most_tokens(),
        pos <= tokens.len(),
    ensures
        reads(
            r,
            grammar::producer_at(token_views(tokens@), pos as int),
            pos as int,
            tokens.len() as int,
        ),
    decreases tokens.len() - pos, 7nat,
{
    match exp(tokens, pos) {
        Err(e) => Err(e),
        Ok((from, dots)) => if is_symbol(tokens, dots, Symbol::DotDot) {
            match exp(tokens, dots + 1) {
                Err(e) => Err(e),
                Ok((to, q)) => match range_between(tokens[dots].span, from, to) {
                    Some(range) => Ok((range, q)),
                    None => Err(
                        error_at(
                            ParseError::SemanticError(
                                owned(
                                    "Only a number, a name, an access or a call can bound a range",
                                ),
                            ),
                            tokens,
                            dots,
                        ),
                    ),
                },
            }
        } else {
            Ok((from, dots))
        },
    }
}

fn set(tokens: &Vec<Token>, pos: usize) -> (r: Result<(IterableSet, usize), CompilationError>)
    requires
        tokens.len() <= most_tokens(),
        pos <= tokens.len(),
    ensures
        reads(
            r,
            grammar::set_at(token_views(tokens@), pos as int),
            pos as int,
            tokens.len() as int,
        ),
    decreases tokens.len() - pos, 8nat,
{
    match pattern(tokens, pos) {
        Err(e) => Err(e),
        Ok((var, keyword)) => {
            if !is_word(tokens, keyword, "in") {
                Err(missing(tokens, keyword, "in"))
            } else {
                match producer(tokens, keyword + 1) {
                    Err(e) => Err(e),
                    Ok((iterator, q)) => {
                        let iterator_span = if keyword + 1 < tokens.len() {
                            tokens[keyword + 1].span
                        } else {
                            tokens[keyword].span
                        };
                        Ok(
                            (
                                IterableSet::new(
                                    var,
                                    Spanned::new(iterator, iterator_span),
                                    tokens[keyword].span,
                                ),
                                q,
                            ),
                        )
                    },
                }
            }
        },
    }
}

fn sets(tokens: &Vec<Token>, pos: usize, acc: &mut Vec<IterableSet>) -> (r: Result<
    usize,
    CompilationError,
>)
    requires
        tokens.len() <= most_tokens(),
        pos <= tokens.len(),
    ensures
        reads_list(
            r,
            set_views(old(acc)@),
            set_views(final(acc)@),
            grammar::sets_at(token_views(tokens@), pos as int),
            pos as int,
            tokens.len() as int,
        ),
    decreases tokens.len() - pos, 9nat,
{
    let ghost before = set_views(acc@);
    match set(tokens, pos) {
        Err(e) => Err(e),
        Ok((first, p)) => {
            let ghost head = first@;
            acc.push(first);
            assert(set_views(acc@) =~= before + seq![head]);
            if is_symbol(tokens, p, Symbol::Comma) {
                match sets(tokens, p + 1, acc) {
                    Err(e) => Err(e),
                    Ok(q) => {
                        proof {
                            let rest = grammar::sets_at(token_views(tokens@), p + 1)->Ok_0.0;
                            assert((before + seq![head]) + rest =~= before + (seq![head] + rest));
                        }
                        Ok(q)
                    },
                }
            } else {
                Ok(p)
            }
        },
    }
}

fn comparison(tokens: &Vec<Token>, pos: usize) -> (r: Option<Comparison>)
    ensures
        r == grammar::comparison_at(token_views(tokens@), pos as int),
{
    if is_symbol(tokens, pos, Symbol::LowerOrEqual) {
        Some(Comparison::LowerOrEqual)
    } else if is_symbol(tokens, pos, Symbol::UpperOrEqual) {
        Some(Comparison::UpperOrEqual)
    } else if is_symbol(tokens, pos, Symbol::Equal) {
        Some(Comparison::Equal)
    } else {
        None
    }
}

fn condition(tokens: &Vec<Token>, pos: usize) -> (r: Result<
    (PreCondition, usize),
    CompilationError,
>)
    requires
        tokens.len() <= most_tokens(),
        pos <= tokens.len(),
    ensures
        reads(
            r,
            grammar::condition_at(token_views(tokens@), pos as int),
            pos as int,
            tokens.len() as int,
        ),
{
    let ghost ts = token_views(tokens@);
    match exp(tokens, pos) {
        Err(e) => Err(e),
        Ok((lhs, sign)) => match comparison(tokens, sign) {
            None => Err(missing(tokens, sign, "a comparison")),
            Some(condition_type) => match exp(tokens, sign + 1) {
                Err(e) => Err(e),
                Ok((rhs, end)) => {
                    let mut iteration: Vec<IterableSet> = Vec::new();
                    assert(set_views(iteration@) =~= Seq::empty());
                    if is_word(tokens, end, "for") {
                        match sets(tokens, end + 1, &mut iteration) {
                            Err(e) => Err(e),
                            Ok(after) => {
                                assert(set_views(iteration@) =~= grammar::sets_at(
                                    ts,
                                    end + 1,
                                )->Ok_0.0);
                                Ok(
                                    (
                                        PreCondition::new(
                                            lhs,
                                            condition_type,
                                            rhs,
                                            iteration,
                                            tokens[sign].span,
                                        ),
                                        after,
                                    ),
                                )
                            },
                        }
                    } else {
                        Ok(
                            (
                                PreCondition::new(
                                    lhs,
                                    condition_type,
                                    rhs,
                                    iteration,
                                    tokens[sign].span,
                                ),
                                end,
                            ),
                        )
                    }
                },
            },
        },
    }
}

fn ends_block(tokens: &Vec<Token>, pos: usize) -> (r: bool)
    ensures
        r == grammar::ends_block(token_views(tokens@), pos as int),
{
    pos >= tokens.len() || is_word(tokens, pos, "where") || is_word(tokens, pos, "define")
}

fn is_separator(tokens: &Vec<Token>, pos: usize) -> (r: bool)
    ensures
        r == (pos < tokens.len() && token_views(tokens@)[pos as int].kind is Separator),
{
    if pos < tokens.len() {
        match &tokens[pos].kind {
            TokenKind::Separator => true,
            _ => false,
        }
    } else {
        false
    }
}

fn ends_line(tokens: &Vec<Token>, pos: usize) -> (r: bool)
    ensures
        r == grammar::ends_line(token_views(tokens@), pos as int),
{
    ends_block(tokens, pos) || is_separator(tokens, pos)
}

#[verifier::spinoff_prover]
#[verifier::rlimit(60)]
fn conditions(tokens: &Vec<Token>, pos: usize, acc: &mut Vec<PreCondition>) -> (r: Result<
    usize,
    CompilationError,
>)
    requires
        tokens.len() <= most_tokens(),
        pos <= tokens.len(),
    ensures
        reads_list(
            r,
            pre_condition_views(old(acc)@),
            pre_condition_views(final(acc)@),
            grammar::conditions_at(token_views(tokens@), pos as int),
            pos as int,
            tokens.len() as int,
        ),
    decreases tokens.len() - pos,
{
    let ghost before = pre_condition_views(acc@);
    let start = skip_separators(tokens, pos);
    if ends_block(tokens, start) {
        assert(before =~= before + Seq::empty());
        Ok(start)
    } else {
        match condition(tokens, start) {
            Err(e) => Err(e),
            Ok((first, next)) => {
                if !ends_line(tokens, next) {
                    Err(unexpected(tokens, next))
                } else {
                    let ghost head = first@;
                    acc.push(first);
                    assert(pre_condition_views(acc@) =~= before + seq![head]);
                    match conditions(tokens, next, acc) {
                        Err(e) => Err(e),
                        Ok(q) => {
                            proof {
                                let rest = grammar::conditions_at(
                                    token_views(tokens@),
                                    next as int,
                                )->Ok_0.0;
                                assert((before + seq![head]) + rest =~= before + (seq![head]
                                    + rest));
                            }
                            Ok(q)
                        },
                    }
                }
            },
        }
    }
}

fn objective(tokens: &Vec<Token>, pos: usize) -> (r: Result<
    (PreObjective, usize),
    CompilationError,
>)
    requires
        tokens.len() <= most_tokens(),
        pos <= tokens.len(),
    ensures
        match r {
            Ok((found, p)) => grammar::objective_at(token_views(tokens@), pos as int) == done(
                (found.objective_type, found.rhs@),
                p as int,
            ) && pos < p <= tokens.len(),
            Err(e) => grammar::objective_at(token_views(tokens@), pos as int) == failed::<
                (OptimizationType, PreExpView),
            >(e@),
        },
{
    let least = is_word(tokens, pos, "min");
    if least || is_word(tokens, pos, "max") {
        match exp(tokens, pos + 1) {
            Err(e) => Err(e),
            Ok((rhs, p)) => Ok(
                (
                    PreObjective::new(
                        if least {
                            OptimizationType::Min
                        } else {
                            OptimizationType::Max
                        },
                        rhs,
                    ),
                    p,
                ),
            ),
        }
    } else if is_word(tokens, pos, "solve") {
        let zero = PreExp::Number(Spanned::new(Number::zero(), tokens[pos].span));
        assert(zero@ == PreExpView::Number(tokens[pos as int].span, grammar::zero_number()));
        Ok((PreObjective::new(OptimizationType::Satisfy, zero), pos + 1))
    } else {
        Err(missing(tokens, pos, "min, max or solve"))
    }
}

fn signed_number(tokens: &Vec<Token>, pos: usize) -> (r: Option<(Number, usize)>)
    requires
        tokens.len() <= most_tokens(),
    ensures
        match r {
            Some((n, p)) => grammar::signed_number_at(token_views(tokens@), pos as int) == Some(
                (n, p as int),
            ) && pos < p <= tokens.len(),
            None => grammar::signed_number_at(token_views(tokens@), pos as int) is None,
        },
{
    if pos >= tokens.len() {
        return None;
    }
    match &tokens[pos].kind {
        TokenKind::Number(n) => Some((*n, pos + 1)),
        _ => {
            if is_symbol(tokens, pos, Symbol::Minus) && pos + 1 < tokens.len() {
                match &tokens[pos + 1].kind {
                    TokenKind::Number(n) => Some((n.negate(), pos + 2)),
                    _ => None,
                }
            } else {
                None
            }
        },
    }
}

fn edges(tokens: &Vec<Token>, pos: usize, from: &str, acc: &mut Vec<GraphEdge>) -> (r: Result<
    usize,
    CompilationError,
>)
    requires
        tokens.len() <= most_tokens(),
        pos <= tokens.len(),
    ensures
        reads_list(
            r,
            edge_views(old(acc)@),
            edge_views(final(acc)@),
            grammar::edges_at(token_views(tokens@), pos as int, from@),
            pos as int,
            tokens.len() as int,
        ),
        r is Ok ==> pos < r->Ok_0,
    decreases tokens.len() - pos,
{
    let ghost before = edge_views(acc@);
    let ghost ts = token_views(tokens@);
    if pos >= tokens.len() {
        return Err(unexpected(tokens, pos));
    }
    match &tokens[pos].kind {
        TokenKind::Ident(to) => {
            let mut weight: Option<Number> = None;
            let mut after: usize = pos + 1;
            if is_symbol(tokens, pos + 1, Symbol::Colon) {
                match signed_number(tokens, pos + 2) {
                    None => {
                        return Err(unexpected(tokens, pos + 2));
                    },
                    Some((n, p)) => {
                        weight = Some(n);
                        after = p;
                    },
                }
            }
            let edge = GraphEdge::new(owned(from), to.clone(), weight);
            let ghost head = edge@;
            acc.push(edge);
            assert(edge_views(acc@) =~= before + seq![head]);
            if is_symbol(tokens, after, Symbol::Comma) {
                match edges(tokens, after + 1, from, acc) {
                    Err(e) => Err(e),
                    Ok(q) => {
                        proof {
                            let rest = grammar::edges_at(ts, after + 1, from@)->Ok_0.0;
                            assert((before + seq![head]) + rest =~= before + (seq![head] + rest));
                        }
                        Ok(q)
                    },
                }
            } else {
                Ok(after)
            }
        },
        _ => Err(unexpected(tokens, pos)),
    }
}

fn nodes(tokens: &Vec<Token>, pos: usize, acc: &mut Vec<GraphNode>) -> (r: Result<
    usize,
    CompilationError,
>)
    requires
        tokens.len() <= most_tokens(),
        pos <= tokens.len(),
    ensures
        reads_list(
            r,
            node_views(old(acc)@),
            node_views(final(acc)@),
            grammar::nodes_at(token_views(tokens@), pos as int),
            pos as int,
            tokens.len() as int,
        ),
        r is Ok ==> r->Ok_0 < tokens.len(),
    decreases tokens.len() - pos,
{
    let ghost before = node_views(acc@);
    let ghost ts = token_views(tokens@);
    if pos >= tokens.len() {
        return Err(missing(tokens, pos, "}"));
    }
    if is_separator(tokens, pos) || is_symbol(tokens, pos, Symbol::Comma) {
        return nodes(tokens, pos + 1, acc);
    }
    if is_symbol(tokens, pos, Symbol::RightBrace) {
        assert(before =~= before + Seq::empty());
        return Ok(pos);
    }
    match &tokens[pos].kind {
        TokenKind::Ident(name) => {
            let mut found: Vec<GraphEdge> = Vec::new();
            assert(edge_views(found@) =~= Seq::empty());
            let mut next: usize = pos + 1;
            if is_symbol(tokens, pos + 1, Symbol::Arrow) {
                if !is_symbol(tokens, pos + 2, Symbol::LeftBracket) {
                    return Err(missing(tokens, pos + 2, "["));
                } else if is_symbol(tokens, pos + 3, Symbol::RightBracket) {
                    next = pos + 4;
                } else {
                    match edges(tokens, pos + 3, name.as_str(), &mut found) {
                        Err(e) => {
                            return Err(e);
                        },
                        Ok(close) => {
                            assert(edge_views(found@) =~= grammar::edges_at(
                                ts,
                                pos + 3,
                                name@,
                            )->Ok_0.0);
                            if !is_symbol(tokens, close, Symbol::RightBracket) {
                                return Err(missing(tokens, close, "]"));
                            }
                            next = close + 1;
                        },
                    }
                }
            }
            let node = GraphNode::new(name.clone(), found);
            let ghost head = node@;
            acc.push(node);
            assert(node_views(acc@) =~= before + seq![head]);
            match nodes(tokens, next, acc) {
                Err(e) => Err(e),
                Ok(q) => {
                    proof {
                        let rest = grammar::nodes_at(ts, next as int)->Ok_0.0;
                        assert((before + seq![head]) + rest =~= before + (seq![head] + rest));
                    }
                    Ok(q)
                },
            }
        },
        _ => Err(unexpected(tokens, pos)),
    }
}

fn value(tokens: &Vec<Token>, pos: usize) -> (r: Result<(Primitive, usize), CompilationError>)
    requires
        tokens.len() <= most_tokens(),
        pos <= tokens.len(),
    ensures
        reads(
            r,
            grammar::value_at(token_views(tokens@), pos as int),
            pos as int,
            tokens.len() as int,
        ),
    decreases tokens.len() - pos, 0nat,
{
    let ghost ts = token_views(tokens@);
    if pos >= tokens.len() {
        return Err(unexpected(tokens, pos));
    }
    match signed_number(tokens, pos) {
        Some((n, p)) => {
            return Ok((Primitive::Number(n), p));
        },
        None => {},
    }
    match &tokens[pos].kind {
        TokenKind::Text(s) => {
            return Ok((Primitive::String(s.clone()), pos + 1));
        },
        _ => {},
    }
    if is_word(tokens, pos, "true") {
        Ok((Primitive::Boolean(true), pos + 1))
    } else if is_word(tokens, pos, "false") {
        Ok((Primitive::Boolean(false), pos + 1))
    } else if is_symbol(tokens, pos, Symbol::LeftBracket) {
        let mut items: Vec<Primitive> = Vec::new();
        assert(primitive_views(items@) =~= Seq::empty());
        match values(tokens, pos + 1, &mut items) {
            Err(e) => Err(e),
            Ok(close) => {
                assert(primitive_views(items@) =~= grammar::values_at(ts, pos + 1)->Ok_0.0);
                if !is_symbol(tokens, close, Symbol::RightBracket) {
                    Err(missing(tokens, close, "]"))
                } else {
                    match flatten_primitive_array_values(items) {
                        Ok(found) => Ok((found, close + 1)),
                        Err(message) => Err(
                            error_at(ParseError::SemanticError(message), tokens, pos),
                        ),
                    }
                }
            },
        }
    } else if is_word(tokens, pos, "Graph") {
        if !is_symbol(tokens, pos + 1, Symbol::LeftBrace) {
            Err(missing(tokens, pos + 1, "{"))
        } else {
            let mut vertices: Vec<GraphNode> = Vec::new();
            assert(node_views(vertices@) =~= Seq::empty());
            match nodes(tokens, pos + 2, &mut vertices) {
                Err(e) => Err(e),
                Ok(close) => {
                    assert(node_views(vertices@) =~= grammar::nodes_at(ts, pos + 2)->Ok_0.0);
                    Ok((Primitive::Graph(Graph::new(vertices)), close + 1))
                },
            }
        }
    } else {
        Err(unexpected(tokens, pos))
    }
}

fn values(tokens: &Vec<Token>, pos: usize, acc: &mut Vec<Primitive>) -> (r: Result<
    usize,
    CompilationError,
>)
    requires
        tokens.len() <= most_tokens(),
        pos <= tokens.len(),
    ensures
        reads_list(
            r,
            primitive_views(old(acc)@),
            primitive_views(final(acc)@),
            grammar::values_at(token_views(tokens@), pos as int),
            pos as int,
            tokens.len() as int,
        ),
    decreases tokens.len() - pos, 2nat,
{
    if is_symbol(tokens, pos, Symbol::RightBracket) {
        assert(primitive_views(acc@) =~= primitive_views(acc@) + Seq::<PrimitiveView>::empty());
        Ok(pos)
    } else {
        values_rest(tokens, pos, acc)
    }
}

fn values_rest(tokens: &Vec<Token>, pos: usize, acc: &mut Vec<Primitive>) -> (r: Result<
    usize,
    CompilationError,
>)
    requires
        tokens.len() <= most_tokens(),
        pos <= tokens.len(),
    ensures
        reads_list(
            r,
            primitive_views(old(acc)@),
            primitive_views(final(acc)@),
            grammar::values_rest(token_views(tokens@), pos as int),
            pos as int,
            tokens.len() as int,
        ),
    decreases tokens.len() - pos, 1nat,
{
    let ghost before = primitive_views(acc@);
    match value(tokens, pos) {
        Err(e) => Err(e),
        Ok((first, p)) => {
            let ghost head = first@;
            acc.push(first);
            assert(primitive_views(acc@) =~= before + seq![head]);
            if is_symbol(tokens, p, Symbol::Comma) {
                match values_rest(tokens, p + 1, acc) {
                    Err(e) => Err(e),
                    Ok(q) => {
                        proof {
                            let rest = grammar::values_rest(token_views(tokens@), p + 1)->Ok_0.0;
                            assert((before + seq![head]) + rest =~= before + (seq![head] + rest));
                        }
                        Ok(q)
                    },
                }
            } else {
                Ok(p)
            }
        },
    }
}

fn constants(tokens: &Vec<Token>, pos: usize, acc: &mut Vec<Constant>) -> (r: Result<
    usize,
    CompilationError,
>)
    requires
        tokens.len() <= most_tokens(),
        pos <= tokens.len(),
    ensures
        reads_list(
            r,
            constant_views(old(acc)@),
            constant_views(final(acc)@),
            grammar::constants_at(token_views(tokens@), pos as int),
            pos as int,
            tokens.len() as int,
        ),
    decreases tokens.len() - pos,
{
    let ghost before = constant_views(acc@);
    let start = skip_separators(tokens, pos);
    if ends_block(tokens, start) {
        assert(before =~= before + Seq::empty());
        return Ok(start);
    }
    match &tokens[start].kind {
        TokenKind::Ident(name) => {
            if is_reserved(name.as_str()) {
                return Err(unexpected(tokens, start));
            }
            if !is_symbol(tokens, start + 1, Symbol::Equal) {
                return Err(missing(tokens, start + 1, "="));
            }
            match value(tokens, start + 2) {
                Err(e) => Err(e),
                Ok((found, next)) => {
                    if !ends_line(tokens, next) {
                        Err(unexpected(tokens, next))
                    } else {
                        let constant = Constant::new(
                            Spanned::new(name.clone(), tokens[start].span),
                            found,
                        );
                        let ghost head = constant@;
                        acc.push(constant);
                        assert(constant_views(acc@) =~= before + seq![head]);
                        match constants(tokens, next, acc) {
                            Err(e) => Err(e),
                            Ok(q) => {
                                proof {
                                    let rest = grammar::constants_at(
                                        token_views(tokens@),
                                        next as int,
                                    )->Ok_0.0;
                                    assert((before + seq![head]) + rest =~= before + (seq![head]
                                        + rest));
                                }
                                Ok(q)
                            },
                        }
                    }
                },
            }
        },
        _ => Err(unexpected(tokens, start)),
    }
}

fn domain_named(w: &str) -> (r: Option<VariableDomain>)
    ensures
        r == grammar::domain_named(w@),
{
    if same_text(w, "Real") {
        Some(VariableDomain::Real)
    } else if same_text(w, "NonNegativeReal") {
        Some(VariableDomain::NonNegativeReal)
    } else if same_text(w, "Integer") {
        Some(VariableDomain::Integer)
    } else if same_text(w, "Boolean") {
        Some(VariableDomain::Boolean)
    } else {
        None
    }
}

fn declared_names(tokens: &Vec<Token>, pos: usize, acc: &mut Vec<Spanned<String>>) -> (r: Result<
    usize,
    CompilationError,
>)
    requires
        tokens.len() <= most_tokens(),
        pos <= tokens.len(),
    ensures
        reads_list(
            r,
            name_views(old(acc)@),
            name_views(final(acc)@),
            grammar::declared_names_at(token_views(tokens@), pos as int),
            pos as int,
            tokens.len() as int,
        ),
        r is Ok ==> pos < r->Ok_0,
    decreases tokens.len() - pos,
{
    let ghost before = name_views(acc@);
    let ghost ts = token_views(tokens@);
    if pos >= tokens.len() {
        return Err(unexpected(tokens, pos));
    }
    match &tokens[pos].kind {
        TokenKind::Ident(word) => {
            if is_reserved(word.as_str()) {
                return Err(unexpected(tokens, pos));
            }
            let mut indexes: Vec<String> = Vec::new();
            assert(indexes.deep_view() =~= Seq::<Seq<char>>::empty());
            let (numeric, after) = parts(tokens, pos + 1, &mut indexes);
            assert(indexes.deep_view() =~= grammar::parts_at(ts, pos + 1).0);
            let name = if indexes.len() > 0 && numeric {
                joined_name(word.as_str(), &indexes)
            } else {
                word.clone()
            };
            let ghost head = (tokens[pos as int].span, name@);
            acc.push(Spanned::new(name, tokens[pos].span));
            assert(name_views(acc@) =~= before + seq![head]);
            if is_symbol(tokens, after, Symbol::Comma) {
                match declared_names(tokens, after + 1, acc) {
                    Err(e) => Err(e),
                    Ok(q) => {
                        proof {
                            let rest = grammar::declared_names_at(ts, after + 1)->Ok_0.0;
                            assert((before + seq![head]) + rest =~= before + (seq![head] + rest));
                        }
                        Ok(q)
                    },
                }
            } else {
                Ok(after)
            }
        },
        _ => Err(unexpected(tokens, pos)),
    }
}

fn declare(names: &Vec<Spanned<String>>, domain: VariableDomain, acc: &mut Vec<DomainVariable>)
    ensures
        domain_views(final(acc)@) == domain_views(old(acc)@) + grammar::declared(
            name_views(names@),
            domain,
        ),
{
    let ghost before = domain_views(acc@);
    let ghost all = grammar::declared(name_views(names@), domain);
    let mut i: usize = 0;
    assert(domain_views(acc@) =~= before + all.take(0));
    while i < names.len()
        invariant
            i <= names.len(),
            all == grammar::declared(name_views(names@), domain),
            domain_views(acc@) == before + all.take(i as int),
        decreases names.len() - i,
    {
        let ghost sofar = domain_views(acc@);
        let name = Spanned::new(names[i].value.clone(), names[i].span);
        let variable = DomainVariable::new(name, domain);
        assert(name_views(names@)[i as int] == (names[i as int].span, names[i as int].value@));
        assert(variable@ == all[i as int]);
        acc.push(variable);
        assert(domain_views(acc@) =~= sofar.push(all[i as int]));
        assert(all.take(i + 1) =~= all.take(i as int).push(all[i as int]));
        i = i + 1;
    }
    assert(all.take(i as int) =~= all);
}

fn domain_at(tokens: &Vec<Token>, pos: usize) -> (r: Option<VariableDomain>)
    ensures
        match r {
            Some(d) => pos < tokens.len() && token_views(tokens@)[pos as int].kind is Ident
                && grammar::domain_named(token_views(tokens@)[pos as int].kind->Ident_0) == Some(
                d,
            ),
            None => pos >= tokens.len() || !(token_views(tokens@)[pos as int].kind is Ident)
                || grammar::domain_named(token_views(tokens@)[pos as int].kind->Ident_0) is None,
        },
{
    if pos < tokens.len() {
        match &tokens[pos].kind {
            TokenKind::Ident(w) => domain_named(w.as_str()),
            _ => None,
        }
    } else {
        None
    }
}

fn domains(tokens: &Vec<Token>, pos: usize, acc: &mut Vec<DomainVariable>) -> (r: Result<
    usize,
    CompilationError,
>)
    requires
        tokens.len() <= most_tokens(),
        pos <= tokens.len(),
    ensures
        reads_list(
            r,
            domain_views(old(acc)@),
            domain_views(final(acc)@),
            grammar::domains_at(token_views(tokens@), pos as int),
            pos as int,
            tokens.len() as int,
        ),
    decreases tokens.len() - pos,
{
    let ghost before = domain_views(acc@);
    let ghost ts = token_views(tokens@);
    let start = skip_separators(tokens, pos);
    if start >= tokens.len() {
        assert(before =~= before + Seq::empty());
        return Ok(start);
    }
    let mut found: Vec<Spanned<String>> = Vec::new();
    assert(name_views(found@) =~= Seq::empty());
    match declared_names(tokens, start, &mut found) {
        Err(e) => Err(e),
        Ok(keyword) => {
            assert(name_views(found@) =~= grammar::declared_names_at(ts, start as int)->Ok_0.0);
            if !is_word(tokens, keyword, "as") {
                Err(missing(tokens, keyword, "as"))
            } else {
                match domain_at(tokens, keyword + 1) {
                    None => Err(missing(tokens, keyword + 1, "a domain")),
                    Some(domain) => {
                        declare(&found, domain, acc);
                        let ghost head = grammar::declared(name_views(found@), domain);
                        match domains(tokens, keyword + 2, acc) {
                            Err(e) => Err(e),
                            Ok(q) => {
                                proof {
                                    let rest = grammar::domains_at(ts, keyword + 2)->Ok_0.0;
                                    assert((before + head) + rest =~= before + (head + rest));
                                }
                                Ok(q)
                            },
                        }
                    },
                }
            }
        },
    }
}

/// What a source says: the model, and the variables that it declares.
#[derive(Debug)]
pub struct PreModel {
    pub problem: PreProblem,
    pub domains: Vec<DomainVariable>,
}

impl View for PreModel {
    type V = PreModelView;

    open spec fn view(&self) -> PreModelView {
        PreModelView { problem: self.problem@, domains: domain_views(self.domains@) }
    }
}

impl PreModel {
    /// The model and its variables, taken apart.
    pub fn into_parts(self) -> (r: (PreProblem, Vec<DomainVariable>))
        ensures
            r.0 == self.problem,
            r.1 == self.domains,
    {
        (self.problem, self.domains)
    }
}

/// The model that the tokens write.
pub fn parse_tokens(tokens: &Vec<Token>) -> (r: Result<PreModel, CompilationError>)
    requires
        tokens.len() <= most_tokens(),
    ensures
        match r {
            Ok(model) => grammar::problem_at(token_views(tokens@)) == Ok::<
                PreModelView,
                CompilationErrorView,
            >(model@),
            Err(e) => grammar::problem_at(token_views(tokens@)) == Err::<
                PreModelView,
                CompilationErrorView,
            >(e@),
        },
{
    let ghost ts = token_views(tokens@);
    let first = skip_separators(tokens, 0);
    match objective(tokens, first) {
        Err(e) => Err(e),
        Ok((found, p)) => {
            let sign = skip_separators(tokens, p);
            if !is_symbol(tokens, sign, Symbol::SubjectTo) {
                return Err(missing(tokens, sign, "s.t."));
            }
            let mut conditions_found: Vec<PreCondition> = Vec::new();
            assert(pre_condition_views(conditions_found@) =~= Seq::empty());
            let block = match conditions(tokens, sign + 1, &mut conditions_found) {
                Err(e) => {
                    return Err(e);
                },
                Ok(q) => q,
            };
            assert(pre_condition_views(conditions_found@) =~= grammar::conditions_at(
                ts,
                sign + 1,
            )->Ok_0.0);
            let mut constants_found: Vec<Constant> = Vec::new();
            assert(constant_views(constants_found@) =~= Seq::empty());
            let mut last: usize = block;
            if is_word(tokens, block, "where") {
                match constants(tokens, block + 1, &mut constants_found) {
                    Err(e) => {
                        return Err(e);
                    },
                    Ok(r) => {
                        assert(constant_views(constants_found@) =~= grammar::constants_at(
                            ts,
                            block + 1,
                        )->Ok_0.0);
                        last = r;
                    },
                }
            }
            let mut domains_found: Vec<DomainVariable> = Vec::new();
            assert(domain_views(domains_found@) =~= Seq::empty());
            let mut end: usize = last;
            if is_word(tokens, last, "define") {
                match domains(tokens, last + 1, &mut domains_found) {
                    Err(e) => {
                        return Err(e);
                    },
                    Ok(r) => {
                        assert(domain_views(domains_found@) =~= grammar::domains_at(
                            ts,
                            last + 1,
                        )->Ok_0.0);
                        end = r;
                    },
                }
            }
            let rest = skip_separators(tokens, end);
            if rest < tokens.len() {
                Err(unexpected(tokens, rest))
            } else {
                Ok(
                    PreModel {
                        problem: PreProblem::new(found, conditions_found, constants_found),
                        domains: domains_found,
                    },
                )
            }
        },
    }
}

/// The model that a source text writes, or the first error of the lexer or
/// of the grammar.
pub fn parse(source: &str) -> (r: Result<PreModel, CompilationError>)
    ensures
        match r {
            Ok(model) => grammar::parsed(source.spec_bytes()) == Ok::<
                PreModelView,
                CompilationErrorView,
            >(model@),
            Err(e) => grammar::parsed(source.spec_bytes()) == Err::<
                PreModelView,
                CompilationErrorView,
            >(e@),
        },
{
    match tokenize(source) {
        Err(e) => Err(e),
        Ok(tokens) => parse_tokens(&tokens),
    }
}

/// A parser for one source text.
pub struct RoocParser {
    pub source: String,
}

impl RoocParser {
    pub fn new(source: String) -> (r: RoocParser)
        ensures
            r.source == source,
    {
        RoocParser { source }
    }

    /// The model that the source writes.
    pub fn parse(&self) -> (r: Result<PreModel, CompilationError>)
        ensures
            match r {
                Ok(model) => grammar::parsed(vstd::utf8::encode_utf8(self.source@)) == Ok::<
                    PreModelView,
                    CompilationErrorView,
                >(model@),
                Err(e) => grammar::parsed(vstd::utf8::encode_utf8(self.source@)) == Err::<
                    PreModelView,
                    CompilationErrorView,
                >(e@),
            },
    {
        parse(self.source.as_str())
    }
}

} // verus!
