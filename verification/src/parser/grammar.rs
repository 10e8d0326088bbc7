//! The grammar of the language, as functions on the tokens of a source.
//!
//! Each function reads one construct from a place in the list of tokens and
//! gives the tree of the construct with the place behind it, or the error of
//! the first token that does not fit. Together they say what the tree of a
//! source is: see [`problem_at`].
//!
//! ```text
//! problem    := objective "s.t." condition* ("where" constant*)? ("define" domain*)?
//! objective  := ("min" | "max") exp | "solve"
//! condition  := exp ("<=" | ">=" | "=") exp ("for" sets)?
//! sets       := set ("," set)*
//! set        := pattern "in" producer
//! pattern    := name | "(" name ("," name)* ")"
//! producer   := exp (".." exp)?
//! exp        := term (("+" | "-") term)*
//! term       := unary (("*" | "/") unary)*
//! unary      := "-" unary | primary
//! primary    := number primary? | "(" exp ")" | "|" exp "|"
//!             | ("sum" | "prod" | "min" | "max" | "avg") "(" sets ")" "{" exp "}"
//!             | ("min" | "max" | "avg") "{" exp ("," exp)* "}"
//!             | name "(" (argument ("," argument)*)? ")"
//!             | word ("[" exp "]")+
//!             | name
//! name       := word ("_" (index | "{" index ("," index)* "}"))*
//! constant   := word "=" value
//! value      := "-"? number | text | "true" | "false" | "[" (value ("," value)*)? "]"
//!             | "Graph" "{" node* "}"
//! node       := word ("->" "[" (edge ("," edge)*)? "]")?
//! edge       := word (":" "-"? number)?
//! domain     := word ("," word)* "as" ("Real" | "NonNegativeReal" | "Integer" | "Boolean")
//! ```
//!
//! A number directly in front of a word or of a round bracket multiplies it;
//! the parts of a compound name follow the word without a blank. The words
//! that the grammar writes between quotes name nothing else: no variable,
//! no constant, and nothing that an iteration set binds.
use vstd::prelude::*;
use vstd::string::*;
use crate::error::{CompilationErrorView, ParseErrorView};
use crate::math::{Comparison, Op, OptimizationType, UnOp, VariableDomain};
use crate::number::Number;
use crate::parser::ast::{
    CallView, ConstantView, DomainVariableView, IterableSetView, NameView, ParameterView,
    PatternView, PreConditionView, PreExpView, PreProblemView,
};
use crate::parser::iterable_utils::flattened_values;
use crate::parser::lexer::tokens_of;
use crate::primitives::graph::{keyed_by_target, EdgeView, GraphView, NodeView};
use crate::primitives::primitive::PrimitiveView;
use crate::parser::functions::call_of;
use crate::parser::lexer::{Symbol, TokenKindView, TokenView};
use crate::parser::pre_exp::{BlockFunctionKind, BlockScopedFunctionKind};
use crate::span::InputSpan;

verus! {

/// What reading a construct gives: its tree and the place behind it.
pub type Parsed<T> = Result<(T, int), CompilationErrorView>;

/// The text of a sign.
pub open spec fn symbol_text(s: Symbol) -> Seq<char> {
    match s {
        Symbol::Plus => "+"@,
        Symbol::Minus => "-"@,
        Symbol::Star => "*"@,
        Symbol::Slash => "/"@,
        Symbol::Bar => "|"@,
        Symbol::LeftParen => "("@,
        Symbol::RightParen => ")"@,
        Symbol::LeftBrace => "{"@,
        Symbol::RightBrace => "}"@,
        Symbol::LeftBracket => "["@,
        Symbol::RightBracket => "]"@,
        Symbol::Comma => ","@,
        Symbol::Colon => ":"@,
        Symbol::Equal => "="@,
        Symbol::LowerOrEqual => "<="@,
        Symbol::UpperOrEqual => ">="@,
        Symbol::DotDot => ".."@,
        Symbol::Arrow => "->"@,
        Symbol::Underscore => "_"@,
        Symbol::SubjectTo => "s.t."@,
    }
}

/// The text of a token in messages.
pub open spec fn token_text(kind: TokenKindView) -> Seq<char> {
    match kind {
        TokenKindView::Number(n) => n.text(),
        TokenKindView::Ident(s) => s,
        TokenKindView::Text(s) => "\""@ + s + "\""@,
        TokenKindView::Symbol(s) => symbol_text(s),
        TokenKindView::Separator => "line break"@,
    }
}

/// The column behind a span on its line, as far as it can be counted.
pub open spec fn end_column(span: InputSpan) -> nat {
    if span.start_column + span.len > usize::MAX {
        usize::MAX as nat
    } else {
        (span.start_column + span.len) as nat
    }
}

/// The error `kind` at the token at `pos`, or behind the last token where
/// `pos` is behind the end.
pub open spec fn error_at(kind: ParseErrorView, ts: Seq<TokenView>, pos: int)
    -> CompilationErrorView {
    if 0 <= pos < ts.len() {
        CompilationErrorView {
            kind,
            start_line: ts[pos].span.start_line as nat,
            start: ts[pos].span.start_column as nat,
            end_line: ts[pos].span.start_line as nat,
            end: end_column(ts[pos].span),
            text: token_text(ts[pos].kind),
        }
    } else if ts.len() > 0 {
        CompilationErrorView {
            kind,
            start_line: ts.last().span.start_line as nat,
            start: end_column(ts.last().span),
            end_line: ts.last().span.start_line as nat,
            end: end_column(ts.last().span),
            text: Seq::<char>::empty(),
        }
    } else {
        CompilationErrorView {
            kind,
            start_line: 1,
            start: 1,
            end_line: 1,
            end: 1,
            text: Seq::<char>::empty(),
        }
    }
}

/// The error for a token that does not fit, or for an end that comes too
/// early.
pub open spec fn unexpected(ts: Seq<TokenView>, pos: int) -> CompilationErrorView {
    if 0 <= pos < ts.len() {
        error_at(ParseErrorView::UnexpectedToken(token_text(ts[pos].kind)), ts, pos)
    } else {
        error_at(ParseErrorView::MissingToken("more input"@), ts, pos)
    }
}

/// The error for the token `what` that is not where it must be.
pub open spec fn missing(ts: Seq<TokenView>, pos: int, what: Seq<char>) -> CompilationErrorView {
    error_at(ParseErrorView::MissingToken(what), ts, pos)
}

/// The token at `pos` is the sign `s`.
pub open spec fn is_symbol(ts: Seq<TokenView>, pos: int, s: Symbol) -> bool {
    0 <= pos < ts.len() && ts[pos].kind == TokenKindView::Symbol(s)
}

/// The token at `pos` is the word `w`.
pub open spec fn is_word(ts: Seq<TokenView>, pos: int, w: Seq<char>) -> bool {
    0 <= pos < ts.len() && ts[pos].kind == TokenKindView::Ident(w)
}

/// The token at `pos` follows the token before it without a blank.
pub open spec fn is_adjacent(ts: Seq<TokenView>, pos: int) -> bool {
    0 < pos < ts.len() && ts[pos].span.start == ts[pos - 1].span.start + ts[pos - 1].span.len
}

/// The place `pos`, held between the least place that it may be and the end
/// of the tokens.
pub open spec fn within(ts: Seq<TokenView>, pos: int, least: int) -> int {
    if pos < least {
        least
    } else if pos > ts.len() {
        ts.len() as int
    } else {
        pos
    }
}

/// The place of the first token at or behind `pos` that is no separator.
pub open spec fn skip_separators(ts: Seq<TokenView>, pos: int) -> int
    decreases ts.len() - pos,
{
    if 0 <= pos < ts.len() && ts[pos].kind is Separator {
        skip_separators(ts, pos + 1)
    } else {
        pos
    }
}

/// The words that the language keeps for itself, and that name nothing.
pub open spec fn is_reserved(w: Seq<char>) -> bool {
    w == "min"@ || w == "max"@ || w == "sum"@ || w == "prod"@ || w == "avg"@ || w == "for"@ || w
        == "in"@ || w == "where"@ || w == "define"@ || w == "Graph"@ || w == "Real"@ || w
        == "NonNegativeReal"@ || w == "Integer"@ || w == "Boolean"@
}

/// The kind of function over iteration sets that a word names.
pub open spec fn scoped_kind(w: Seq<char>) -> Option<BlockScopedFunctionKind> {
    BlockScopedFunctionKind::named(w)
}

/// The kind of function over a list that a word names.
pub open spec fn block_kind(w: Seq<char>) -> Option<BlockFunctionKind> {
    BlockFunctionKind::named(w)
}

/// The argument that an expression is, where it can be one.
pub open spec fn as_parameter(e: PreExpView) -> Option<ParameterView> {
    match e {
        PreExpView::Number(_, n) => Some(ParameterView::Number(n)),
        PreExpView::Variable(_, name) => Some(ParameterView::Variable(name)),
        PreExpView::CompoundVariable(_, name, indexes) => Some(
            ParameterView::CompoundVariable(name, indexes),
        ),
        PreExpView::ArrayAccess(_, name, accesses) => Some(
            ParameterView::ArrayAccess(name, accesses),
        ),
        PreExpView::FunctionCall(_, call) => Some(ParameterView::FunctionCall(Box::new(call))),
        _ => None,
    }
}

/// The text of a part of a compound name: of a word the word, of a number
/// its decimal form.
pub open spec fn part_text(kind: TokenKindView) -> Option<Seq<char>> {
    match kind {
        TokenKindView::Ident(s) => Some(s),
        TokenKindView::Number(n) => Some(n.text()),
        _ => None,
    }
}

/// The parts of a compound name between curly brackets, from the first of
/// them to the bracket that closes: words or numbers, separated by commas.
/// The second component tells whether every part is a number.
pub open spec fn braced_parts_at(ts: Seq<TokenView>, pos: int) -> Option<
    (Seq<Seq<char>>, bool, int),
>
    decreases ts.len() - pos,
{
    if 0 <= pos < ts.len() && part_text(ts[pos].kind) is Some {
        if is_symbol(ts, pos + 1, Symbol::Comma) {
            match braced_parts_at(ts, pos + 2) {
                None => None,
                Some(rest) => Some(
                    (
                        seq![part_text(ts[pos].kind)->Some_0] + rest.0,
                        ts[pos].kind is Number && rest.1,
                        within(ts, rest.2, pos + 2),
                    ),
                ),
            }
        } else if is_symbol(ts, pos + 1, Symbol::RightBrace) {
            Some((seq![part_text(ts[pos].kind)->Some_0], ts[pos].kind is Number, pos + 2))
        } else {
            None
        }
    } else {
        None
    }
}

/// The parts of a compound name that follow the word before `pos`: each is
/// an underscore and, without a blank, a word, a number, or a list of them
/// in curly brackets. The second component tells whether every part is a
/// number.
pub open spec fn parts_at(ts: Seq<TokenView>, pos: int) -> (Seq<Seq<char>>, bool, int)
    decreases ts.len() - pos,
{
    if is_symbol(ts, pos, Symbol::Underscore) && is_adjacent(ts, pos) && is_symbol(
        ts,
        pos + 1,
        Symbol::LeftBrace,
    ) && is_adjacent(ts, pos + 1) && braced_parts_at(ts, pos + 2) is Some {
        let group = braced_parts_at(ts, pos + 2)->Some_0;
        let rest = parts_at(ts, within(ts, group.2, pos + 2));
        (group.0 + rest.0, group.1 && rest.1, within(ts, rest.2, pos + 2))
    } else if is_symbol(ts, pos, Symbol::Underscore) && is_adjacent(ts, pos) && pos + 1 < ts.len()
        && is_adjacent(ts, pos + 1) && part_text(ts[pos + 1].kind) is Some {
        let rest = parts_at(ts, pos + 2);
        (
            seq![part_text(ts[pos + 1].kind)->Some_0] + rest.0,
            ts[pos + 1].kind is Number && rest.1,
            within(ts, rest.2, pos + 2),
        )
    } else {
        (Seq::<Seq<char>>::empty(), true, pos)
    }
}

/// The name that a word and its parts write where every part is a number.
pub open spec fn joined_name(stem: Seq<char>, parts: Seq<Seq<char>>, from: int) -> Seq<char>
    decreases parts.len() - from,
{
    if from < 0 || from >= parts.len() {
        stem
    } else {
        joined_name(stem + "_"@ + parts[from], parts, from + 1)
    }
}

/// A primary expression.
pub open spec fn primary_at(ts: Seq<TokenView>, pos: int) -> Parsed<PreExpView>
    decreases ts.len() - pos, 1nat,
{
    if pos < 0 || pos >= ts.len() {
        Err(unexpected(ts, pos))
    } else {
        let span = ts[pos].span;
        match ts[pos].kind {
            TokenKindView::Number(n) => {
                let number = PreExpView::Number(span, n);
                if is_adjacent(ts, pos + 1) && (ts[pos + 1].kind is Ident || is_symbol(
                    ts,
                    pos + 1,
                    Symbol::LeftParen,
                )) {
                    match primary_at(ts, pos + 1) {
                        Err(e) => Err(e),
                        Ok((factor, p)) => Ok(
                            (
                                PreExpView::BinaryOperation(
                                    span,
                                    Op::Mul,
                                    Box::new(number),
                                    Box::new(factor),
                                ),
                                within(ts, p, pos + 1),
                            ),
                        ),
                    }
                } else {
                    Ok((number, pos + 1))
                }
            },
            TokenKindView::Symbol(Symbol::LeftParen) => match exp_at(ts, pos + 1) {
                Err(e) => Err(e),
                Ok((inner, p)) => if is_symbol(ts, within(ts, p, pos + 1), Symbol::RightParen) {
                    Ok((inner, within(ts, p, pos + 1) + 1))
                } else {
                    Err(missing(ts, within(ts, p, pos + 1), ")"@))
                },
            },
            TokenKindView::Symbol(Symbol::Bar) => match exp_at(ts, pos + 1) {
                Err(e) => Err(e),
                Ok((inner, p)) => if is_symbol(ts, within(ts, p, pos + 1), Symbol::Bar) {
                    Ok((PreExpView::Mod(span, Box::new(inner)), within(ts, p, pos + 1) + 1))
                } else {
                    Err(missing(ts, within(ts, p, pos + 1), "|"@))
                },
            },
            TokenKindView::Ident(word) => {
                if scoped_kind(word) is Some && is_symbol(ts, pos + 1, Symbol::LeftParen) {
                    scoped_at(ts, pos, scoped_kind(word)->Some_0)
                } else if block_kind(word) is Some && is_symbol(ts, pos + 1, Symbol::LeftBrace) {
                    block_at(ts, pos, block_kind(word)->Some_0)
                } else if is_reserved(word) {
                    Err(unexpected(ts, pos))
                } else if is_symbol(ts, name_end(ts, pos), Symbol::LeftParen) && is_adjacent(
                    ts,
                    name_end(ts, pos),
                ) {
                    call_at(ts, pos, joined_name(word, parts_at(ts, pos + 1).0, 0), name_end(ts, pos))
                } else if is_symbol(ts, pos + 1, Symbol::LeftBracket) {
                    access_at(ts, pos, word)
                } else {
                    Ok(name_at(ts, pos, word))
                }
            },
            _ => Err(unexpected(ts, pos)),
        }
    }
}

/// A function over a list of expressions, whose word stands at `pos` in
/// front of a curly bracket.
pub open spec fn block_at(ts: Seq<TokenView>, pos: int, kind: BlockFunctionKind) -> Parsed<
    PreExpView,
>
    decreases ts.len() - pos, 0nat,
{
    if pos < 0 || pos >= ts.len() || !is_symbol(ts, pos + 1, Symbol::LeftBrace) {
        Err(unexpected(ts, pos))
    } else {
        match exps_at(ts, pos + 2) {
            Err(e) => Err(e),
            Ok((items, p)) => {
                let close = within(ts, p, pos + 2);
                if is_symbol(ts, close, Symbol::RightBrace) {
                    Ok((PreExpView::BlockFunction(ts[pos].span, kind, items), close + 1))
                } else {
                    Err(missing(ts, close, "}"@))
                }
            },
        }
    }
}

/// The place behind the name that begins with the word at `pos`: behind
/// the word and the parts that follow it.
pub open spec fn name_end(ts: Seq<TokenView>, pos: int) -> int {
    within(ts, parts_at(ts, pos + 1).2, pos + 1)
}

/// A call of the built-in function `name`, which begins at `pos` and ends
/// in front of the round bracket at `open`.
pub open spec fn call_at(ts: Seq<TokenView>, pos: int, name: Seq<char>, open: int) -> Parsed<
    PreExpView,
>
    decreases ts.len() - pos, 0nat,
{
    if pos < 0 || pos >= ts.len() || open <= pos || !is_symbol(ts, open, Symbol::LeftParen) {
        Err(unexpected(ts, pos))
    } else {
        match arguments_at(ts, open + 1) {
            Err(e) => Err(e),
            Ok((params, p)) => {
                let close = within(ts, p, open + 1);
                if is_symbol(ts, close, Symbol::RightParen) {
                    match call_of(name, params) {
                        Err(kind) => Err(error_at(kind, ts, pos)),
                        Ok(call) => Ok((PreExpView::FunctionCall(ts[pos].span, call), close + 1)),
                    }
                } else {
                    Err(missing(ts, close, ")"@))
                }
            },
        }
    }
}

/// An access into the iterable `word`, which stands at `pos` in front of a
/// square bracket.
pub open spec fn access_at(ts: Seq<TokenView>, pos: int, word: Seq<char>) -> Parsed<PreExpView>
    decreases ts.len() - pos, 0nat,
{
    if pos < 0 || pos >= ts.len() {
        Err(unexpected(ts, pos))
    } else {
        match accesses_at(ts, pos + 1) {
            Err(e) => Err(e),
            Ok((accesses, p)) => Ok(
                (PreExpView::ArrayAccess(ts[pos].span, word, accesses), within(ts, p, pos + 1)),
            ),
        }
    }
}

/// The name that begins with `word` at `pos`: the word alone, the name
/// that it writes with parts that are all numbers, or a compound name.
pub open spec fn name_at(ts: Seq<TokenView>, pos: int, word: Seq<char>) -> (PreExpView, int) {
    let parts = parts_at(ts, pos + 1);
    if parts.0.len() == 0 {
        (PreExpView::Variable(ts[pos].span, word), pos + 1)
    } else if parts.1 {
        (
            PreExpView::Variable(ts[pos].span, joined_name(word, parts.0, 0)),
            within(ts, parts.2, pos + 1),
        )
    } else {
        (PreExpView::CompoundVariable(ts[pos].span, word, parts.0), within(ts, parts.2, pos + 1))
    }
}

/// A function over iteration sets, whose word stands at `pos` in front of a
/// round bracket.
pub open spec fn scoped_at(ts: Seq<TokenView>, pos: int, kind: BlockScopedFunctionKind) -> Parsed<
    PreExpView,
>
    decreases ts.len() - pos, 0nat,
{
    if pos < 0 || pos >= ts.len() || !is_symbol(ts, pos + 1, Symbol::LeftParen) {
        Err(unexpected(ts, pos))
    } else {
        match sets_at(ts, pos + 2) {
            Err(e) => Err(e),
            Ok((sets, p)) => {
                let close = within(ts, p, pos + 2);
                if !is_symbol(ts, close, Symbol::RightParen) {
                    Err(missing(ts, close, ")"@))
                } else if !is_symbol(ts, close + 1, Symbol::LeftBrace) {
                    Err(missing(ts, close + 1, "{"@))
                } else {
                    match exp_at(ts, close + 2) {
                        Err(e) => Err(e),
                        Ok((body, q)) => if is_symbol(ts, within(ts, q, close + 2), Symbol::RightBrace) {
                            Ok(
                                (
                                    PreExpView::BlockScopedFunction(
                                        ts[pos].span,
                                        kind,
                                        sets,
                                        Box::new(body),
                                    ),
                                    within(ts, q, close + 2) + 1,
                                ),
                            )
                        } else {
                            Err(missing(ts, within(ts, q, close + 2), "}"@))
                        },
                    }
                }
            },
        }
    }
}

/// An expression behind any count of minus signs.
pub open spec fn unary_at(ts: Seq<TokenView>, pos: int) -> Parsed<PreExpView>
    decreases ts.len() - pos, 2nat,
{
    if pos < 0 || pos > ts.len() {
        Err(unexpected(ts, pos))
    } else {
        if is_symbol(ts, pos, Symbol::Minus) {
            match unary_at(ts, pos + 1) {
                Err(e) => Err(e),
                Ok((inner, p)) => Ok(
                    (
                        PreExpView::UnaryOperation(ts[pos].span, UnOp::Neg, Box::new(inner)),
                        within(ts, p, pos + 1),
                    ),
                ),
            }
        } else {
            primary_at(ts, pos)
        }
    }
}

/// The factors that follow `left`, each behind `*` or `/`.
pub open spec fn term_rest(ts: Seq<TokenView>, pos: int, left: PreExpView) -> Parsed<PreExpView>
    decreases ts.len() - pos, 3nat,
{
    if pos < 0 || pos > ts.len() {
        Err(unexpected(ts, pos))
    } else {
        if is_symbol(ts, pos, Symbol::Star) || is_symbol(ts, pos, Symbol::Slash) {
            let op = if is_symbol(ts, pos, Symbol::Star) {
                Op::Mul
            } else {
                Op::Div
            };
            match unary_at(ts, pos + 1) {
                Err(e) => Err(e),
                Ok((right, p)) => term_rest(
                    ts,
                    within(ts, p, pos + 1),
                    PreExpView::BinaryOperation(ts[pos].span, op, Box::new(left), Box::new(right)),
                ),
            }
        } else {
            Ok((left, pos))
        }
    }
}

/// A product or quotient.
pub open spec fn term_at(ts: Seq<TokenView>, pos: int) -> Parsed<PreExpView>
    decreases ts.len() - pos, 4nat,
{
    if pos < 0 || pos > ts.len() {
        Err(unexpected(ts, pos))
    } else {
        match unary_at(ts, pos) {
            Err(e) => Err(e),
            Ok((left, p)) => term_rest(ts, within(ts, p, pos), left),
        }
    }
}

/// The terms that follow `left`, each behind `+` or `-`.
pub open spec fn exp_rest(ts: Seq<TokenView>, pos: int, left: PreExpView) -> Parsed<PreExpView>
    decreases ts.len() - pos, 5nat,
{
    if pos < 0 || pos > ts.len() {
        Err(unexpected(ts, pos))
    } else {
        if is_symbol(ts, pos, Symbol::Plus) || is_symbol(ts, pos, Symbol::Minus) {
            let op = if is_symbol(ts, pos, Symbol::Plus) {
                Op::Add
            } else {
                Op::Sub
            };
            match term_at(ts, pos + 1) {
                Err(e) => Err(e),
                Ok((right, p)) => exp_rest(
                    ts,
                    within(ts, p, pos + 1),
                    PreExpView::BinaryOperation(ts[pos].span, op, Box::new(left), Box::new(right)),
                ),
            }
        } else {
            Ok((left, pos))
        }
    }
}

/// An expression.
pub open spec fn exp_at(ts: Seq<TokenView>, pos: int) -> Parsed<PreExpView>
    decreases ts.len() - pos, 6nat,
{
    if pos < 0 || pos > ts.len() {
        Err(unexpected(ts, pos))
    } else {
        match term_at(ts, pos) {
            Err(e) => Err(e),
            Ok((left, p)) => exp_rest(ts, within(ts, p, pos), left),
        }
    }
}

/// The expressions of a list, separated by commas.
pub open spec fn exps_at(ts: Seq<TokenView>, pos: int) -> Parsed<Seq<PreExpView>>
    decreases ts.len() - pos, 7nat,
{
    if pos < 0 || pos > ts.len() {
        Err(unexpected(ts, pos))
    } else {
        match exp_at(ts, pos) {
            Err(e) => Err(e),
            Ok((first, p)) => if is_symbol(ts, within(ts, p, pos), Symbol::Comma) {
                match exps_at(ts, within(ts, p, pos) + 1) {
                    Err(e) => Err(e),
                    Ok((rest, q)) => Ok((seq![first] + rest, within(ts, q, within(ts, p, pos) + 1))),
                }
            } else {
                Ok((seq![first], within(ts, p, pos)))
            },
        }
    }
}

/// One argument of a call: a text, or an expression that can be an argument.
pub open spec fn argument_at(ts: Seq<TokenView>, pos: int) -> Parsed<ParameterView>
    decreases ts.len() - pos, 7nat,
{
    if pos < 0 || pos > ts.len() {
        Err(unexpected(ts, pos))
    } else {
        if 0 <= pos < ts.len() && ts[pos].kind is Text {
            Ok((ParameterView::String(ts[pos].kind->Text_0), pos + 1))
        } else {
            match exp_at(ts, pos) {
                Err(e) => Err(e),
                Ok((e, p)) => match as_parameter(e) {
                    Some(param) => Ok((param, within(ts, p, pos))),
                    None => Err(
                        error_at(
                            ParseErrorView::SemanticError(
                                "Only a number, a text, a name, an access or a call can be an argument"@,
                            ),
                            ts,
                            pos,
                        ),
                    ),
                },
            }
        }
    }
}

/// The arguments of a call, separated by commas; none in front of a round
/// bracket that closes.
pub open spec fn arguments_at(ts: Seq<TokenView>, pos: int) -> Parsed<Seq<ParameterView>>
    decreases ts.len() - pos, 9nat,
{
    if pos < 0 || pos > ts.len() {
        Err(unexpected(ts, pos))
    } else {
        if is_symbol(ts, pos, Symbol::RightParen) {
            Ok((Seq::<ParameterView>::empty(), pos))
        } else {
            arguments_rest(ts, pos)
        }
    }
}

/// One argument and those that follow it behind commas.
pub open spec fn arguments_rest(ts: Seq<TokenView>, pos: int) -> Parsed<Seq<ParameterView>>
    decreases ts.len() - pos, 8nat,
{
    if pos < 0 || pos > ts.len() {
        Err(unexpected(ts, pos))
    } else {
        match argument_at(ts, pos) {
            Err(e) => Err(e),
            Ok((first, p)) => if is_symbol(ts, within(ts, p, pos), Symbol::Comma) {
                match arguments_rest(ts, within(ts, p, pos) + 1) {
                    Err(e) => Err(e),
                    Ok((rest, q)) => Ok((seq![first] + rest, within(ts, q, within(ts, p, pos) + 1))),
                }
            } else {
                Ok((seq![first], within(ts, p, pos)))
            },
        }
    }
}

/// The accesses behind a name: each an expression in square brackets.
pub open spec fn accesses_at(ts: Seq<TokenView>, pos: int) -> Parsed<Seq<PreExpView>>
    decreases ts.len() - pos, 8nat,
{
    if pos < 0 || pos > ts.len() {
        Err(unexpected(ts, pos))
    } else {
        if is_symbol(ts, pos, Symbol::LeftBracket) {
            match exp_at(ts, pos + 1) {
                Err(e) => Err(e),
                Ok((index, p)) => if is_symbol(ts, within(ts, p, pos + 1), Symbol::RightBracket) {
                    match accesses_at(ts, within(ts, p, pos + 1) + 1) {
                        Err(e) => Err(e),
                        Ok((rest, q)) => Ok(
                            (seq![index] + rest, within(ts, q, within(ts, p, pos + 1) + 1)),
                        ),
                    }
                } else {
                    Err(missing(ts, within(ts, p, pos + 1), "]"@))
                },
            }
        } else {
            Ok((Seq::<PreExpView>::empty(), pos))
        }
    }
}

/// A name that an iteration set binds: a word, or an underscore for what is
/// thrown away.
pub open spec fn bound_name_at(ts: Seq<TokenView>, pos: int) -> Option<NameView> {
    if 0 <= pos < ts.len() {
        match ts[pos].kind {
            TokenKindView::Ident(w) => if is_reserved(w) {
                None
            } else {
                Some((ts[pos].span, w))
            },
            TokenKindView::Symbol(Symbol::Underscore) => Some((ts[pos].span, "_"@)),
            _ => None,
        }
    } else {
        None
    }
}

/// The names of a tuple of names, separated by commas.
pub open spec fn names_at(ts: Seq<TokenView>, pos: int) -> Parsed<Seq<NameView>>
    decreases ts.len() - pos,
{
    match bound_name_at(ts, pos) {
        None => Err(unexpected(ts, pos)),
        Some(name) => if is_symbol(ts, pos + 1, Symbol::Comma) {
            match names_at(ts, pos + 2) {
                Err(e) => Err(e),
                Ok((rest, q)) => Ok((seq![name] + rest, within(ts, q, pos + 2))),
            }
        } else {
            Ok((seq![name], pos + 1))
        },
    }
}

/// The names that an iteration set binds: one name, or a tuple of names in
/// round brackets.
pub open spec fn pattern_at(ts: Seq<TokenView>, pos: int) -> Parsed<PatternView> {
    if is_symbol(ts, pos, Symbol::LeftParen) {
        match names_at(ts, pos + 1) {
            Err(e) => Err(e),
            Ok((names, p)) => if is_symbol(ts, within(ts, p, pos + 1), Symbol::RightParen) {
                Ok((PatternView::Tuple(names), within(ts, p, pos + 1) + 1))
            } else {
                Err(missing(ts, within(ts, p, pos + 1), ")"@))
            },
        }
    } else {
        match bound_name_at(ts, pos) {
            Some(name) => Ok((PatternView::Single(name), pos + 1)),
            None => Err(unexpected(ts, pos)),
        }
    }
}

/// The range from `from` up to `to`, written at `span`, where both can be
/// arguments.
pub open spec fn range_between(span: InputSpan, from: PreExpView, to: PreExpView) -> Option<
    PreExpView,
> {
    match (as_parameter(from), as_parameter(to)) {
        (Some(a), Some(b)) => Some(PreExpView::FunctionCall(span, CallView::Range(a, b))),
        _ => None,
    }
}

/// What an iteration set draws its elements from: an expression, or a range
/// between two expressions that can be arguments.
pub open spec fn producer_at(ts: Seq<TokenView>, pos: int) -> Parsed<PreExpView>
    decreases ts.len() - pos, 7nat,
{
    if pos < 0 || pos > ts.len() {
        Err(unexpected(ts, pos))
    } else {
        match exp_at(ts, pos) {
            Err(e) => Err(e),
            Ok((from, p)) => if is_symbol(ts, within(ts, p, pos), Symbol::DotDot) {
                let dots = within(ts, p, pos);
                match exp_at(ts, dots + 1) {
                    Err(e) => Err(e),
                    Ok((to, q)) => match range_between(ts[dots].span, from, to) {
                        Some(range) => Ok((range, within(ts, q, dots + 1))),
                        None => Err(
                            error_at(
                                ParseErrorView::SemanticError(
                                    "Only a number, a name, an access or a call can bound a range"@,
                                ),
                                ts,
                                dots,
                            ),
                        ),
                    },
                }
            } else {
                Ok((from, within(ts, p, pos)))
            },
        }
    }
}

/// An iteration set: names, `in`, and a producer.
pub open spec fn set_at(ts: Seq<TokenView>, pos: int) -> Parsed<IterableSetView>
    decreases ts.len() - pos, 8nat,
{
    if pos < 0 || pos > ts.len() {
        Err(unexpected(ts, pos))
    } else {
        match pattern_at(ts, pos) {
            Err(e) => Err(e),
            Ok((var, p)) => {
                let keyword = within(ts, p, pos + 1);
                if !is_word(ts, keyword, "in"@) {
                    Err(missing(ts, keyword, "in"@))
                } else {
                    match producer_at(ts, keyword + 1) {
                        Err(e) => Err(e),
                        Ok((iterator, q)) => Ok(
                            (
                                IterableSetView {
                                    var,
                                    iterator_span: if keyword + 1 < ts.len() {
                                        ts[keyword + 1].span
                                    } else {
                                        ts[keyword].span
                                    },
                                    iterator,
                                    span: ts[keyword].span,
                                },
                                within(ts, q, keyword + 1),
                            ),
                        ),
                    }
                }
            },
        }
    }
}

/// Iteration sets, separated by commas.
pub open spec fn sets_at(ts: Seq<TokenView>, pos: int) -> Parsed<Seq<IterableSetView>>
    decreases ts.len() - pos, 9nat,
{
    if pos < 0 || pos > ts.len() {
        Err(unexpected(ts, pos))
    } else {
        match set_at(ts, pos) {
            Err(e) => Err(e),
            Ok((first, p)) => if is_symbol(ts, within(ts, p, pos + 1), Symbol::Comma) {
                match sets_at(ts, within(ts, p, pos + 1) + 1) {
                    Err(e) => Err(e),
                    Ok((rest, q)) => Ok((seq![first] + rest, within(ts, q, within(ts, p, pos + 1) + 1))),
                }
            } else {
                Ok((seq![first], within(ts, p, pos + 1)))
            },
        }
    }
}

/// The comparison that the token at `pos` writes.
pub open spec fn comparison_at(ts: Seq<TokenView>, pos: int) -> Option<Comparison> {
    if is_symbol(ts, pos, Symbol::LowerOrEqual) {
        Some(Comparison::LowerOrEqual)
    } else if is_symbol(ts, pos, Symbol::UpperOrEqual) {
        Some(Comparison::UpperOrEqual)
    } else if is_symbol(ts, pos, Symbol::Equal) {
        Some(Comparison::Equal)
    } else {
        None
    }
}

/// A condition: two expressions with a comparison between them, and behind
/// `for` the iteration sets over which it is repeated.
pub open spec fn condition_at(ts: Seq<TokenView>, pos: int) -> Parsed<PreConditionView> {
    match exp_at(ts, pos) {
        Err(e) => Err(e),
        Ok((lhs, p)) => {
            let sign = within(ts, p, pos);
            match comparison_at(ts, sign) {
                None => Err(missing(ts, sign, "a comparison"@)),
                Some(condition_type) => match exp_at(ts, sign + 1) {
                    Err(e) => Err(e),
                    Ok((rhs, q)) => {
                        let end = within(ts, q, sign + 1);
                        if is_word(ts, end, "for"@) {
                            match sets_at(ts, end + 1) {
                                Err(e) => Err(e),
                                Ok((iteration, r)) => Ok(
                                    (
                                        PreConditionView {
                                            lhs,
                                            condition_type,
                                            rhs,
                                            iteration,
                                            span: ts[sign].span,
                                        },
                                        within(ts, r, end + 1),
                                    ),
                                ),
                            }
                        } else {
                            Ok(
                                (
                                    PreConditionView {
                                        lhs,
                                        condition_type,
                                        rhs,
                                        iteration: Seq::<IterableSetView>::empty(),
                                        span: ts[sign].span,
                                    },
                                    end,
                                ),
                            )
                        }
                    },
                },
            }
        },
    }
}

/// The token at `pos` ends a block of the source: it is the end of the
/// tokens, or one of the words `where` and `define`.
pub open spec fn ends_block(ts: Seq<TokenView>, pos: int) -> bool {
    pos >= ts.len() || is_word(ts, pos, "where"@) || is_word(ts, pos, "define"@)
}

/// The token at `pos` ends a line of a block: it is a separator, or it ends
/// the block.
pub open spec fn ends_line(ts: Seq<TokenView>, pos: int) -> bool {
    ends_block(ts, pos) || (0 <= pos < ts.len() && ts[pos].kind is Separator)
}

/// The conditions of a model, one to a line, up to the end of their block.
pub open spec fn conditions_at(ts: Seq<TokenView>, pos: int) -> Parsed<Seq<PreConditionView>>
    decreases ts.len() - pos,
{
    let start = skip_separators(ts, pos);
    if pos < 0 || start < pos || ends_block(ts, start) {
        Ok((Seq::<PreConditionView>::empty(), start))
    } else {
        match condition_at(ts, start) {
            Err(e) => Err(e),
            Ok((first, p)) => {
                let next = within(ts, p, start + 1);
                if !ends_line(ts, next) {
                    Err(unexpected(ts, next))
                } else {
                    match conditions_at(ts, next) {
                        Err(e) => Err(e),
                        Ok((rest, q)) => Ok((seq![first] + rest, q)),
                    }
                }
            },
        }
    }
}

/// Zero, as a number of the source.
pub open spec fn zero_number() -> Number {
    Number { negative: false, magnitude: 0, scale: 0 }
}

/// The objective of a model: `min` or `max` and an expression, or `solve`.
pub open spec fn objective_at(ts: Seq<TokenView>, pos: int) -> Parsed<
    (OptimizationType, PreExpView),
> {
    if is_word(ts, pos, "min"@) || is_word(ts, pos, "max"@) {
        match exp_at(ts, pos + 1) {
            Err(e) => Err(e),
            Ok((rhs, p)) => Ok(
                (
                    (
                        if is_word(ts, pos, "min"@) {
                            OptimizationType::Min
                        } else {
                            OptimizationType::Max
                        },
                        rhs,
                    ),
                    within(ts, p, pos + 1),
                ),
            ),
        }
    } else if is_word(ts, pos, "solve"@) {
        Ok(
            (
                (OptimizationType::Satisfy, PreExpView::Number(ts[pos].span, zero_number())),
                pos + 1,
            ),
        )
    } else {
        Err(missing(ts, pos, "min, max or solve"@))
    }
}

/// A number of a constant, with or without a minus sign in front.
pub open spec fn signed_number_at(ts: Seq<TokenView>, pos: int) -> Option<(Number, int)> {
    if 0 <= pos < ts.len() && ts[pos].kind is Number {
        Some((ts[pos].kind->Number_0, pos + 1))
    } else if is_symbol(ts, pos, Symbol::Minus) && pos + 1 < ts.len() && ts[pos + 1].kind
        is Number {
        Some((ts[pos + 1].kind->Number_0.negate_spec(), pos + 2))
    } else {
        None
    }
}

/// The edges of a node of a graph, separated by commas: each the name of the
/// node that it ends in and, behind a colon, its weight.
pub open spec fn edges_at(ts: Seq<TokenView>, pos: int, from: Seq<char>) -> Parsed<Seq<EdgeView>>
    decreases ts.len() - pos,
{
    if pos < 0 || pos >= ts.len() || !(ts[pos].kind is Ident) {
        Err(unexpected(ts, pos))
    } else {
        let to = ts[pos].kind->Ident_0;
        let weighted = is_symbol(ts, pos + 1, Symbol::Colon);
        if weighted && signed_number_at(ts, pos + 2) is None {
            Err(unexpected(ts, pos + 2))
        } else {
            let weight = if weighted {
                Some(signed_number_at(ts, pos + 2)->Some_0.0)
            } else {
                None
            };
            let after = if weighted {
                within(ts, signed_number_at(ts, pos + 2)->Some_0.1, pos + 3)
            } else {
                pos + 1
            };
            let edge = EdgeView { from, to, weight };
            if is_symbol(ts, after, Symbol::Comma) {
                match edges_at(ts, after + 1, from) {
                    Err(e) => Err(e),
                    Ok((rest, q)) => Ok((seq![edge] + rest, within(ts, q, after + 1))),
                }
            } else {
                Ok((seq![edge], after))
            }
        }
    }
}

/// The nodes of a graph, up to the curly bracket that closes it: each a
/// name and, behind an arrow, its edges in square brackets. Separators and
/// commas between the nodes are passed over.
pub open spec fn nodes_at(ts: Seq<TokenView>, pos: int) -> Parsed<Seq<NodeView>>
    decreases ts.len() - pos,
{
    if pos < 0 || pos >= ts.len() {
        Err(missing(ts, pos, "}"@))
    } else if ts[pos].kind is Separator || is_symbol(ts, pos, Symbol::Comma) {
        nodes_at(ts, pos + 1)
    } else if is_symbol(ts, pos, Symbol::RightBrace) {
        Ok((Seq::<NodeView>::empty(), pos))
    } else if !(ts[pos].kind is Ident) {
        Err(unexpected(ts, pos))
    } else {
        let name = ts[pos].kind->Ident_0;
        if is_symbol(ts, pos + 1, Symbol::Arrow) {
            if !is_symbol(ts, pos + 2, Symbol::LeftBracket) {
                Err(missing(ts, pos + 2, "["@))
            } else if is_symbol(ts, pos + 3, Symbol::RightBracket) {
                match nodes_at(ts, pos + 4) {
                    Err(e) => Err(e),
                    Ok((rest, q)) => Ok(
                        (seq![NodeView { name, edges: Seq::<EdgeView>::empty() }] + rest, q),
                    ),
                }
            } else {
                match edges_at(ts, pos + 3, name) {
                    Err(e) => Err(e),
                    Ok((edges, p)) => {
                        let close = within(ts, p, pos + 4);
                        if !is_symbol(ts, close, Symbol::RightBracket) {
                            Err(missing(ts, close, "]"@))
                        } else {
                            match nodes_at(ts, close + 1) {
                                Err(e) => Err(e),
                                Ok((rest, q)) => Ok(
                                    (
                                        seq![NodeView { name, edges: keyed_by_target(edges) }]
                                            + rest,
                                        q,
                                    ),
                                ),
                            }
                        }
                    },
                }
            }
        } else {
            match nodes_at(ts, pos + 1) {
                Err(e) => Err(e),
                Ok((rest, q)) => Ok(
                    (seq![NodeView { name, edges: Seq::<EdgeView>::empty() }] + rest, q),
                ),
            }
        }
    }
}

/// The value of a constant.
pub open spec fn value_at(ts: Seq<TokenView>, pos: int) -> Parsed<PrimitiveView>
    decreases ts.len() - pos, 0nat,
{
    if pos < 0 || pos >= ts.len() {
        Err(unexpected(ts, pos))
    } else if signed_number_at(ts, pos) is Some {
        Ok(
            (
                PrimitiveView::Number(signed_number_at(ts, pos)->Some_0.0),
                signed_number_at(ts, pos)->Some_0.1,
            ),
        )
    } else if ts[pos].kind is Text {
        Ok((PrimitiveView::String(ts[pos].kind->Text_0), pos + 1))
    } else if is_word(ts, pos, "true"@) {
        Ok((PrimitiveView::Boolean(true), pos + 1))
    } else if is_word(ts, pos, "false"@) {
        Ok((PrimitiveView::Boolean(false), pos + 1))
    } else if is_symbol(ts, pos, Symbol::LeftBracket) {
        match values_at(ts, pos + 1) {
            Err(e) => Err(e),
            Ok((items, p)) => {
                let close = within(ts, p, pos + 1);
                if !is_symbol(ts, close, Symbol::RightBracket) {
                    Err(missing(ts, close, "]"@))
                } else {
                    match flattened_values(items) {
                        Ok(value) => Ok((value, close + 1)),
                        Err(message) => Err(
                            error_at(ParseErrorView::SemanticError(message), ts, pos),
                        ),
                    }
                }
            },
        }
    } else if is_word(ts, pos, "Graph"@) {
        if !is_symbol(ts, pos + 1, Symbol::LeftBrace) {
            Err(missing(ts, pos + 1, "{"@))
        } else {
            match nodes_at(ts, pos + 2) {
                Err(e) => Err(e),
                Ok((vertices, p)) => Ok(
                    (PrimitiveView::Graph(GraphView { vertices }), within(ts, p, pos + 2) + 1),
                ),
            }
        }
    } else {
        Err(unexpected(ts, pos))
    }
}

/// The values of a list, separated by commas; none in front of a square
/// bracket that closes.
pub open spec fn values_at(ts: Seq<TokenView>, pos: int) -> Parsed<Seq<PrimitiveView>>
    decreases ts.len() - pos, 2nat,
{
    if pos < 0 || pos > ts.len() {
        Err(unexpected(ts, pos))
    } else if is_symbol(ts, pos, Symbol::RightBracket) {
        Ok((Seq::<PrimitiveView>::empty(), pos))
    } else {
        values_rest(ts, pos)
    }
}

/// One value and those that follow it behind commas.
pub open spec fn values_rest(ts: Seq<TokenView>, pos: int) -> Parsed<Seq<PrimitiveView>>
    decreases ts.len() - pos, 1nat,
{
    if pos < 0 || pos > ts.len() {
        Err(unexpected(ts, pos))
    } else {
        match value_at(ts, pos) {
            Err(e) => Err(e),
            Ok((first, p)) => if is_symbol(ts, within(ts, p, pos), Symbol::Comma) {
                match values_rest(ts, within(ts, p, pos) + 1) {
                    Err(e) => Err(e),
                    Ok((rest, q)) => Ok((seq![first] + rest, within(ts, q, within(ts, p, pos) + 1))),
                }
            } else {
                Ok((seq![first], within(ts, p, pos)))
            },
        }
    }
}

/// The constants of a model, one to a line, up to the end of their block:
/// each a name, `=`, and a value.
pub open spec fn constants_at(ts: Seq<TokenView>, pos: int) -> Parsed<Seq<ConstantView>>
    decreases ts.len() - pos,
{
    let start = skip_separators(ts, pos);
    if pos < 0 || start < pos || ends_block(ts, start) {
        Ok((Seq::<ConstantView>::empty(), start))
    } else if !(ts[start].kind is Ident) || is_reserved(ts[start].kind->Ident_0) {
        Err(unexpected(ts, start))
    } else if !is_symbol(ts, start + 1, Symbol::Equal) {
        Err(missing(ts, start + 1, "="@))
    } else {
        match value_at(ts, start + 2) {
            Err(e) => Err(e),
            Ok((value, p)) => {
                let next = within(ts, p, start + 2);
                if !ends_line(ts, next) {
                    Err(unexpected(ts, next))
                } else {
                    match constants_at(ts, next) {
                        Err(e) => Err(e),
                        Ok((rest, q)) => Ok(
                            (
                                seq![
                                    ConstantView {
                                        name: (ts[start].span, ts[start].kind->Ident_0),
                                        value,
                                    },
                                ] + rest,
                                q,
                            ),
                        ),
                    }
                }
            },
        }
    }
}

/// The domain that a word names.
pub open spec fn domain_named(w: Seq<char>) -> Option<VariableDomain> {
    if w == "Real"@ {
        Some(VariableDomain::Real)
    } else if w == "NonNegativeReal"@ {
        Some(VariableDomain::NonNegativeReal)
    } else if w == "Integer"@ {
        Some(VariableDomain::Integer)
    } else if w == "Boolean"@ {
        Some(VariableDomain::Boolean)
    } else {
        None
    }
}

/// The names of a declaration of variables, separated by commas. A name
/// whose parts are all numbers is declared as it is written; of a compound
/// name the stem is declared.
pub open spec fn declared_names_at(ts: Seq<TokenView>, pos: int) -> Parsed<Seq<NameView>>
    decreases ts.len() - pos,
{
    if pos < 0 || pos >= ts.len() || !(ts[pos].kind is Ident) || is_reserved(
        ts[pos].kind->Ident_0,
    ) {
        Err(unexpected(ts, pos))
    } else {
        let word = ts[pos].kind->Ident_0;
        let parts = parts_at(ts, pos + 1);
        let name = if parts.0.len() > 0 && parts.1 {
            joined_name(word, parts.0, 0)
        } else {
            word
        };
        let after = within(ts, parts.2, pos + 1);
        if is_symbol(ts, after, Symbol::Comma) {
            match declared_names_at(ts, after + 1) {
                Err(e) => Err(e),
                Ok((rest, q)) => Ok((seq![(ts[pos].span, name)] + rest, within(ts, q, after + 1))),
            }
        } else {
            Ok((seq![(ts[pos].span, name)], after))
        }
    }
}

/// The variables that the names declare with the domain `domain`.
pub open spec fn declared(names: Seq<NameView>, domain: VariableDomain) -> Seq<
    DomainVariableView,
> {
    Seq::new(names.len(), |i: int| DomainVariableView { name: names[i], domain })
}

/// The declarations of variables, one to a line, up to the end of the
/// tokens: each a list of names, `as`, and a domain.
pub open spec fn domains_at(ts: Seq<TokenView>, pos: int) -> Parsed<Seq<DomainVariableView>>
    decreases ts.len() - pos,
{
    let start = skip_separators(ts, pos);
    if pos < 0 || start < pos || start >= ts.len() {
        Ok((Seq::<DomainVariableView>::empty(), start))
    } else {
        match declared_names_at(ts, start) {
            Err(e) => Err(e),
            Ok((names, p)) => {
                let keyword = within(ts, p, start + 1);
                if !is_word(ts, keyword, "as"@) {
                    Err(missing(ts, keyword, "as"@))
                } else if keyword + 1 >= ts.len() || !(ts[keyword + 1].kind is Ident)
                    || domain_named(ts[keyword + 1].kind->Ident_0) is None {
                    Err(missing(ts, keyword + 1, "a domain"@))
                } else {
                    match domains_at(ts, keyword + 2) {
                        Err(e) => Err(e),
                        Ok((rest, q)) => Ok(
                            (
                                declared(
                                    names,
                                    domain_named(ts[keyword + 1].kind->Ident_0)->Some_0,
                                ) + rest,
                                q,
                            ),
                        ),
                    }
                }
            },
        }
    }
}

/// What a source says: the model, and the variables that it declares.
pub struct PreModelView {
    pub problem: PreProblemView,
    pub domains: Seq<DomainVariableView>,
}

/// The model that the tokens write: the objective, `s.t.`, the conditions,
/// and then, if they are there, the constants behind `where` and the
/// declarations of the variables behind `define`.
pub open spec fn problem_at(ts: Seq<TokenView>) -> Result<PreModelView, CompilationErrorView> {
    match objective_at(ts, skip_separators(ts, 0)) {
        Err(e) => Err(e),
        Ok((objective, p)) => {
            let sign = skip_separators(ts, within(ts, p, 0));
            if !is_symbol(ts, sign, Symbol::SubjectTo) {
                Err(missing(ts, sign, "s.t."@))
            } else {
                match conditions_at(ts, sign + 1) {
                    Err(e) => Err(e),
                    Ok((conditions, q)) => {
                        let block = within(ts, q, sign + 1);
                        let constants = if is_word(ts, block, "where"@) {
                            constants_at(ts, block + 1)
                        } else {
                            Ok((Seq::<ConstantView>::empty(), block))
                        };
                        match constants {
                            Err(e) => Err(e),
                            Ok((constants, r)) => {
                                let last = within(ts, r, block);
                                let domains = if is_word(ts, last, "define"@) {
                                    domains_at(ts, last + 1)
                                } else {
                                    Ok((Seq::<DomainVariableView>::empty(), last))
                                };
                                match domains {
                                    Err(e) => Err(e),
                                    Ok((domains, end)) => if skip_separators(
                                        ts,
                                        within(ts, end, last),
                                    ) < ts.len() {
                                        Err(
                                            unexpected(
                                                ts,
                                                skip_separators(ts, within(ts, end, last)),
                                            ),
                                        )
                                    } else {
                                        Ok(
                                            PreModelView {
                                                problem: PreProblemView {
                                                    objective_type: objective.0,
                                                    objective: objective.1,
                                                    conditions,
                                                    constants,
                                                },
                                                domains,
                                            },
                                        )
                                    },
                                }
                            },
                        }
                    },
                }
            }
        },
    }
}

/// What a source with the bytes `bytes` says: the tree of its tokens, or
/// the first error of the lexer or of the grammar.
pub open spec fn parsed(bytes: Seq<u8>) -> Result<PreModelView, CompilationErrorView> {
    match tokens_of(bytes) {
        Err(e) => Err(e),
        Ok(ts) => problem_at(ts),
    }
}

} // verus!
