//! From the bytes of a source text to its tokens.
//!
//! What the tokens of a text are is given by [`tokens_of`], a function on
//! the bytes of the text; [`tokenize`] computes it. Blanks are passed over,
//! as are comments from `//` to the end of the line; a line break and a
//! semicolon are separators.
use vstd::prelude::*;
use vstd::string::*;
use crate::error::{CompilationError, CompilationErrorView, ParseError, ParseErrorView};
use crate::number::Number;
use crate::span::InputSpan;
use crate::text::owned;

verus! {

/// The signs of the language.
#[derive(Clone, Copy, Debug, PartialEq, Eq, Structural)]
pub enum Symbol {
    Plus,
    Minus,
    Star,
    Slash,
    Bar,
    LeftParen,
    RightParen,
    LeftBrace,
    RightBrace,
    LeftBracket,
    RightBracket,
    Comma,
    Colon,
    Equal,
    LowerOrEqual,
    UpperOrEqual,
    DotDot,
    Arrow,
    Underscore,
    SubjectTo,
}

/// What a token is.
#[derive(Debug, PartialEq)]
pub enum TokenKind {
    Number(Number),
    /// A word: letters and digits, the first of them a letter.
    Ident(String),
    /// A text between double quotes.
    Text(String),
    Symbol(Symbol),
    /// A line break or a semicolon.
    Separator,
}

/// A token and its place in the source.
#[derive(Debug, PartialEq)]
pub struct Token {
    pub kind: TokenKind,
    pub span: InputSpan,
}

/// What a token is, as a mathematical value.
pub enum TokenKindView {
    Number(Number),
    Ident(Seq<char>),
    Text(Seq<char>),
    Symbol(Symbol),
    Separator,
}

/// A token as a mathematical value.
pub struct TokenView {
    pub kind: TokenKindView,
    pub span: InputSpan,
}

impl View for TokenKind {
    type V = TokenKindView;

    open spec fn view(&self) -> TokenKindView {
        match self {
            TokenKind::Number(n) => TokenKindView::Number(*n),
            TokenKind::Ident(s) => TokenKindView::Ident(s@),
            TokenKind::Text(s) => TokenKindView::Text(s@),
            TokenKind::Symbol(s) => TokenKindView::Symbol(*s),
            TokenKind::Separator => TokenKindView::Separator,
        }
    }
}

impl View for Token {
    type V = TokenView;

    open spec fn view(&self) -> TokenView {
        TokenView { kind: self.kind@, span: self.span }
    }
}

/// The views of a list of tokens.
pub open spec fn token_views(tokens: Seq<Token>) -> Seq<TokenView> {
    Seq::new(tokens.len(), |i: int| tokens[i]@)
}

/// The byte is a blank, a tab or a carriage return.
pub open spec fn is_blank(b: u8) -> bool {
    b == 32 || b == 9 || b == 13
}

/// The byte is a decimal digit.
pub open spec fn is_digit(b: u8) -> bool {
    48 <= b <= 57
}

/// The byte is a letter of the Latin alphabet.
pub open spec fn is_letter(b: u8) -> bool {
    (65 <= b <= 90) || (97 <= b <= 122)
}

/// The byte goes on a character that began before it.
pub open spec fn is_continuation(b: u8) -> bool {
    128 <= b <= 191
}

/// The sorts of bytes that a run is made of.
#[derive(Clone, Copy, Debug, PartialEq, Eq, Structural)]
pub enum ByteClass {
    Digit,
    Word,
    Continuation,
    Comment,
}

/// The byte is of the sort `class`.
pub open spec fn in_class(b: u8, class: ByteClass) -> bool {
    match class {
        ByteClass::Digit => is_digit(b),
        ByteClass::Word => is_letter(b) || is_digit(b),
        ByteClass::Continuation => is_continuation(b),
        ByteClass::Comment => b != 10,
    }
}

/// The place behind the longest run of bytes of the sort `class` that
/// begins at `pos`.
pub open spec fn run_end(bytes: Seq<u8>, pos: int, class: ByteClass) -> int
    decreases bytes.len() - pos,
{
    if pos < 0 || pos >= bytes.len() || !in_class(bytes[pos], class) {
        pos
    } else {
        run_end(bytes, pos + 1, class)
    }
}

/// The number that the digits from `from` up to but without `to` write;
/// `None` where it does not fit into 64 bits.
pub open spec fn digits_value(bytes: Seq<u8>, from: int, to: int, front: u64) -> Option<u64>
    decreases to - from,
{
    if from >= to {
        Some(front)
    } else if front * 10 + (bytes[from] - 48) > u64::MAX {
        None
    } else {
        digits_value(bytes, from + 1, to, (front * 10 + (bytes[from] - 48)) as u64)
    }
}

/// The place of the double quote that closes the text that begins behind a
/// double quote at `pos`; `None` where the line or the source ends first.
pub open spec fn text_end(bytes: Seq<u8>, pos: int) -> Option<int>
    decreases bytes.len() - pos,
{
    if pos < 0 || pos >= bytes.len() || bytes[pos] == 10 {
        None
    } else if bytes[pos] == 34 {
        Some(pos)
    } else {
        text_end(bytes, pos + 1)
    }
}

/// How many characters begin between `from` and `to`.
pub open spec fn characters(bytes: Seq<u8>, from: int, to: int) -> nat
    decreases to - from,
{
    if from >= to {
        0
    } else if is_continuation(bytes[from]) {
        characters(bytes, from + 1, to)
    } else {
        1 + characters(bytes, from + 1, to)
    }
}

/// The text of the source that a span covers, and nothing where the span
/// does not lie in the source.
pub open spec fn text_at(span: InputSpan, bytes: Seq<u8>) -> Seq<char> {
    if span.fits(bytes) {
        span.covered(bytes)
    } else {
        Seq::<char>::empty()
    }
}

/// The sign that the bytes at `pos` write, with the count of its bytes.
pub open spec fn symbol_at(bytes: Seq<u8>, pos: int) -> Option<(Symbol, int)> {
    let b = bytes[pos];
    let next = if pos + 1 < bytes.len() {
        bytes[pos + 1]
    } else {
        0u8
    };
    let third = if pos + 2 < bytes.len() {
        bytes[pos + 2]
    } else {
        0u8
    };
    if b == 60 && next == 61 {
        Some((Symbol::LowerOrEqual, 2))
    } else if b == 62 && next == 61 {
        Some((Symbol::UpperOrEqual, 2))
    } else if b == 46 && next == 46 {
        Some((Symbol::DotDot, 2))
    } else if b == 45 && next == 62 {
        Some((Symbol::Arrow, 2))
    } else if b == 226 && next == 137 && third == 164 {
        Some((Symbol::LowerOrEqual, 3))
    } else if b == 226 && next == 137 && third == 165 {
        Some((Symbol::UpperOrEqual, 3))
    } else if b == 194 && next == 183 {
        Some((Symbol::Star, 2))
    } else if b == 43 {
        Some((Symbol::Plus, 1))
    } else if b == 45 {
        Some((Symbol::Minus, 1))
    } else if b == 42 {
        Some((Symbol::Star, 1))
    } else if b == 47 {
        Some((Symbol::Slash, 1))
    } else if b == 124 {
        Some((Symbol::Bar, 1))
    } else if b == 40 {
        Some((Symbol::LeftParen, 1))
    } else if b == 41 {
        Some((Symbol::RightParen, 1))
    } else if b == 123 {
        Some((Symbol::LeftBrace, 1))
    } else if b == 125 {
        Some((Symbol::RightBrace, 1))
    } else if b == 91 {
        Some((Symbol::LeftBracket, 1))
    } else if b == 93 {
        Some((Symbol::RightBracket, 1))
    } else if b == 44 {
        Some((Symbol::Comma, 1))
    } else if b == 58 {
        Some((Symbol::Colon, 1))
    } else if b == 61 {
        Some((Symbol::Equal, 1))
    } else if b == 95 {
        Some((Symbol::Underscore, 1))
    } else {
        None
    }
}

/// The word that begins at `pos` is `s`, and `.t.` follows it: the sign
/// `s.t.`.
pub open spec fn is_subject_to(bytes: Seq<u8>, pos: int, end: int) -> bool {
    &&& end == pos + 1
    &&& bytes[pos] == 115
    &&& end + 2 < bytes.len()
    &&& bytes[end] == 46
    &&& bytes[end + 1] == 116
    &&& bytes[end + 2] == 46
}

/// What the lexer finds at a place: nothing to hand on, or a token.
pub struct StepView {
    pub token: Option<TokenView>,
    /// The place, line and column behind what was found.
    pub pos: int,
    pub line: int,
    pub col: int,
}

/// The error of the lexer at the span `span`.
pub open spec fn lex_error(kind: ParseErrorView, span: InputSpan, chars: int, bytes: Seq<u8>)
    -> CompilationErrorView {
    CompilationErrorView {
        kind,
        start_line: span.start_line as nat,
        start: span.start_column as nat,
        end_line: span.start_line as nat,
        end: (span.start_column + chars) as nat,
        text: text_at(span, bytes),
    }
}

/// What the lexer finds at the place `pos`, which lies in the source, on the
/// line `line` and in the column `col`.
pub open spec fn step_at(bytes: Seq<u8>, pos: int, line: int, col: int) -> Result<
    StepView,
    CompilationErrorView,
> {
    let b = bytes[pos];
    let here = |len: int| InputSpan {
        start_line: line as usize,
        start_column: col as usize,
        start: pos as usize,
        len: len as usize,
    };
    if is_blank(b) {
        Ok(StepView { token: None, pos: pos + 1, line, col: col + 1 })
    } else if b == 10 {
        Ok(
            StepView {
                token: Some(TokenView { kind: TokenKindView::Separator, span: here(1) }),
                pos: pos + 1,
                line: line + 1,
                col: 1,
            },
        )
    } else if b == 59 {
        Ok(
            StepView {
                token: Some(TokenView { kind: TokenKindView::Separator, span: here(1) }),
                pos: pos + 1,
                line,
                col: col + 1,
            },
        )
    } else if b == 47 && pos + 1 < bytes.len() && bytes[pos + 1] == 47 {
        let end = run_end(bytes, pos, ByteClass::Comment);
        Ok(StepView { token: None, pos: end, line, col: col + characters(bytes, pos, end) })
    } else if is_letter(b) {
        let end = run_end(bytes, pos, ByteClass::Word);
        if is_subject_to(bytes, pos, end) {
            Ok(
                StepView {
                    token: Some(
                        TokenView { kind: TokenKindView::Symbol(Symbol::SubjectTo), span: here(4) },
                    ),
                    pos: pos + 4,
                    line,
                    col: col + 4,
                },
            )
        } else {
            Ok(
                StepView {
                    token: Some(
                        TokenView {
                            kind: TokenKindView::Ident(text_at(here(end - pos), bytes)),
                            span: here(end - pos),
                        },
                    ),
                    pos: end,
                    line,
                    col: col + (end - pos),
                },
            )
        }
    } else if is_digit(b) {
        let whole_end = run_end(bytes, pos, ByteClass::Digit);
        let has_fraction = whole_end + 1 < bytes.len() && bytes[whole_end] == 46 && is_digit(
            bytes[whole_end + 1],
        );
        let end = if has_fraction {
            run_end(bytes, whole_end + 1, ByteClass::Digit)
        } else {
            whole_end
        };
        let scale = if has_fraction {
            end - (whole_end + 1)
        } else {
            0
        };
        let value = match digits_value(bytes, pos, whole_end, 0) {
            None => None,
            Some(whole) => if has_fraction {
                digits_value(bytes, whole_end + 1, end, whole)
            } else {
                Some(whole)
            },
        };
        if value is None || scale > 255 {
            Err(
                lex_error(
                    ParseErrorView::SemanticError("The number does not fit"@),
                    here(end - pos),
                    end - pos,
                    bytes,
                ),
            )
        } else {
            Ok(
                StepView {
                    token: Some(
                        TokenView {
                            kind: TokenKindView::Number(
                                Number {
                                    negative: false,
                                    magnitude: value->Some_0,
                                    scale: scale as u8,
                                },
                            ),
                            span: here(end - pos),
                        },
                    ),
                    pos: end,
                    line,
                    col: col + (end - pos),
                },
            )
        }
    } else if b == 34 {
        match text_end(bytes, pos + 1) {
            None => Err(
                lex_error(ParseErrorView::MissingToken("\""@), here(1), 1, bytes),
            ),
            Some(close) => Ok(
                StepView {
                    token: Some(
                        TokenView {
                            kind: TokenKindView::Text(
                                text_at(
                                    InputSpan {
                                        start_line: line as usize,
                                        start_column: (col + 1) as usize,
                                        start: (pos + 1) as usize,
                                        len: (close - (pos + 1)) as usize,
                                    },
                                    bytes,
                                ),
                            ),
                            span: here(close + 1 - pos),
                        },
                    ),
                    pos: close + 1,
                    line,
                    col: col + characters(bytes, pos, close + 1),
                },
            ),
        }
    } else {
        match symbol_at(bytes, pos) {
            Some((symbol, len)) => Ok(
                StepView {
                    token: Some(
                        TokenView { kind: TokenKindView::Symbol(symbol), span: here(len) },
                    ),
                    pos: pos + len,
                    line,
                    col: col + if len == 3 {
                        1
                    } else if symbol == Symbol::Star && len == 2 {
                        1
                    } else {
                        len
                    },
                },
            ),
            None => {
                let end = run_end(bytes, pos + 1, ByteClass::Continuation);
                Err(
                    lex_error(
                        ParseErrorView::UnexpectedToken(text_at(here(end - pos), bytes)),
                        here(end - pos),
                        1,
                        bytes,
                    ),
                )
            },
        }
    }
}

/// A step of the lexer goes forward, and stays in the source.
pub proof fn lemma_step_advances(bytes: Seq<u8>, pos: int, line: int, col: int)
    requires
        0 <= pos < bytes.len(),
    ensures
        step_at(bytes, pos, line, col) is Ok ==> pos < step_at(bytes, pos, line, col)->Ok_0.pos
            <= bytes.len(),
{
    lemma_run_end(bytes, pos, ByteClass::Comment);
    lemma_run_end(bytes, pos, ByteClass::Word);
    lemma_run_end(bytes, pos, ByteClass::Digit);
    let whole_end = run_end(bytes, pos, ByteClass::Digit);
    if whole_end + 1 < bytes.len() {
        lemma_run_end(bytes, whole_end + 1, ByteClass::Digit);
    }
    lemma_text_end(bytes, pos + 1);
}

/// The end of a run lies between its start and the end of the source, and
/// is behind the start where the byte at the start is of the sort.
pub proof fn lemma_run_end(bytes: Seq<u8>, pos: int, class: ByteClass)
    requires
        0 <= pos <= bytes.len(),
    ensures
        pos <= run_end(bytes, pos, class) <= bytes.len(),
        pos < bytes.len() && in_class(bytes[pos], class) ==> pos < run_end(bytes, pos, class),
        forall|k: int| pos <= k < run_end(bytes, pos, class) ==> in_class(#[trigger] bytes[k], class),
    decreases bytes.len() - pos,
{
    if pos < bytes.len() && in_class(bytes[pos], class) {
        lemma_run_end(bytes, pos + 1, class);
    }
}

/// The double quote that closes a text lies in the source, at or behind the
/// place from which it is looked for.
pub proof fn lemma_text_end(bytes: Seq<u8>, pos: int)
    requires
        0 <= pos <= bytes.len(),
    ensures
        text_end(bytes, pos) is Some ==> pos <= text_end(bytes, pos)->Some_0 < bytes.len(),
    decreases bytes.len() - pos,
{
    if pos < bytes.len() && bytes[pos] != 10 && bytes[pos] != 34 {
        lemma_text_end(bytes, pos + 1);
    }
}

/// The tokens of the source from the place `pos` on.
pub open spec fn tokens_from(bytes: Seq<u8>, pos: int, line: int, col: int) -> Result<
    Seq<TokenView>,
    CompilationErrorView,
>
    decreases bytes.len() - pos,
{
    if pos < 0 || pos >= bytes.len() {
        Ok(Seq::<TokenView>::empty())
    } else {
        match step_at(bytes, pos, line, col) {
            Err(e) => Err(e),
            Ok(step) => {
                proof {
                    lemma_step_advances(bytes, pos, line, col);
                }
                match tokens_from(bytes, step.pos, step.line, step.col) {
                    Err(e) => Err(e),
                    Ok(rest) => match step.token {
                        Some(token) => Ok(seq![token] + rest),
                        None => Ok(rest),
                    },
                }
            },
        }
    }
}

/// The tokens of a source with the bytes `bytes`; the first error where the
/// source has a byte that begins no token, a text that is not closed on its
/// line, or a number that does not fit.
pub open spec fn tokens_of(bytes: Seq<u8>) -> Result<Seq<TokenView>, CompilationErrorView> {
    if bytes.len() > usize::MAX - 8 {
        Err(
            CompilationErrorView {
                kind: ParseErrorView::SemanticError("The source is too large"@),
                start_line: 1,
                start: 1,
                end_line: 1,
                end: 1,
                text: Seq::<char>::empty(),
            },
        )
    } else {
        tokens_from(bytes, 0, 1, 1)
    }
}

/// What the lexer finds at a place.
pub struct Step {
    pub token: Option<Token>,
    pub pos: usize,
    pub line: usize,
    pub col: usize,
}

impl View for Step {
    type V = StepView;

    open spec fn view(&self) -> StepView {
        StepView {
            token: match self.token {
                Some(t) => Some(t@),
                None => None,
            },
            pos: self.pos as int,
            line: self.line as int,
            col: self.col as int,
        }
    }
}

/// Whether the byte is of the sort `class`.
fn byte_in_class(b: u8, class: ByteClass) -> (r: bool)
    ensures
        r == in_class(b, class),
{
    match class {
        ByteClass::Digit => 48 <= b && b <= 57,
        ByteClass::Word => (65 <= b && b <= 90) || (97 <= b && b <= 122) || (48 <= b && b <= 57),
        ByteClass::Continuation => 128 <= b && b <= 191,
        ByteClass::Comment => b != 10,
    }
}

/// The place behind the longest run of bytes of the sort `class` that
/// begins at `pos`.
fn scan_run(bytes: &[u8], pos: usize, class: ByteClass) -> (r: usize)
    requires
        pos <= bytes.len(),
    ensures
        r == run_end(bytes@, pos as int, class),
        pos <= r <= bytes.len(),
{
    let mut i = pos;
    while i < bytes.len() && byte_in_class(bytes[i], class)
        invariant
            pos <= i <= bytes.len(),
            run_end(bytes@, pos as int, class) == run_end(bytes@, i as int, class),
        decreases bytes.len() - i,
    {
        i = i + 1;
    }
    i
}

/// The number that the digits from `from` up to but without `to` write
/// behind the digits of `front`.
fn scan_digits(bytes: &[u8], from: usize, to: usize, front: u64) -> (r: Option<u64>)
    requires
        from <= to <= bytes.len(),
        forall|k: int| from <= k < to ==> is_digit(#[trigger] bytes[k]),
    ensures
        r == digits_value(bytes@, from as int, to as int, front),
{
    let mut value = front;
    let mut i = from;
    while i < to
        invariant
            from <= i <= to,
            to <= bytes.len(),
            forall|k: int| from <= k < to ==> is_digit(#[trigger] bytes[k]),
            digits_value(bytes@, from as int, to as int, front) == digits_value(
                bytes@,
                i as int,
                to as int,
                value,
            ),
        decreases to - i,
    {
        assert(is_digit(bytes[i as int]));
        let digit = (bytes[i] - 48) as u64;
        if value > (u64::MAX - digit) / 10 {
            assert(value * 10 + digit > u64::MAX) by (nonlinear_arith)
                requires
                    value > (u64::MAX - digit) / 10,
                    digit <= 9,
            ;
            return None;
        }
        assert(value * 10 + digit <= u64::MAX) by (nonlinear_arith)
            requires
                value <= (u64::MAX - digit) / 10,
                digit <= 9,
        ;
        value = value * 10 + digit;
        i = i + 1;
    }
    Some(value)
}

/// The place of the double quote that closes a text.
fn scan_text_end(bytes: &[u8], pos: usize) -> (r: Option<usize>)
    requires
        pos <= bytes.len(),
    ensures
        match r {
            Some(close) => text_end(bytes@, pos as int) == Some(close as int) && pos <= close
                < bytes.len(),
            None => text_end(bytes@, pos as int) is None,
        },
{
    let mut i = pos;
    while i < bytes.len()
        invariant
            pos <= i <= bytes.len(),
            text_end(bytes@, pos as int) == text_end(bytes@, i as int),
        decreases bytes.len() - i,
    {
        if bytes[i] == 10 {
            return None;
        }
        if bytes[i] == 34 {
            return Some(i);
        }
        i = i + 1;
    }
    None
}

/// How many characters begin between `from` and `to`.
fn count_characters(bytes: &[u8], from: usize, to: usize) -> (r: usize)
    requires
        from <= to <= bytes.len(),
    ensures
        r == characters(bytes@, from as int, to as int),
        r <= to - from,
{
    let mut count: usize = 0;
    let mut i = from;
    while i < to
        invariant
            from <= i <= to,
            to <= bytes.len(),
            count <= i - from,
            characters(bytes@, from as int, to as int) == count + characters(
                bytes@,
                i as int,
                to as int,
            ),
        decreases to - i,
    {
        if !(128 <= bytes[i] && bytes[i] <= 191) {
            count = count + 1;
        }
        i = i + 1;
    }
    count
}

/// The text of the source that the span covers.
pub fn text_of(source: &str, span: InputSpan) -> (r: String)
    ensures
        r@ == text_at(span, source.spec_bytes()),
{
    match span.get_span_text(source) {
        Ok(text) => owned(text),
        Err(_) => String::new(),
    }
}

/// The sign that the bytes at `pos` write, with the count of its bytes.
fn read_symbol(bytes: &[u8], pos: usize) -> (r: Option<(Symbol, usize)>)
    requires
        pos < bytes.len(),
    ensures
        match r {
            Some((symbol, len)) => symbol_at(bytes@, pos as int) == Some((symbol, len as int))
                && 1 <= len <= 3 && pos + len <= bytes.len(),
            None => symbol_at(bytes@, pos as int) is None,
        },
{
    let b = bytes[pos];
    let next: u8 = if pos + 1 < bytes.len() {
        bytes[pos + 1]
    } else {
        0
    };
    let third: u8 = if pos + 1 < bytes.len() && pos + 2 < bytes.len() {
        bytes[pos + 2]
    } else {
        0
    };
    if b == 60 && next == 61 {
        Some((Symbol::LowerOrEqual, 2))
    } else if b == 62 && next == 61 {
        Some((Symbol::UpperOrEqual, 2))
    } else if b == 46 && next == 46 {
        Some((Symbol::DotDot, 2))
    } else if b == 45 && next == 62 {
        Some((Symbol::Arrow, 2))
    } else if b == 226 && next == 137 && third == 164 {
        Some((Symbol::LowerOrEqual, 3))
    } else if b == 226 && next == 137 && third == 165 {
        Some((Symbol::UpperOrEqual, 3))
    } else if b == 194 && next == 183 {
        Some((Symbol::Star, 2))
    } else if b == 43 {
        Some((Symbol::Plus, 1))
    } else if b == 45 {
        Some((Symbol::Minus, 1))
    } else if b == 42 {
        Some((Symbol::Star, 1))
    } else if b == 47 {
        Some((Symbol::Slash, 1))
    } else if b == 124 {
        Some((Symbol::Bar, 1))
    } else if b == 40 {
        Some((Symbol::LeftParen, 1))
    } else if b == 41 {
        Some((Symbol::RightParen, 1))
    } else if b == 123 {
        Some((Symbol::LeftBrace, 1))
    } else if b == 125 {
        Some((Symbol::RightBrace, 1))
    } else if b == 91 {
        Some((Symbol::LeftBracket, 1))
    } else if b == 93 {
        Some((Symbol::RightBracket, 1))
    } else if b == 44 {
        Some((Symbol::Comma, 1))
    } else if b == 58 {
        Some((Symbol::Colon, 1))
    } else if b == 61 {
        Some((Symbol::Equal, 1))
    } else if b == 95 {
        Some((Symbol::Underscore, 1))
    } else {
        None
    }
}

/// The error of the lexer at the span `span`, which holds `chars`
/// characters.
fn error_at(kind: ParseError, span: InputSpan, chars: usize, source: &str) -> (r: CompilationError)
    requires
        span.start_column + chars <= usize::MAX,
    ensures
        r@ == lex_error(kind@, span, chars as int, source.spec_bytes()),
{
    CompilationError::new(
        kind,
        span.start_line,
        span.start_column,
        span.start_line,
        span.start_column + chars,
        text_of(source, span),
    )
}

/// What the lexer finds at the place `pos`.
fn step(source: &str, bytes: &[u8], pos: usize, line: usize, col: usize) -> (r: Result<
    Step,
    CompilationError,
>)
    requires
        bytes@ == source.spec_bytes(),
        bytes.len() <= usize::MAX - 8,
        pos < bytes.len(),
        1 <= line <= pos + 1,
        1 <= col <= pos + 1,
    ensures
        match r {
            Ok(s) => step_at(bytes@, pos as int, line as int, col as int) == Ok::<
                StepView,
                CompilationErrorView,
            >(s@) && 1 <= s.line <= s.pos + 1 && 1 <= s.col <= s.pos + 1 && pos < s.pos
                <= bytes.len(),
            Err(e) => step_at(bytes@, pos as int, line as int, col as int) == Err::<
                StepView,
                CompilationErrorView,
            >(e@),
        },
{
    let b = bytes[pos];
    if b == 32 || b == 9 || b == 13 {
        return Ok(Step { token: None, pos: pos + 1, line, col: col + 1 });
    }
    if b == 10 {
        let span = InputSpan::new(line, col, pos, 1);
        return Ok(
            Step {
                token: Some(Token { kind: TokenKind::Separator, span }),
                pos: pos + 1,
                line: line + 1,
                col: 1,
            },
        );
    }
    if b == 59 {
        let span = InputSpan::new(line, col, pos, 1);
        return Ok(
            Step {
                token: Some(Token { kind: TokenKind::Separator, span }),
                pos: pos + 1,
                line,
                col: col + 1,
            },
        );
    }
    if b == 47 && pos + 1 < bytes.len() && bytes[pos + 1] == 47 {
        proof {
            lemma_run_end(bytes@, pos as int, ByteClass::Comment);
        }
        let end = scan_run(bytes, pos, ByteClass::Comment);
        let chars = count_characters(bytes, pos, end);
        return Ok(Step { token: None, pos: end, line, col: col + chars });
    }
    if (65 <= b && b <= 90) || (97 <= b && b <= 122) {
        proof {
            lemma_run_end(bytes@, pos as int, ByteClass::Word);
        }
        let end = scan_run(bytes, pos, ByteClass::Word);
        if end == pos + 1 && b == 115 && end + 2 < bytes.len() && bytes[end] == 46 && bytes[end
            + 1] == 116 && bytes[end + 2] == 46 {
            let span = InputSpan::new(line, col, pos, 4);
            return Ok(
                Step {
                    token: Some(Token { kind: TokenKind::Symbol(Symbol::SubjectTo), span }),
                    pos: pos + 4,
                    line,
                    col: col + 4,
                },
            );
        }
        let span = InputSpan::new(line, col, pos, end - pos);
        return Ok(
            Step {
                token: Some(Token { kind: TokenKind::Ident(text_of(source, span)), span }),
                pos: end,
                line,
                col: col + (end - pos),
            },
        );
    }
    if 48 <= b && b <= 57 {
        proof {
            lemma_run_end(bytes@, pos as int, ByteClass::Digit);
        }
        let whole_end = scan_run(bytes, pos, ByteClass::Digit);
        let has_fraction = whole_end + 1 < bytes.len() && bytes[whole_end] == 46 && 48
            <= bytes[whole_end + 1] && bytes[whole_end + 1] <= 57;
        let end = if has_fraction {
            proof {
                lemma_run_end(bytes@, whole_end + 1, ByteClass::Digit);
            }
            scan_run(bytes, whole_end + 1, ByteClass::Digit)
        } else {
            whole_end
        };
        let scale: usize = if has_fraction {
            end - (whole_end + 1)
        } else {
            0
        };
        let span = InputSpan::new(line, col, pos, end - pos);
        let value = match scan_digits(bytes, pos, whole_end, 0) {
            None => None,
            Some(whole) => if has_fraction {
                scan_digits(bytes, whole_end + 1, end, whole)
            } else {
                Some(whole)
            },
        };
        return match value {
            Some(magnitude) => {
                if scale > 255 {
                    Err(
                        error_at(
                            ParseError::SemanticError(owned("The number does not fit")),
                            span,
                            end - pos,
                            source,
                        ),
                    )
                } else {
                    Ok(
                        Step {
                            token: Some(
                                Token {
                                    kind: TokenKind::Number(
                                        Number::new(false, magnitude, scale as u8),
                                    ),
                                    span,
                                },
                            ),
                            pos: end,
                            line,
                            col: col + (end - pos),
                        },
                    )
                }
            },
            None => Err(
                error_at(
                    ParseError::SemanticError(owned("The number does not fit")),
                    span,
                    end - pos,
                    source,
                ),
            ),
        };
    }
    if b == 34 {
        let span = InputSpan::new(line, col, pos, 1);
        return match scan_text_end(bytes, pos + 1) {
            None => Err(error_at(ParseError::MissingToken(owned("\"")), span, 1, source)),
            Some(close) => {
                let inner = InputSpan::new(line, col + 1, pos + 1, close - (pos + 1));
                let chars = count_characters(bytes, pos, close + 1);
                Ok(
                    Step {
                        token: Some(
                            Token {
                                kind: TokenKind::Text(text_of(source, inner)),
                                span: InputSpan::new(line, col, pos, close + 1 - pos),
                            },
                        ),
                        pos: close + 1,
                        line,
                        col: col + chars,
                    },
                )
            },
        };
    }
    match read_symbol(bytes, pos) {
        Some((symbol, len)) => {
            let span = InputSpan::new(line, col, pos, len);
            let chars: usize = if len == 3 {
                1
            } else if symbol == Symbol::Star && len == 2 {
                1
            } else {
                len
            };
            Ok(
                Step {
                    token: Some(Token { kind: TokenKind::Symbol(symbol), span }),
                    pos: pos + len,
                    line,
                    col: col + chars,
                },
            )
        },
        None => {
            proof {
                lemma_run_end(bytes@, pos + 1, ByteClass::Continuation);
            }
            let end = scan_run(bytes, pos + 1, ByteClass::Continuation);
            let span = InputSpan::new(line, col, pos, end - pos);
            Err(error_at(ParseError::UnexpectedToken(text_of(source, span)), span, 1, source))
        },
    }
}

/// The tokens of the source text.
pub fn tokenize(source: &str) -> (r: Result<Vec<Token>, CompilationError>)
    ensures
        match r {
            Ok(tokens) => tokens_of(source.spec_bytes()) == Ok::<
                Seq<TokenView>,
                CompilationErrorView,
            >(token_views(tokens@)),
            Err(e) => tokens_of(source.spec_bytes()) == Err::<
                Seq<TokenView>,
                CompilationErrorView,
            >(e@),
        },
        r is Ok ==> r->Ok_0.len() <= source.spec_bytes().len() <= usize::MAX - 8,
{
    let bytes = source.as_bytes();
    if bytes.len() > usize::MAX - 8 {
        return Err(
            CompilationError::new(
                ParseError::SemanticError(owned("The source is too large")),
                1,
                1,
                1,
                1,
                String::new(),
            ),
        );
    }
    let mut tokens: Vec<Token> = Vec::new();
    let mut pos: usize = 0;
    let mut line: usize = 1;
    let mut col: usize = 1;
    assert(token_views(tokens@) =~= Seq::<TokenView>::empty());
    while pos < bytes.len()
        invariant
            bytes@ == source.spec_bytes(),
            bytes.len() <= usize::MAX - 8,
            pos <= bytes.len(),
            tokens.len() <= pos,
            1 <= line <= pos + 1,
            1 <= col <= pos + 1,
            tokens_from(bytes@, 0, 1, 1) == match tokens_from(
                bytes@,
                pos as int,
                line as int,
                col as int,
            ) {
                Ok(rest) => Ok::<Seq<TokenView>, CompilationErrorView>(
                    token_views(tokens@) + rest,
                ),
                Err(e) => Err::<Seq<TokenView>, CompilationErrorView>(e),
            },
        decreases bytes.len() - pos,
    {
        let found = match step(source, bytes, pos, line, col) {
            Ok(s) => s,
            Err(e) => {
                return Err(e);
            },
        };
        let ghost before = token_views(tokens@);
        let ghost rest_after = tokens_from(
            bytes@,
            found.pos as int,
            found.line as int,
            found.col as int,
        );
        pos = found.pos;
        line = found.line;
        col = found.col;
        match found.token {
            Some(token) => {
                let ghost view = token@;
                tokens.push(token);
                proof {
                    assert(token_views(tokens@) =~= before.push(view));
                    match rest_after {
                        Ok(rest) => {
                            assert(before + (seq![view] + rest) =~= token_views(tokens@) + rest);
                        },
                        Err(_) => {},
                    }
                }
            },
            None => {},
        }
    }
    assert(token_views(tokens@) + Seq::<TokenView>::empty() =~= token_views(tokens@));
    Ok(tokens)
}

} // verus!
