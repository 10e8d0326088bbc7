//! Source positions.
//!
//! An [`InputSpan`] names a stretch of the source text by the byte offset at
//! which it starts, its length in bytes and the line and column of its first
//! character. Spans are plain values: they are copied freely and never
//! changed.
use vstd::prelude::*;
use vstd::string::*;
use vstd::utf8::is_char_boundary;

verus! {

/// `pest::Span`: a stretch of an input text that a parser of the `pest`
/// crate has read. Values of it are carried through as they are; nothing is
/// claimed of what one holds.
#[verifier::external_type_specification]
#[verifier::external_body]
pub struct ExPestSpan<'i>(pest::Span<'i>);

/// `pest::Span::start_pos` followed by `pest::Position::line_col`: the line
/// and the column of the first character of the span, both counted from one.
#[verifier::external_body]
pub(crate) fn pest_start_line_col(span: &pest::Span) -> (r: (usize, usize))
    ensures
        r.0 >= 1,
        r.1 >= 1,
{
    span.start_pos().line_col()
}

/// `pest::Span::end_pos` followed by `pest::Position::line_col`: the line and
/// the column of the position just behind the span, both counted from one.
#[verifier::external_body]
pub(crate) fn pest_end_line_col(span: &pest::Span) -> (r: (usize, usize))
    ensures
        r.0 >= 1,
        r.1 >= 1,
{
    span.end_pos().line_col()
}

/// `pest::Span::start` and `pest::Span::end`: the byte offsets between which
/// the span lies. Nothing is claimed of them.
#[verifier::external_body]
pub(crate) fn pest_offsets(span: &pest::Span) -> (r: (usize, usize))
{
    (span.start(), span.end())
}

/// `pest::Span::get_input`: the whole text that the span is a stretch of.
/// Nothing is claimed of it.
#[verifier::external_body]
pub(crate) fn pest_input<'i>(span: &pest::Span<'i>) -> (r: &'i str)
{
    span.get_input()
}

/// A stretch of the source text.
#[derive(Clone, Copy, Debug, PartialEq, Eq, Structural)]
pub struct InputSpan {
    pub start_line: usize,
    pub start_column: usize,
    pub start: usize,
    pub len: usize,
}

impl InputSpan {
    pub fn new(start_line: usize, start_column: usize, start: usize, len: usize) -> (r: InputSpan)
        ensures
            r == (InputSpan { start_line, start_column, start, len }),
    {
        InputSpan { start_line, start_column, start, len }
    }

    /// The span of a parser's span: its offsets and the line and column of its
    /// start. The length is zero where the parser's span ends before it starts.
    pub fn from_span(span: &pest::Span) -> (r: InputSpan)
        ensures
            r.start_line >= 1,
            r.start_column >= 1,
    {
        let (start_line, start_column) = pest_start_line_col(span);
        let (start, end) = pest_offsets(span);
        let len: usize = if end >= start {
            end - start
        } else {
            0
        };
        InputSpan { start_line, start_column, start, len }
    }

    /// The bytes of `source` that the span covers lie inside `source` and
    /// begin and end between two characters.
    pub open spec fn fits(self, source: Seq<u8>) -> bool {
        &&& self.start < source.len()
        &&& self.start + self.len <= source.len()
        &&& is_char_boundary(source, self.start as int)
        &&& is_char_boundary(source, self.start + self.len)
    }

    /// The characters that the span covers in a text with the bytes `source`.
    pub open spec fn covered(self, source: Seq<u8>) -> Seq<char> {
        vstd::utf8::decode_utf8(source.subrange(self.start as int, self.start + self.len))
    }

    /// The text of `source` that the span covers, as a text of its own, and
    /// the empty text where the span does not lie inside `source`.
    pub fn text_in(&self, source: &str) -> (r: String)
        ensures
            r@ == if self.fits(source.spec_bytes()) {
                self.covered(source.spec_bytes())
            } else {
                Seq::<char>::empty()
            },
    {
        match self.get_span_text(source) {
            Ok(text) => text.to_owned(),
            Err(_) => String::new(),
        }
    }

    /// The text of `source` that the span covers; an error where the span
    /// starts at or behind the end of `source`, reaches beyond it, or cuts a
    /// character in two.
    pub fn get_span_text<'a>(&self, source: &'a str) -> (r: Result<&'a str, ()>)
        ensures
            r is Ok <==> self.fits(source.spec_bytes()),
            r is Ok ==> r->Ok_0@ == self.covered(source.spec_bytes()),
    {
        let total = source.as_bytes().len();
        if self.start >= total || self.len > total - self.start {
            return Err(());
        }
        let end: usize = self.start + self.len;
        if !source.is_char_boundary(self.start) || !source.is_char_boundary(end) {
            return Err(());
        }
        let (head, _) = source.split_at(end);
        proof {
            let all = source.spec_bytes();
            let front = head.spec_bytes();
            vstd::utf8::encode_utf8_valid_utf8(source@);
            vstd::utf8::valid_utf8_split(all, end as int);
            assert(front =~= all.subrange(0, end as int));
            if self.start < end {
                vstd::utf8::is_char_boundary_iff_not_is_continuation_byte(all, self.start as int);
                vstd::utf8::is_char_boundary_iff_not_is_continuation_byte(front, self.start as int);
            } else {
                vstd::utf8::is_char_boundary_start_end_of_seq(front);
            }
        }
        let (_, text) = head.split_at(self.start);
        proof {
            assert(text.spec_bytes() =~= source.spec_bytes().subrange(
                self.start as int,
                self.start + self.len,
            ));
            vstd::utf8::encode_utf8_decode_utf8(text@);
        }
        Ok(text)
    }
}

/// A value together with the place in the source that it was read from.
#[derive(Clone, Debug)]
pub struct Spanned<T> {
    pub span: InputSpan,
    pub value: T,
}

impl<T> Spanned<T> {
    pub fn new(value: T, span: InputSpan) -> (r: Spanned<T>)
        ensures
            r.value == value,
            r.span == span,
    {
        Spanned { span, value }
    }

    pub fn get_span(&self) -> (r: &InputSpan)
        ensures
            *r == self.span,
    {
        &self.span
    }

    pub fn get_span_value(&self) -> (r: &T)
        ensures
            *r == self.value,
    {
        &self.value
    }

    pub fn into_span_value(self) -> (r: T)
        ensures
            r == self.value,
    {
        self.value
    }

    pub fn into_tuple(self) -> (r: (T, InputSpan))
        ensures
            r.0 == self.value,
            r.1 == self.span,
    {
        (self.value, self.span)
    }
}

} // verus!
