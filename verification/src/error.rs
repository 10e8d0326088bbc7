//! What can go wrong while a source text is read and expanded.
use vstd::prelude::*;
use vstd::string::*;
use crate::primitives::kind::{kind_text, KindView, PrimitiveKind};
use crate::span::{pest_end_line_col, pest_input, pest_start_line_col, InputSpan, Spanned};
use crate::text::{concat, join, join_text, nat_text, owned, usize_to_string};

verus! {

/// Why a source text was refused by the parser.
#[derive(Debug)]
pub enum ParseError {
    UnexpectedToken(String),
    MissingToken(String),
    SemanticError(String),
    /// How many arguments were given, and the names of those expected.
    WrongNumberOfArguments(usize, Vec<String>),
}

/// A parser's error as a mathematical value.
pub enum ParseErrorView {
    UnexpectedToken(Seq<char>),
    MissingToken(Seq<char>),
    SemanticError(Seq<char>),
    WrongNumberOfArguments(nat, Seq<Seq<char>>),
}

impl View for ParseError {
    type V = ParseErrorView;

    open spec fn view(&self) -> ParseErrorView {
        match self {
            ParseError::UnexpectedToken(s) => ParseErrorView::UnexpectedToken(s@),
            ParseError::MissingToken(s) => ParseErrorView::MissingToken(s@),
            ParseError::SemanticError(s) => ParseErrorView::SemanticError(s@),
            ParseError::WrongNumberOfArguments(got, expected) => ParseErrorView::WrongNumberOfArguments(
                *got as nat,
                expected.deep_view(),
            ),
        }
    }
}

/// The message of a parser's error.
pub open spec fn parse_error_text(e: ParseErrorView) -> Seq<char> {
    match e {
        ParseErrorView::UnexpectedToken(s) => "Unexpected token: \""@ + s + "\""@,
        ParseErrorView::MissingToken(s) => "Missing token: \""@ + s + "\""@,
        ParseErrorView::SemanticError(s) => "Semantic error: \""@ + s + "\""@,
        ParseErrorView::WrongNumberOfArguments(got, expected) => "Wrong number of arguments: got "@
            + nat_text(got) + ", expected "@ + nat_text(expected.len()) + ": ("@ + join_text(
            expected,
            ", "@,
        ) + ")"@,
    }
}

impl ParseError {
    pub fn to_string(&self) -> (r: String)
        ensures
            r@ == parse_error_text(self@),
    {
        match self {
            ParseError::UnexpectedToken(s) => {
                let mut out = owned("Unexpected token: \"");
                out.append(s.as_str());
                out.append("\"");
                out
            },
            ParseError::MissingToken(s) => {
                let mut out = owned("Missing token: \"");
                out.append(s.as_str());
                out.append("\"");
                out
            },
            ParseError::SemanticError(s) => {
                let mut out = owned("Semantic error: \"");
                out.append(s.as_str());
                out.append("\"");
                out
            },
            ParseError::WrongNumberOfArguments(got, expected) => {
                let mut out = owned("Wrong number of arguments: got ");
                out.append(usize_to_string(*got).as_str());
                out.append(", expected ");
                out.append(usize_to_string(expected.len()).as_str());
                out.append(": (");
                out.append(join(expected, ", ").as_str());
                out.append(")");
                out
            },
        }
    }
}

/// A parser's error and the place in the source at which it arose.
#[derive(Debug)]
pub struct CompilationError {
    pub kind: ParseError,
    pub start_line: usize,
    pub start: usize,
    pub end_line: usize,
    pub end: usize,
    pub text: String,
}

/// A located error as a mathematical value.
pub struct CompilationErrorView {
    pub kind: ParseErrorView,
    pub start_line: nat,
    pub start: nat,
    pub end_line: nat,
    pub end: nat,
    pub text: Seq<char>,
}

impl View for CompilationError {
    type V = CompilationErrorView;

    open spec fn view(&self) -> CompilationErrorView {
        CompilationErrorView {
            kind: self.kind@,
            start_line: self.start_line as nat,
            start: self.start as nat,
            end_line: self.end_line as nat,
            end: self.end as nat,
            text: self.text@,
        }
    }
}

/// The message of an error and the text it arose at.
pub open spec fn compilation_error_short_text(e: CompilationErrorView) -> Seq<char> {
    parse_error_text(e.kind) + " "@ + e.text
}

/// The full report of a located error: where it lies, then on a line of its
/// own what it is.
pub open spec fn compilation_error_text(e: CompilationErrorView) -> Seq<char> {
    "Error at "@ + nat_text(e.start_line) + ":"@ + nat_text(e.start) + " to "@ + nat_text(
        e.end_line,
    ) + ":"@ + nat_text(e.end) + "\n\t"@ + parse_error_text(e.kind) + " "@ + e.text
}

impl CompilationError {
    pub fn new(
        kind: ParseError,
        start_line: usize,
        start: usize,
        end_line: usize,
        end: usize,
        text: String,
    ) -> (r: CompilationError)
        ensures
            r@ == (CompilationErrorView {
                kind: kind@,
                start_line: start_line as nat,
                start: start as nat,
                end_line: end_line as nat,
                end: end as nat,
                text: text@,
            }),
    {
        CompilationError { kind, start_line, start, end_line, end, text }
    }

    /// The error `kind` at the place of a parser's span, with the text that
    /// the span covers in its input; the text is empty where the span does
    /// not lie inside the input, and is left out where `exclude_string` is
    /// set.
    pub fn from_span(kind: ParseError, span: &pest::Span, exclude_string: bool) -> (r:
        CompilationError)
        ensures
            r@.kind == kind@,
            exclude_string ==> r@.text == Seq::<char>::empty(),
            r@.start_line >= 1,
            r@.start >= 1,
            r@.end_line >= 1,
            r@.end >= 1,
    {
        let (start_line, start) = pest_start_line_col(span);
        let (end_line, end) = pest_end_line_col(span);
        let text = if exclude_string {
            String::new()
        } else {
            InputSpan::from_span(span).text_in(pest_input(span))
        };
        CompilationError::new(kind, start_line, start, end_line, end, text)
    }

    pub fn to_string(&self) -> (r: String)
        ensures
            r@ == compilation_error_text(self@),
    {
        let mut out = owned("Error at ");
        out.append(usize_to_string(self.start_line).as_str());
        out.append(":");
        out.append(usize_to_string(self.start).as_str());
        out.append(" to ");
        out.append(usize_to_string(self.end_line).as_str());
        out.append(":");
        out.append(usize_to_string(self.end).as_str());
        out.append("\n\t");
        out.append(self.kind.to_string().as_str());
        out.append(" ");
        out.append(self.text.as_str());
        out
    }

    pub fn to_error_string(&self) -> (r: String)
        ensures
            r@ == compilation_error_short_text(self@),
    {
        let mut out = self.kind.to_string();
        out.append(" ");
        out.append(self.text.as_str());
        out
    }
}

/// Why a model could not be checked or expanded.
///
/// An error that passes through a construct of the source is wrapped in a
/// [`TransformError::SpannedError`] that holds the place of that construct, so
/// that the chain of wrappers tells where the error came from.
#[derive(Debug)]
pub enum TransformError {
    MissingVariable(String),
    AlreadyExistingVariable(String),
    OutOfBounds(String),
    WrongArgument(String),
    SpannedError(Spanned<Box<TransformError>>, Option<String>),
    Unspreadable(PrimitiveKind),
    OperatorError(String),
    NotFound(String),
    Other(String),
}

/// An error as a mathematical value.
pub enum ErrorView {
    MissingVariable(Seq<char>),
    AlreadyExistingVariable(Seq<char>),
    OutOfBounds(Seq<char>),
    WrongArgument(Seq<char>),
    SpannedError(InputSpan, Box<ErrorView>, Option<Seq<char>>),
    Unspreadable(KindView),
    OperatorError(Seq<char>),
    NotFound(Seq<char>),
    Other(Seq<char>),
}

/// One step of a trace: a place in the source and what was being done there.
pub type TraceStep = (InputSpan, Option<Seq<char>>);

/// The view of an optional text.
pub open spec fn option_text(o: Option<String>) -> Option<Seq<char>> {
    match o {
        Some(s) => Some(s@),
        None => None,
    }
}

/// The views of the steps of a trace.
pub open spec fn trace_views(steps: Seq<(InputSpan, Option<String>)>) -> Seq<TraceStep> {
    Seq::new(steps.len(), |i: int| (steps[i].0, option_text(steps[i].1)))
}

impl ErrorView {
    /// The error at the bottom of the chain of wrappers.
    pub open spec fn innermost(self) -> ErrorView
        decreases self,
    {
        match self {
            ErrorView::SpannedError(_, inner, _) => inner.innermost(),
            _ => self,
        }
    }

    /// The message of the error: that of the innermost error of the chain.
    pub open spec fn text(self) -> Seq<char>
        decreases self,
    {
        match self {
            ErrorView::MissingVariable(name) => "[Missing variable] "@ + name,
            ErrorView::AlreadyExistingVariable(name) => "Variable "@ + name
                + " was already declared"@,
            ErrorView::OutOfBounds(name) => "[Out of bounds] "@ + name,
            ErrorView::WrongArgument(name) => "[Wrong argument] "@ + name,
            ErrorView::OperatorError(name) => "[Operator error] "@ + name,
            ErrorView::NotFound(name) => "[Not found] "@ + name,
            ErrorView::Other(name) => name,
            ErrorView::Unspreadable(kind) => kind_text(kind) + " is not spreadable"@,
            ErrorView::SpannedError(_, inner, _) => inner.text(),
        }
    }

    /// The wrappers of the chain from this error inwards, the outermost
    /// first, without those that hold the same place as the step before them;
    /// `last` is the place of the step before the first.
    pub open spec fn steps_after(self, last: InputSpan) -> Seq<TraceStep>
        decreases self,
    {
        match self {
            ErrorView::SpannedError(span, inner, context) => if span == last {
                inner.steps_after(last)
            } else {
                seq![(span, context)] + inner.steps_after(span)
            },
            _ => Seq::<TraceStep>::empty(),
        }
    }

    /// The trace of the error: the places of its wrappers from the innermost
    /// to the outermost, where a wrapper that holds the same place as the one
    /// around it is left out. An error without wrapper has an empty trace.
    pub open spec fn trace(self) -> Seq<TraceStep> {
        match self {
            ErrorView::SpannedError(span, inner, context) => (seq![(span, context)]
                + inner.steps_after(span)).reverse(),
            _ => Seq::<TraceStep>::empty(),
        }
    }
}

/// The line of a traced error for one step: the line and column of the
/// place, and in round brackets what was being done there, if that is known.
pub open spec fn trace_line(step: TraceStep) -> Seq<char> {
    let origin = match step.1 {
        Some(o) => " ("@ + o + ")"@,
        None => Seq::<char>::empty(),
    };
    "\tat "@ + nat_text(step.0.start_line as nat) + ":"@ + nat_text(step.0.start_column as nat)
        + origin
}

/// The lines of a trace.
pub open spec fn trace_lines(steps: Seq<TraceStep>) -> Seq<Seq<char>> {
    Seq::new(steps.len(), |i: int| trace_line(steps[i]))
}

/// The message of an error, and below it one line for each step of its trace.
pub open spec fn traced_error_text(e: ErrorView) -> Seq<char> {
    e.text() + "\n"@ + join_text(trace_lines(e.trace()), "\n"@)
}

/// Every step of the trace lies inside the text with the bytes `source`.
pub open spec fn trace_fits(steps: Seq<TraceStep>, source: Seq<u8>) -> bool {
    forall|i: int| 0 <= i < steps.len() ==> (#[trigger] steps[i]).0.fits(source)
}

/// The line of a trace that quotes the source for one step.
pub open spec fn source_line(step: TraceStep, source: Seq<u8>) -> Seq<char> {
    "at "@ + nat_text(step.0.start_line as nat) + ":"@ + nat_text(step.0.start_column as nat)
        + " "@ + step.0.covered(source)
}

/// The lines of a trace that quote the source.
pub open spec fn source_lines(steps: Seq<TraceStep>, source: Seq<u8>) -> Seq<Seq<char>> {
    Seq::new(steps.len(), |i: int| source_line(steps[i], source))
}

/// The message of an error, and below it the quoted source of each step of
/// its trace.
pub open spec fn source_trace_text(e: ErrorView, source: Seq<u8>) -> Seq<char> {
    e.text() + "\n\t"@ + join_text(source_lines(e.trace(), source), "\n\t"@)
}

impl TransformError {
    pub open spec fn model(&self) -> ErrorView
        decreases self,
    {
        match self {
            TransformError::MissingVariable(s) => ErrorView::MissingVariable(s@),
            TransformError::AlreadyExistingVariable(s) => ErrorView::AlreadyExistingVariable(s@),
            TransformError::OutOfBounds(s) => ErrorView::OutOfBounds(s@),
            TransformError::WrongArgument(s) => ErrorView::WrongArgument(s@),
            TransformError::SpannedError(e, context) => ErrorView::SpannedError(
                e.span,
                Box::new(e.value.model()),
                option_text(*context),
            ),
            TransformError::Unspreadable(kind) => ErrorView::Unspreadable(kind@),
            TransformError::OperatorError(s) => ErrorView::OperatorError(s@),
            TransformError::NotFound(s) => ErrorView::NotFound(s@),
            TransformError::Other(s) => ErrorView::Other(s@),
        }
    }

    /// The message of the error.
    pub fn to_string(&self) -> (r: String)
        ensures
            r@ == self@.text(),
        decreases self,
    {
        match self {
            TransformError::MissingVariable(name) => concat("[Missing variable] ", name.as_str()),
            TransformError::AlreadyExistingVariable(name) => {
                let mut out = owned("Variable ");
                out.append(name.as_str());
                out.append(" was already declared");
                out
            },
            TransformError::OutOfBounds(name) => concat("[Out of bounds] ", name.as_str()),
            TransformError::WrongArgument(name) => concat("[Wrong argument] ", name.as_str()),
            TransformError::OperatorError(name) => concat("[Operator error] ", name.as_str()),
            TransformError::NotFound(name) => concat("[Not found] ", name.as_str()),
            TransformError::Other(name) => name.clone(),
            TransformError::Unspreadable(kind) => {
                let mut out = kind.to_string();
                out.append(" is not spreadable");
                out
            },
            TransformError::SpannedError(error, _) => error.value.to_string(),
        }
    }

    /// The error wrapped in the place `span`, with nothing said of what was
    /// being done there.
    pub fn to_spanned_error(self, span: &InputSpan) -> (r: TransformError)
        ensures
            r@ == ErrorView::SpannedError(*span, Box::new(self@), None),
    {
        TransformError::SpannedError(Spanned::new(Box::new(self), *span), None)
    }

    /// The trace of the error, from the innermost wrapper to the outermost.
    pub fn get_trace(&self) -> (r: Vec<(InputSpan, Option<String>)>)
        ensures
            trace_views(r@) == self@.trace(),
    {
        match self {
            TransformError::SpannedError(e, s) => {
                let mut trace: Vec<(InputSpan, Option<String>)> = Vec::new();
                trace.push((e.span, copy_option_text(s)));
                let mut last_span: InputSpan = e.span;
                let mut current: &TransformError = &e.value;
                let ghost first: TraceStep = (e.span, option_text(*s));
                assert(trace_views(trace@) =~= seq![first]);
                loop
                    invariant
                        trace_views(trace@) + current@.steps_after(last_span) == seq![first]
                            + e.value@.steps_after(e.span),
                    ensures
                        trace_views(trace@) == seq![first] + e.value@.steps_after(e.span),
                    decreases current,
                {
                    match current {
                        TransformError::SpannedError(inner, context) => {
                            let span = inner.span;
                            if !(span == last_span) {
                                let ghost before = trace_views(trace@);
                                trace.push((span, copy_option_text(context)));
                                last_span = span;
                                proof {
                                    let step: TraceStep = (span, option_text(*context));
                                    assert(trace_views(trace@) =~= before.push(step));
                                    assert(before.push(step) + inner.value@.steps_after(span)
                                        =~= before + (seq![step] + inner.value@.steps_after(
                                        span,
                                    )));
                                }
                            }
                            current = &inner.value;
                        },
                        _ => {
                            assert(trace_views(trace@) + Seq::<TraceStep>::empty()
                                =~= trace_views(trace@));
                            break ;
                        },
                    }
                }
                let ghost forward = trace_views(trace@);
                let mut out: Vec<(InputSpan, Option<String>)> = Vec::new();
                while trace.len() > 0
                    invariant
                        trace.len() <= forward.len(),
                        trace_views(trace@) == forward.take(trace.len() as int),
                        trace_views(out@) == forward.skip(trace.len() as int).reverse(),
                    decreases trace.len(),
                {
                    let ghost before_trace = trace_views(trace@);
                    let ghost before_out = trace_views(out@);
                    let ghost n = trace.len() as int;
                    let step = trace.pop().unwrap();
                    out.push(step);
                    proof {
                        assert(trace_views(trace@) =~= forward.take(n - 1));
                        assert(trace_views(out@) =~= before_out.push(before_trace[n - 1]));
                        assert(trace_views(out@) =~= forward.skip(n - 1).reverse());
                    }
                }
                assert(forward.skip(0) =~= forward);
                out
            },
            _ => {
                let out: Vec<(InputSpan, Option<String>)> = Vec::new();
                assert(trace_views(out@) =~= Seq::<TraceStep>::empty());
                out
            },
        }
    }

    /// The message of the error, and below it one line for each step of its
    /// trace.
    pub fn get_traced_error(&self) -> (r: String)
        ensures
            r@ == traced_error_text(self@),
    {
        let error = self.to_string();
        let trace = self.get_trace();
        let mut lines: Vec<String> = Vec::new();
        let mut i: usize = 0;
        while i < trace.len()
            invariant
                i <= trace.len(),
                lines.len() == i,
                forall|j: int| 0 <= j < i ==> lines[j]@ == trace_line(trace_views(trace@)[j]),
            decreases trace.len() - i,
        {
            let mut line = owned("\tat ");
            line.append(usize_to_string(trace[i].0.start_line).as_str());
            line.append(":");
            line.append(usize_to_string(trace[i].0.start_column).as_str());
            match &trace[i].1 {
                Some(o) => {
                    line.append(" (");
                    line.append(o.as_str());
                    line.append(")");
                },
                None => {},
            }
            lines.push(line);
            i = i + 1;
        }
        assert(lines.deep_view() =~= trace_lines(trace_views(trace@)));
        let mut out = error;
        out.append("\n");
        out.append(join(&lines, "\n").as_str());
        out
    }

    /// The message of the error, and below it the source text of each step of
    /// its trace; an error where a step does not lie inside `source`.
    pub fn get_trace_from_source(&self, source: &str) -> (r: Result<String, ()>)
        ensures
            r is Ok <==> trace_fits(self@.trace(), source.spec_bytes()),
            r is Ok ==> r->Ok_0@ == source_trace_text(self@, source.spec_bytes()),
    {
        let trace = self.get_trace();
        let mut lines: Vec<String> = Vec::new();
        let mut i: usize = 0;
        while i < trace.len()
            invariant
                i <= trace.len(),
                lines.len() == i,
                trace_views(trace@) == self@.trace(),
                forall|j: int|
                    0 <= j < i ==> (#[trigger] self@.trace()[j]).0.fits(source.spec_bytes()),
                forall|j: int|
                    0 <= j < i ==> lines[j]@ == source_line(
                        trace_views(trace@)[j],
                        source.spec_bytes(),
                    ),
            decreases trace.len() - i,
        {
            let text = match trace[i].0.get_span_text(source) {
                Ok(text) => text,
                Err(_) => {
                    assert(!self@.trace()[i as int].0.fits(source.spec_bytes()));
                    return Err(());
                },
            };
            let mut line = owned("at ");
            line.append(usize_to_string(trace[i].0.start_line).as_str());
            line.append(":");
            line.append(usize_to_string(trace[i].0.start_column).as_str());
            line.append(" ");
            line.append(text);
            lines.push(line);
            i = i + 1;
        }
        assert(lines.deep_view() =~= source_lines(self@.trace(), source.spec_bytes()));
        let mut out = self.to_string();
        out.append("\n\t");
        out.append(join(&lines, "\n\t").as_str());
        Ok(out)
    }
}

impl View for TransformError {
    type V = ErrorView;

    open spec fn view(&self) -> ErrorView {
        self.model()
    }
}

/// A copy of an optional text.
pub fn copy_option_text(o: &Option<String>) -> (r: Option<String>)
    ensures
        option_text(r) == option_text(*o),
{
    match o {
        Some(s) => Some(s.clone()),
        None => None,
    }
}

} // verus!
