//! The parser: one line of text in, one statement or one error out.
//!
//! [`grammar`] states what an expression is; [`parse_line`] states on top of
//! it what a line is. [`parser`] is proved to compute exactly that, for every
//! input, and to come back.
//!
//! A line is the one statement that fills it. A line that starts with the
//! keyword `let` is a definition once its name and `=` are read; until then
//! it may still be an expression, in which `let` is a name like any other.
pub mod atoms;
pub mod grammar;
pub mod implicit;
pub mod lexical;
pub mod operands;
pub mod sums;
pub mod unclosed;

use vstd::prelude::*;
use vstd::string::StringSliceAdditionalSpecFns;
use crate::parser::grammar::{expression, remaining, token_text};
use crate::parser::lexical::{
    at, ident_end, ident_length, is_at, run, scan, ByteClass, CLOSE, COMMA, EQUALS, LOWER_E,
    LOWER_L, LOWER_T, OPEN,
};
use crate::text::copy_ascii;
use crate::types::{names_view, Stmt, StmtView};

verus! {

/// The longest line that is read, in bytes. The parser descends as deep as
/// a line nests, and the tree of a line is as deep as the line is long at
/// most; the bound keeps both within what a thread's stack holds.
pub const MAX_LINE: usize = 1024;

/// What went wrong.
#[derive(Debug, PartialEq, Eq, Clone, Copy, Structural)]
pub enum ParseErrorKind {
    /// Input that no rule reads stands where the line should go on or end.
    UnexpectedToken,
    /// The line ends where it should go on.
    UnexpectedEnd,
    /// The keyword `let` is followed by no name, and the line is no
    /// expression either.
    ExpectedIdent,
    /// A definition has no expression after `=`.
    ExpectedExpression,
}

/// What was being read when the line failed.
#[derive(Debug, PartialEq, Eq, Clone, Copy, Structural)]
pub enum Label {
    VariableDefinition,
    Ident,
    Expression,
}

/// A range of bytes of the line.
#[derive(Debug, PartialEq, Eq, Clone, Copy, Structural)]
pub struct Span {
    pub start: usize,
    pub end: usize,
}

/// Why a line is no statement: the kind of failure, the part of the line
/// that could not be read, and what was being read, outermost first.
#[derive(Debug, PartialEq, Eq)]
pub struct ParseError {
    pub kind: ParseErrorKind,
    pub span: Span,
    pub context: Vec<Label>,
}

/// The mathematical value of a [`ParseError`].
pub struct ParseErrorView {
    pub kind: ParseErrorKind,
    pub start: int,
    pub end: int,
    pub context: Seq<Label>,
}

impl View for ParseError {
    type V = ParseErrorView;

    open spec fn view(&self) -> ParseErrorView {
        ParseErrorView {
            kind: self.kind,
            start: self.span.start as int,
            end: self.span.end as int,
            context: self.context@,
        }
    }
}

impl Label {
    /// The label as it is shown.
    pub open spec fn text_spec(&self) -> Seq<char> {
        match self {
            Label::VariableDefinition => "variable definition"@,
            Label::Ident => "ident"@,
            Label::Expression => "expression"@,
        }
    }

    /// The label as it is shown.
    pub fn text(&self) -> (s: &'static str)
        ensures
            s@ == self.text_spec(),
    {
        match self {
            Label::VariableDefinition => "variable definition",
            Label::Ident => "ident",
            Label::Expression => "expression",
        }
    }
}

/// The failure of `kind` at `pos`: its span runs to the end of the line.
pub open spec fn failure(
    input: Seq<u8>,
    kind: ParseErrorKind,
    pos: int,
    context: Seq<Label>,
) -> ParseErrorView {
    ParseErrorView { kind, start: pos, end: input.len() as int, context }
}

/// What to call input that is not wanted at `pos`.
pub open spec fn unexpected(input: Seq<u8>, pos: int) -> ParseErrorKind {
    if pos >= input.len() {
        ParseErrorKind::UnexpectedEnd
    } else {
        ParseErrorKind::UnexpectedToken
    }
}

/// The keyword `let` at `pos` with the whitespace after it, of which there
/// is at least one byte; 0 where the keyword does not stand there.
pub open spec fn keyword_length(input: Seq<u8>, pos: int) -> nat {
    let spaces = run(input, pos + 3, ByteClass::Space);
    if at(input, pos, LOWER_L) && at(input, pos + 1, LOWER_E) && at(input, pos + 2, LOWER_T)
        && spaces > 0 {
        3 + spaces
    } else {
        0
    }
}

/// A comma at `pos` with the whitespace around it; 0 where no comma follows
/// the whitespace.
pub open spec fn separator_length(input: Seq<u8>, pos: int) -> nat {
    let before = run(input, pos, ByteClass::Space);
    if at(input, pos + before, COMMA) {
        before + 1 + run(input, pos + before + 1, ByteClass::Space)
    } else {
        0
    }
}

/// The parameter names that follow `acc`, each after a comma. A comma with
/// no name after it is left unread.
pub open spec fn parameters_tail(input: Seq<u8>, acc: Seq<Seq<char>>, pos: int) -> (
    Seq<Seq<char>>,
    nat,
)
    decreases remaining(input, pos),
{
    let k = separator_length(input, pos);
    if k > 0 {
        match ident_length(input, pos + k) {
            Some(n) => {
                let (names, m) = parameters_tail(
                    input,
                    acc.push(token_text(input, pos + k, n)),
                    pos + k + n,
                );
                (names, k + n + m)
            },
            None => (acc, 0),
        }
    } else {
        (acc, 0)
    }
}

/// The parameter names of a function definition: none, or names separated
/// by commas.
pub open spec fn parameters(input: Seq<u8>, pos: int) -> (Seq<Seq<char>>, nat) {
    match ident_length(input, pos) {
        Some(n) => {
            let (names, m) = parameters_tail(input, seq![token_text(input, pos, n)], pos + n);
            (names, n + m)
        },
        None => (Seq::empty(), 0),
    }
}

/// `=` at `pos`, after optional whitespace, and the whitespace after it;
/// nothing where no `=` follows the whitespace.
pub open spec fn equals_length(input: Seq<u8>, pos: int) -> Option<nat> {
    let before = run(input, pos, ByteClass::Space);
    if at(input, pos + before, EQUALS) {
        Some(before + 1 + run(input, pos + before + 1, ByteClass::Space))
    } else {
        None
    }
}

/// The parameter list of a function definition at `pos`: `(`, the
/// parameter names, and `)`, with whitespace where it pleases before `(`,
/// after it, and before `)`.
pub open spec fn parameter_list(input: Seq<u8>, pos: int) -> Option<(Seq<Seq<char>>, nat)> {
    let open = run(input, pos, ByteClass::Space);
    let first = open + 1 + run(input, pos + open + 1, ByteClass::Space);
    let (names, n) = parameters(input, pos + first);
    let close = first + n + run(input, pos + first + n, ByteClass::Space);
    if at(input, pos + open, OPEN) && at(input, pos + close, CLOSE) {
        Some((names, close + 1))
    } else {
        None
    }
}

/// A function definition after its keyword: a name, the parameter list,
/// `=`, and the body. It reads all of this or nothing.
pub open spec fn function_definition(input: Seq<u8>, pos: int) -> Option<(StmtView, nat)> {
    match ident_length(input, pos) {
        Some(k) => match parameter_list(input, pos + k) {
            Some((arg_names, n)) => match equals_length(input, pos + k + n) {
                Some(e) => match expression(input, pos + k + n + e) {
                    Some((body, m)) => Some(
                        (
                            StmtView::DefFun { name: token_text(input, pos, k), arg_names, body },
                            k + n + e + m,
                        ),
                    ),
                    None => None,
                },
                None => None,
            },
            None => None,
        },
        None => None,
    }
}

/// A variable definition after its keyword: a name, `=`, and the
/// expression. Until the name and `=` are read this is nothing, and the
/// line may still be an expression. From then on the line is a definition:
/// an expression that is missing is the error of the line.
pub open spec fn variable_definition(input: Seq<u8>, pos: int) -> Option<
    Result<(StmtView, nat), ParseErrorView>,
> {
    match ident_length(input, pos) {
        Some(k) => match equals_length(input, pos + k) {
            Some(e) => match expression(input, pos + k + e) {
                Some((expr, m)) => Some(
                    Ok((StmtView::DefVar { name: token_text(input, pos, k), expr }, k + e + m)),
                ),
                None => Some(
                    Err(
                        failure(
                            input,
                            ParseErrorKind::ExpectedExpression,
                            pos + k + e,
                            seq![Label::VariableDefinition, Label::Expression],
                        ),
                    ),
                ),
            },
            None => None,
        },
        None => None,
    }
}

/// The definition at `pos`, if the line is one: after the keyword a function
/// definition or, where that does not fit, a variable definition.
pub open spec fn definition(input: Seq<u8>, pos: int) -> Option<
    Result<(StmtView, nat), ParseErrorView>,
> {
    let k = keyword_length(input, pos);
    if k > 0 {
        match function_definition(input, pos + k) {
            Some((s, n)) => Some(Ok((s, k + n))),
            None => match variable_definition(input, pos + k) {
                Some(Ok((s, n))) => Some(Ok((s, k + n))),
                Some(Err(e)) => Some(Err(e)),
                None => None,
            },
        }
    } else {
        None
    }
}

/// Why a line that starts at `start` is refused when no statement fills it
/// and reading stopped at `stop`. A line that has the keyword and no name
/// after it lacks the name; any other has something unexpected where reading
/// stopped.
pub open spec fn refusal(input: Seq<u8>, start: int, stop: int) -> ParseErrorView {
    let k = keyword_length(input, start);
    if k > 0 && ident_length(input, start + k) is None {
        failure(
            input,
            ParseErrorKind::ExpectedIdent,
            start + k,
            seq![Label::VariableDefinition, Label::Ident],
        )
    } else {
        failure(input, unexpected(input, stop), stop, Seq::empty())
    }
}

/// The statement at `pos`: a definition, or else an expression.
pub open spec fn statement(input: Seq<u8>, pos: int) -> Result<(StmtView, nat), ParseErrorView> {
    match definition(input, pos) {
        Some(r) => r,
        None => match expression(input, pos) {
            Some((e, n)) => Ok((StmtView::Expr(e), n)),
            None => Err(refusal(input, pos, pos)),
        },
    }
}

/// What a line means: the one statement that fills it, whitespace at both
/// ends apart, or the reason why there is none. A line of more than
/// [`MAX_LINE`] bytes is refused at the first byte beyond them.
pub open spec fn parse_line(input: Seq<u8>) -> Result<StmtView, ParseErrorView> {
    if input.len() > MAX_LINE {
        Err(failure(input, ParseErrorKind::UnexpectedToken, MAX_LINE as int, Seq::empty()))
    } else {
        let start = run(input, 0, ByteClass::Space) as int;
        match statement(input, start) {
            Ok((s, n)) => {
                let end = start + n + run(input, start + n, ByteClass::Space);
                if end >= input.len() {
                    Ok(s)
                } else {
                    Err(refusal(input, start, end))
                }
            },
            Err(e) => Err(e),
        }
    }
}

/// The view of a parser's answer.
pub open spec fn answer_view(r: Result<Stmt, ParseError>) -> Result<StmtView, ParseErrorView> {
    match r {
        Ok(s) => Ok(s@),
        Err(e) => Err(e@),
    }
}

fn fail(input: &[u8], kind: ParseErrorKind, pos: usize, outer: Option<Label>, inner: Option<Label>) -> (e:
    ParseError)
    requires
        pos <= input.len(),
    ensures
        e.span.start <= e.span.end == input.len(),
        e@ == failure(
            input@,
            kind,
            pos as int,
            match outer {
                Some(a) => match inner {
                    Some(b) => seq![a, b],
                    None => seq![a],
                },
                None => Seq::empty(),
            },
        ),
{
    let mut context: Vec<Label> = Vec::new();
    if let Some(a) = outer {
        context.push(a);
        if let Some(b) = inner {
            context.push(b);
        }
    }
    let e = ParseError { kind, span: Span { start: pos, end: input.len() }, context };
    proof {
        match outer {
            Some(a) => match inner {
                Some(b) => {
                    assert(e.context@ =~= seq![a, b]);
                },
                None => {
                    assert(e.context@ =~= seq![a]);
                },
            },
            None => {
                assert(e.context@ =~= Seq::empty());
            },
        }
    }
    e
}

fn unexpected_at(input: &[u8], pos: usize) -> (kind: ParseErrorKind)
    ensures
        kind == unexpected(input@, pos as int),
{
    if pos >= input.len() {
        ParseErrorKind::UnexpectedEnd
    } else {
        ParseErrorKind::UnexpectedToken
    }
}

fn separator_end(input: &[u8], pos: usize) -> (end: usize)
    requires
        pos <= input.len(),
    ensures
        end == pos + separator_length(input@, pos as int),
        end <= input.len(),
{
    let comma = scan(input, pos, ByteClass::Space);
    if is_at(input, comma, COMMA) {
        scan(input, comma + 1, ByteClass::Space)
    } else {
        pos
    }
}

fn equals_end(input: &[u8], pos: usize) -> (r: Option<usize>)
    requires
        pos <= input.len(),
    ensures
        match r {
            Some(end) => pos <= end <= input.len() && equals_length(input@, pos as int) == Some(
                (end - pos) as nat,
            ),
            None => equals_length(input@, pos as int) is None,
        },
{
    let sign = scan(input, pos, ByteClass::Space);
    if is_at(input, sign, EQUALS) {
        Some(scan(input, sign + 1, ByteClass::Space))
    } else {
        None
    }
}

fn read_parameters(input: &[u8], pos: usize) -> (r: (Vec<String>, usize))
    requires
        pos <= input.len(),
    ensures
        pos <= r.1 <= input.len(),
        parameters(input@, pos as int) == (names_view(r.0@), (r.1 - pos) as nat),
{
    let mut names: Vec<String> = Vec::new();
    let first_end = match ident_end(input, pos) {
        Some(end) => end,
        None => {
            assert(names_view(names@) =~= Seq::empty());
            return (names, pos);
        },
    };
    names.push(copy_ascii(input, pos, first_end));
    assert(names_view(names@) =~= seq![token_text(input@, pos as int, (first_end - pos) as nat)]);
    let mut p: usize = first_end;
    loop
        invariant
            pos <= p <= input.len(),
            parameters(input@, pos as int) == (
                parameters_tail(input@, names_view(names@), p as int).0,
                (p - pos + parameters_tail(input@, names_view(names@), p as int).1) as nat,
            ),
        decreases input.len() - p,
    {
        let start = separator_end(input, p);
        if start == p {
            return (names, p);
        }
        match ident_end(input, start) {
            Some(end) => {
                let ghost before = names_view(names@);
                names.push(copy_ascii(input, start, end));
                assert(names_view(names@) =~= before.push(
                    token_text(input@, start as int, (end - start) as nat),
                ));
                p = end;
            },
            None => {
                return (names, p);
            },
        }
    }
}

fn read_parameter_list(input: &[u8], pos: usize) -> (r: Option<(Vec<String>, usize)>)
    requires
        pos <= input.len(),
    ensures
        match r {
            Some((names, end)) => pos <= end <= input.len() && parameter_list(input@, pos as int)
                == Some((names_view(names@), (end - pos) as nat)),
            None => parameter_list(input@, pos as int) is None,
        },
{
    let open = scan(input, pos, ByteClass::Space);
    if !is_at(input, open, OPEN) {
        return None;
    }
    let first = scan(input, open + 1, ByteClass::Space);
    let (names, last) = read_parameters(input, first);
    let close = scan(input, last, ByteClass::Space);
    if !is_at(input, close, CLOSE) {
        return None;
    }
    Some((names, close + 1))
}

fn read_function_definition(input: &[u8], pos: usize) -> (r: Option<(Stmt, usize)>)
    requires
        pos <= input.len(),
    ensures
        match r {
            Some((s, end)) => pos <= end <= input.len() && function_definition(input@, pos as int)
                == Some((s@, (end - pos) as nat)),
            None => function_definition(input@, pos as int) is None,
        },
{
    let name_end = match ident_end(input, pos) {
        Some(end) => end,
        None => {
            return None;
        },
    };
    let (arg_names, list_end) = match read_parameter_list(input, name_end) {
        Some(r) => r,
        None => {
            return None;
        },
    };
    let start = match equals_end(input, list_end) {
        Some(start) => start,
        None => {
            return None;
        },
    };
    match sums::expression(input, start) {
        Some((body, end)) => {
            let name = copy_ascii(input, pos, name_end);
            Some((Stmt::DefFun { name, arg_names, body }, end))
        },
        None => None,
    }
}

/// The view of what a definition's reader found.
pub open spec fn found_view(r: Option<Result<(Stmt, usize), ParseError>>, pos: usize) -> Option<
    Result<(StmtView, nat), ParseErrorView>,
> {
    match r {
        Some(Ok((s, end))) => Some(Ok((s@, (end - pos) as nat))),
        Some(Err(e)) => Some(Err(e@)),
        None => None,
    }
}

/// The positions in what a definition's reader found lie in the input.
pub open spec fn found_inside(
    r: Option<Result<(Stmt, usize), ParseError>>,
    pos: usize,
    len: nat,
) -> bool {
    match r {
        Some(Ok((s, end))) => pos <= end <= len,
        Some(Err(e)) => e.span.start <= e.span.end == len,
        None => true,
    }
}

fn read_variable_definition(input: &[u8], pos: usize) -> (r: Option<
    Result<(Stmt, usize), ParseError>,
>)
    requires
        pos <= input.len(),
    ensures
        found_inside(r, pos, input@.len()),
        found_view(r, pos) == variable_definition(input@, pos as int),
{
    let name_end = match ident_end(input, pos) {
        Some(end) => end,
        None => {
            return None;
        },
    };
    let start = match equals_end(input, name_end) {
        Some(start) => start,
        None => {
            return None;
        },
    };
    match sums::expression(input, start) {
        Some((expr, end)) => {
            let name = copy_ascii(input, pos, name_end);
            Some(Ok((Stmt::DefVar { name, expr }, end)))
        },
        None => Some(
            Err(
                fail(
                    input,
                    ParseErrorKind::ExpectedExpression,
                    start,
                    Some(Label::VariableDefinition),
                    Some(Label::Expression),
                ),
            ),
        ),
    }
}

fn keyword_end(input: &[u8], pos: usize) -> (end: usize)
    requires
        pos <= input.len(),
    ensures
        end == pos + keyword_length(input@, pos as int),
        end <= input.len(),
{
    if is_at(input, pos, LOWER_L) && is_at(input, pos + 1, LOWER_E) && is_at(input, pos + 2, LOWER_T) {
        let end = scan(input, pos + 3, ByteClass::Space);
        if end > pos + 3 {
            end
        } else {
            pos
        }
    } else {
        pos
    }
}

fn read_definition(input: &[u8], pos: usize) -> (r: Option<Result<(Stmt, usize), ParseError>>)
    requires
        pos <= input.len(),
    ensures
        found_inside(r, pos, input@.len()),
        found_view(r, pos) == definition(input@, pos as int),
{
    let start = keyword_end(input, pos);
    if start == pos {
        return None;
    }
    match read_function_definition(input, start) {
        Some(r) => Some(Ok(r)),
        None => read_variable_definition(input, start),
    }
}

fn refuse(input: &[u8], start: usize, stop: usize) -> (e: ParseError)
    requires
        start <= stop <= input.len(),
    ensures
        e.span.start <= e.span.end == input.len(),
        e@ == refusal(input@, start as int, stop as int),
{
    let name = keyword_end(input, start);
    if name > start && ident_end(input, name).is_none() {
        fail(
            input,
            ParseErrorKind::ExpectedIdent,
            name,
            Some(Label::VariableDefinition),
            Some(Label::Ident),
        )
    } else {
        fail(input, unexpected_at(input, stop), stop, None, None)
    }
}

fn read_statement(input: &[u8], pos: usize) -> (r: Result<(Stmt, usize), ParseError>)
    requires
        pos <= input.len(),
    ensures
        match r {
            Ok((s, end)) => pos <= end <= input.len() && statement(input@, pos as int) == Ok::<
                (StmtView, nat),
                ParseErrorView,
            >((s@, (end - pos) as nat)),
            Err(e) => e.span.start <= e.span.end == input.len() && statement(input@, pos as int)
                == Err::<(StmtView, nat), ParseErrorView>(e@),
        },
{
    match read_definition(input, pos) {
        Some(r) => r,
        None => match sums::expression(input, pos) {
            Some((e, end)) => Ok((Stmt::Expr(e), end)),
            None => Err(refuse(input, pos, pos)),
        },
    }
}

/// Reads one line. The answer is the statement that [`parse_line`] gives for
/// the bytes of `input`, or the error that it gives: for every input one of
/// the two.
pub fn parser(input: &str) -> (r: Result<Stmt, ParseError>)
    ensures
        answer_view(r) == parse_line(input.spec_bytes()),
        r matches Err(e) ==> e.span.start <= e.span.end == input.spec_bytes().len(),
{
    let bytes = input.as_bytes();
    if bytes.len() > MAX_LINE {
        return Err(fail(bytes, ParseErrorKind::UnexpectedToken, MAX_LINE, None, None));
    }
    let start = scan(bytes, 0, ByteClass::Space);
    match read_statement(bytes, start) {
        Ok((s, stop)) => {
            let end = scan(bytes, stop, ByteClass::Space);
            if end >= bytes.len() {
                Ok(s)
            } else {
                Err(refuse(bytes, start, end))
            }
        },
        Err(e) => Err(e),
    }
}

} // verus!
