//! What an operator applies to: an atom with its postfix and prefix
//! operators, the whitespace around it, and its exponent.
use vstd::prelude::*;
use crate::parser::grammar;
use crate::parser::grammar::reads_on;
use crate::parser::lexical::{ByteClass, is_at, scan, BANG, CARET, MINUS, STAR};
use crate::parser::atoms::atomic;
use crate::types::{BinaryOp, Expr, PostfixOp, PrefixOp};

verus! {

pub(crate) fn postfixed(input: &[u8], pos: usize) -> (r: Option<(Expr, usize, bool)>)
    requires
        pos <= input.len(),
    ensures
        reads_on(r, pos, input@, grammar::postfixed(input@, pos as int)),
    decreases input.len() - pos, 2nat,
{
    reveal(grammar::postfixed);
    reveal(grammar::atomic);
    match atomic(input, pos) {
        Some((arg, end, unclosed)) => {
            let bang = scan(input, end, ByteClass::Space);
            if is_at(input, bang, BANG) {
                Some((Expr::PostfixOp { op: PostfixOp::Fac, arg: Box::new(arg) }, bang + 1, false))
            } else {
                Some((arg, end, unclosed))
            }
        },
        None => None,
    }
}

pub(crate) fn prefixed(input: &[u8], pos: usize) -> (r: Option<(Expr, usize, bool)>)
    requires
        pos <= input.len(),
    ensures
        reads_on(r, pos, input@, grammar::prefixed(input@, pos as int)),
    decreases input.len() - pos, 3nat,
{
    reveal(grammar::prefixed);
    reveal(grammar::postfixed);
    match postfixed(input, pos) {
        Some(r) => {
            return Some(r);
        },
        None => {},
    }
    if !is_at(input, pos, MINUS) {
        return None;
    }
    let start = scan(input, pos + 1, ByteClass::Space);
    match postfixed(input, start) {
        Some((arg, end, unclosed)) => Some(
            (Expr::PrefixOp { op: PrefixOp::Neg, arg: Box::new(arg) }, end, unclosed),
        ),
        None => None,
    }
}

pub(crate) fn term(input: &[u8], pos: usize) -> (r: Option<(Expr, usize, bool)>)
    requires
        pos <= input.len(),
    ensures
        reads_on(r, pos, input@, grammar::term(input@, pos as int)),
    decreases input.len() - pos, 4nat,
{
    reveal(grammar::term);
    reveal(grammar::prefixed);
    let start = scan(input, pos, ByteClass::Space);
    match prefixed(input, start) {
        Some((e, end, unclosed)) => {
            let last = scan(input, end, ByteClass::Space);
            Some((e, last, unclosed && last == end))
        },
        None => None,
    }
}

fn power_operator_end(input: &[u8], pos: usize) -> (end: usize)
    requires
        pos <= input.len(),
    ensures
        end == pos + grammar::power_operator(input@, pos as int),
        end <= input.len(),
{
    if is_at(input, pos, CARET) {
        pos + 1
    } else if is_at(input, pos, STAR) && is_at(input, pos + 1, STAR) {
        pos + 2
    } else {
        pos
    }
}

pub(crate) fn power(input: &[u8], pos: usize) -> (r: Option<(Expr, usize, bool)>)
    requires
        pos <= input.len(),
    ensures
        reads_on(r, pos, input@, grammar::power(input@, pos as int)),
    decreases input.len() - pos, 5nat,
{
    reveal(grammar::power);
    reveal(grammar::term);
    let (base, end, unclosed) = match term(input, pos) {
        Some(r) => r,
        None => {
            return None;
        },
    };
    let next = power_operator_end(input, end);
    if next == end {
        return Some((base, end, unclosed));
    }
    match power(input, next) {
        Some((exponent, last, open)) => Some(
            (Expr::infix(BinaryOp::Pow, base, exponent), last, open),
        ),
        None => Some((base, end, unclosed)),
    }
}

} // verus!
