//! The atoms of an expression: literals, names, calls and groups.
use vstd::prelude::*;
use crate::parser::grammar;
use crate::parser::grammar::{reads, reads_on};
use crate::parser::unclosed::lemma_unclosed_call;
use crate::parser::lexical::{
    ident_end, is_at, number_end, scan, ByteClass, CLOSE, COMMA, OPEN, UNDERSCORE,
};
use crate::parser::sums::expression;
use crate::text::copy_ascii;
use crate::types::{Expr, exprs_view};

verus! {

pub(crate) fn call(input: &[u8], pos: usize) -> (r: Option<(Expr, usize)>)
    requires
        pos <= input.len(),
    ensures
        reads(r, pos, input@.len(), grammar::call(input@, pos as int)),
    decreases input.len() - pos, 0nat,
{
    reveal(grammar::call);
    reveal(grammar::arguments);
    let name_end = match ident_end(input, pos) {
        Some(end) => end,
        None => {
            return None;
        },
    };
    if !is_at(input, name_end, OPEN) {
        return None;
    }
    let (args, last) = arguments(input, name_end + 1);
    let end = scan(input, last, ByteClass::Space);
    if !is_at(input, end, CLOSE) {
        return None;
    }
    let name = copy_ascii(input, pos, name_end);
    proof {
        Expr::lemma_call_view(name, args);
    }
    Some((Expr::FnCall { name, args }, end + 1))
}

pub(crate) fn arguments(input: &[u8], pos: usize) -> (r: (Vec<Expr>, usize))
    requires
        pos <= input.len(),
    ensures
        pos <= r.1 <= input.len(),
        grammar::arguments(input@, pos as int) == (exprs_view(r.0@), (r.1 - pos) as nat),
    decreases input.len() - pos, 13nat,
{
    reveal(grammar::arguments);
    reveal(grammar::arguments_tail);
    reveal(grammar::expression);
    let mut args: Vec<Expr> = Vec::new();
    let (first, first_end) = match expression(input, pos) {
        Some(r) => r,
        None => {
            assert(exprs_view(args@) =~= Seq::empty());
            return (args, pos);
        },
    };
    let ghost first_view = first@;
    args.push(first);
    assert(exprs_view(args@) =~= seq![first_view]);
    let mut p: usize = first_end;
    loop
        invariant
            pos <= p <= input.len(),
            grammar::arguments(input@, pos as int) == (
                grammar::arguments_tail(input@, exprs_view(args@), p as int).0,
                (p - pos + grammar::arguments_tail(input@, exprs_view(args@), p as int).1) as nat,
            ),
        decreases input.len() - p,
    {
        reveal(grammar::arguments_tail);
        reveal(grammar::expression);
        if !is_at(input, p, COMMA) {
            return (args, p);
        }
        match expression(input, p + 1) {
            Some((arg, end)) => {
                let ghost before = exprs_view(args@);
                let ghost arg_view = arg@;
                args.push(arg);
                assert(exprs_view(args@) =~= before.push(arg_view));
                p = end;
            },
            None => {
                return (args, p);
            },
        }
    }
}

pub(crate) fn group(input: &[u8], pos: usize) -> (r: Option<(Expr, usize)>)
    requires
        pos <= input.len(),
    ensures
        reads(r, pos, input@.len(), grammar::group(input@, pos as int)),
    decreases input.len() - pos, 0nat,
{
    reveal(grammar::group);
    reveal(grammar::expression);
    if !is_at(input, pos, OPEN) {
        return None;
    }
    match expression(input, pos + 1) {
        Some((inner, end)) => {
            if is_at(input, end, CLOSE) {
                Some((inner, end + 1))
            } else {
                None
            }
        },
        None => None,
    }
}

pub(crate) fn atomic(input: &[u8], pos: usize) -> (r: Option<(Expr, usize, bool)>)
    requires
        pos <= input.len(),
    ensures
        reads_on(r, pos, input@, grammar::atomic(input@, pos as int)),
    decreases input.len() - pos, 1nat,
{
    reveal(grammar::atomic);
    reveal(grammar::call);
    reveal(grammar::group);
    match number_end(input, pos) {
        Some(end) => {
            return Some((Expr::Number(copy_ascii(input, pos, end)), end, false));
        },
        None => {},
    }
    match call(input, pos) {
        Some((e, end)) => {
            return Some((e, end, false));
        },
        None => {},
    }
    match ident_end(input, pos) {
        Some(end) => {
            let unclosed = is_at(input, end, OPEN);
            proof {
                if unclosed {
                    lemma_unclosed_call(input@, pos as int, (end - pos) as nat);
                }
            }
            return Some((Expr::Variable(copy_ascii(input, pos, end)), end, unclosed));
        },
        None => {},
    }
    if is_at(input, pos, UNDERSCORE) {
        return Some((Expr::PrevAnswer, pos + 1, false));
    }
    match group(input, pos) {
        Some((e, end)) => Some((e, end, false)),
        None => None,
    }
}

} // verus!
