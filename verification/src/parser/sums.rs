//! Products and sums, grouped from the left.
use vstd::prelude::*;
use crate::parser::grammar;
use crate::parser::grammar::reads;
use crate::parser::lexical::{is_at, MINUS, PERCENT, PLUS, SLASH, STAR};
use crate::parser::implicit::powers;
use crate::types::{BinaryOp, Expr};

verus! {

fn product_operator_at(input: &[u8], pos: usize) -> (r: Option<BinaryOp>)
    ensures
        r == grammar::product_operator(input@, pos as int),
{
    if is_at(input, pos, STAR) {
        Some(BinaryOp::Mul)
    } else if is_at(input, pos, SLASH) {
        Some(BinaryOp::Div)
    } else if is_at(input, pos, PERCENT) {
        Some(BinaryOp::Rem)
    } else {
        None
    }
}

pub(crate) fn product(input: &[u8], pos: usize) -> (r: Option<(Expr, usize)>)
    requires
        pos <= input.len(),
    ensures
        reads(r, pos, input@.len(), grammar::product(input@, pos as int)),
    decreases input.len() - pos, 9nat,
{
    reveal(grammar::product);
    reveal(grammar::product_tail);
    reveal(grammar::powers);
    let (head, first) = match powers(input, pos) {
        Some(r) => r,
        None => {
            return None;
        },
    };
    let mut acc = head;
    let mut p: usize = first;
    loop
        invariant
            pos <= p <= input.len(),
            grammar::product(input@, pos as int) == Some(
                (
                    grammar::product_tail(input@, acc@, p as int).0,
                    (p - pos + grammar::product_tail(input@, acc@, p as int).1) as nat,
                ),
            ),
        decreases input.len() - p,
    {
        reveal(grammar::product_tail);
        reveal(grammar::powers);
        let op = match product_operator_at(input, p) {
            Some(op) => op,
            None => {
                return Some((acc, p));
            },
        };
        match powers(input, p + 1) {
            Some((rhs, end)) => {
                acc = Expr::infix(op, acc, rhs);
                p = end;
            },
            None => {
                return Some((acc, p));
            },
        }
    }
}

fn sum_operator_at(input: &[u8], pos: usize) -> (r: Option<BinaryOp>)
    ensures
        r == grammar::sum_operator(input@, pos as int),
{
    if is_at(input, pos, PLUS) {
        Some(BinaryOp::Add)
    } else if is_at(input, pos, MINUS) {
        Some(BinaryOp::Sub)
    } else {
        None
    }
}

/// Reads the expression that starts at `pos`: its tree and where it ends.
pub fn expression(input: &[u8], pos: usize) -> (r: Option<(Expr, usize)>)
    requires
        pos <= input.len(),
    ensures
        reads(r, pos, input@.len(), grammar::expression(input@, pos as int)),
    decreases input.len() - pos, 11nat,
{
    reveal(grammar::expression);
    reveal(grammar::sum_tail);
    reveal(grammar::product);
    let (head, first) = match product(input, pos) {
        Some(r) => r,
        None => {
            return None;
        },
    };
    let mut acc = head;
    let mut p: usize = first;
    loop
        invariant
            pos <= p <= input.len(),
            grammar::expression(input@, pos as int) == Some(
                (
                    grammar::sum_tail(input@, acc@, p as int).0,
                    (p - pos + grammar::sum_tail(input@, acc@, p as int).1) as nat,
                ),
            ),
        decreases input.len() - p,
    {
        reveal(grammar::sum_tail);
        reveal(grammar::product);
        let op = match sum_operator_at(input, p) {
            Some(op) => op,
            None => {
                return Some((acc, p));
            },
        };
        match product(input, p + 1) {
            Some((rhs, end)) => {
                acc = Expr::infix(op, acc, rhs);
                p = end;
            },
            None => {
                return Some((acc, p));
            },
        }
    }
}

} // verus!
