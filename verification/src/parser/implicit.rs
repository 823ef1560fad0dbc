//! Factors that stand side by side with no operator between them.
use vstd::prelude::*;
use crate::parser::grammar;
use crate::parser::grammar::reads;
use crate::parser::lexical::{ByteClass, number_end, MINUS, PLUS};
use crate::parser::lexical::{at, OPEN};
use crate::parser::operands::power;
use crate::parser::unclosed::lemma_no_factor;
use crate::types::{BinaryOp, Expr};

verus! {

fn is_juxtaposed(input: &[u8], pos: usize) -> (r: bool)
    requires
        pos <= input.len(),
    ensures
        r == grammar::juxtaposed(input@, pos as int),
{
    if pos >= input.len() {
        return false;
    }
    if input[pos] == MINUS || input[pos] == PLUS {
        return false;
    }
    match number_end(input, pos) {
        None => true,
        Some(_) => pos > 0 && ByteClass::Space.contains(input[pos - 1]),
    }
}

pub(crate) fn powers(input: &[u8], pos: usize) -> (r: Option<(Expr, usize)>)
    requires
        pos <= input.len(),
    ensures
        reads(r, pos, input@.len(), grammar::powers(input@, pos as int)),
    decreases input.len() - pos, 7nat,
{
    reveal(grammar::powers);
    reveal(grammar::powers_tail);
    reveal(grammar::power);
    let (head, first, after_name) = match power(input, pos) {
        Some(r) => r,
        None => {
            return None;
        },
    };
    let mut acc = head;
    let mut p: usize = first;
    let mut unclosed = after_name;
    loop
        invariant
            pos <= p <= input.len(),
            unclosed ==> at(input@, p as int, OPEN) && grammar::group(input@, p as int) is None,
            grammar::powers(input@, pos as int) == Some(
                (
                    grammar::powers_tail(input@, acc@, p as int).0,
                    (p - pos + grammar::powers_tail(input@, acc@, p as int).1) as nat,
                ),
            ),
        decreases input.len() - p,
    {
        reveal(grammar::powers_tail);
        reveal(grammar::power);
        if unclosed {
            proof {
                lemma_no_factor(input@, p as int);
            }
            return Some((acc, p));
        }
        if !is_juxtaposed(input, p) {
            return Some((acc, p));
        }
        match power(input, p) {
            Some((factor, end, after_name)) => {
                if end > p {
                    acc = Expr::infix(BinaryOp::Mul, acc, factor);
                    p = end;
                    unclosed = after_name;
                } else {
                    return Some((acc, p));
                }
            },
            None => {
                return Some((acc, p));
            },
        }
    }
}

} // verus!
