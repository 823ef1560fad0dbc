//! The grammar of expressions, as functions on the bytes of the line.
//!
//! Each rule takes the input and a position and gives what it reads there: the
//! tree and the number of bytes taken, or nothing. A rule that fails takes
//! nothing, so the rule tried after it starts at the same place.
//!
//! From the loosest binding to the tightest: sums, products, terms that stand
//! side by side, powers, a prefix minus, a postfix `!`, and the atoms.
use vstd::prelude::*;
use crate::parser::lexical::{
    at, ident_length, is_space, number_length, run, ByteClass, BANG, CARET, CLOSE, COMMA, MINUS, OPEN,
    PERCENT, PLUS, SLASH, STAR, UNDERSCORE,
};
use crate::text::ascii_text;
use crate::types::{BinaryOp, Expr, ExprView, PostfixOp, PrefixOp};

verus! {

/// What is left of the input from `pos` on. Every rule reads only there, and
/// what a rule hands on to the next is no more than it was given.
pub open spec fn remaining(input: Seq<u8>, pos: int) -> nat {
    if pos < input.len() {
        (input.len() - pos) as nat
    } else {
        0
    }
}

/// The text of the token of `n` bytes at `pos`.
pub open spec fn token_text(input: Seq<u8>, pos: int, n: nat) -> Seq<char> {
    ascii_text(input.subrange(pos, pos + n))
}

/// A parser's answer says what a rule says: both read nothing, or the parser
/// read the rule's tree and stopped, inside the input, where the rule stops.
pub open spec fn reads(
    r: Option<(Expr, usize)>,
    pos: usize,
    len: nat,
    rule: Option<(ExprView, nat)>,
) -> bool {
    match r {
        None => rule is None,
        Some((e, end)) => pos <= end <= len && rule == Some((e@, (end - pos) as nat)),
    }
}

/// As [`reads`], of a parser that also tells where it stopped before an
/// unclosed call: at a `(` at which no group stands.
pub open spec fn reads_on(
    r: Option<(Expr, usize, bool)>,
    pos: usize,
    input: Seq<u8>,
    rule: Option<(ExprView, nat)>,
) -> bool {
    match r {
        None => rule is None,
        Some((e, end, unclosed)) => {
            &&& pos <= end <= input.len()
            &&& rule == Some((e@, (end - pos) as nat))
            &&& unclosed ==> at(input, end as int, OPEN) && group(input, end as int) is None
        },
    }
}

/// A call: a name, `(` directly after it, the arguments, and `)`. Between
/// a name and `(` no whitespace may stand: `f (x)` is a product.
#[verifier::opaque]
pub open spec fn call(input: Seq<u8>, pos: int) -> Option<(ExprView, nat)>
    decreases remaining(input, pos), 0nat,
{
    match ident_length(input, pos) {
        Some(k) => {
            if at(input, pos + k, OPEN) {
                let (args, n) = arguments(input, pos + k + 1);
                let inner = n + run(input, pos + k + 1 + n, ByteClass::Space);
                if at(input, pos + k + 1 + inner, CLOSE) {
                    Some(
                        (ExprView::FnCall { name: token_text(input, pos, k), args }, k + inner + 2),
                    )
                } else {
                    None
                }
            } else {
                None
            }
        },
        None => None,
    }
}

/// An expression in parentheses.
#[verifier::opaque]
pub open spec fn group(input: Seq<u8>, pos: int) -> Option<(ExprView, nat)>
    decreases remaining(input, pos), 0nat,
{
    if at(input, pos, OPEN) {
        match expression(input, pos + 1) {
            Some((inner, n)) => {
                if at(input, pos + 1 + n, CLOSE) {
                    Some((inner, n + 2))
                } else {
                    None
                }
            },
            None => None,
        }
    } else {
        None
    }
}

/// An atom: the first that fits of a numeric literal, a call, a name, the
/// previous-answer mark `_`, and an expression in parentheses.
#[verifier::opaque]
pub open spec fn atomic(input: Seq<u8>, pos: int) -> Option<(ExprView, nat)>
    decreases remaining(input, pos), 1nat,
{
    match number_length(input, pos) {
        Some(n) => Some((ExprView::Number(token_text(input, pos, n)), n)),
        None => match call(input, pos) {
            Some(r) => Some(r),
            None => match ident_length(input, pos) {
                Some(n) => Some((ExprView::Variable(token_text(input, pos, n)), n)),
                None => {
                    if at(input, pos, UNDERSCORE) {
                        Some((ExprView::PrevAnswer, 1))
                    } else {
                        group(input, pos)
                    }
                },
            },
        },
    }
}

/// An atom, and `!` where it stands after it.
#[verifier::opaque]
pub open spec fn postfixed(input: Seq<u8>, pos: int) -> Option<(ExprView, nat)>
    decreases remaining(input, pos), 2nat,
{
    match atomic(input, pos) {
        Some((arg, n)) => {
            let gap = run(input, pos + n, ByteClass::Space);
            if at(input, pos + n + gap, BANG) {
                Some(
                    (ExprView::PostfixOp { op: PostfixOp::Fac, arg: Box::new(arg) }, n + gap + 1),
                )
            } else {
                Some((arg, n))
            }
        },
        None => None,
    }
}

/// A postfixed atom, or `-` before one. A signed numeric literal is an
/// atom, so the minus directly before a digit belongs to the literal.
#[verifier::opaque]
pub open spec fn prefixed(input: Seq<u8>, pos: int) -> Option<(ExprView, nat)>
    decreases remaining(input, pos), 3nat,
{
    match postfixed(input, pos) {
        Some(r) => Some(r),
        None => {
            if at(input, pos, MINUS) {
                let gap = run(input, pos + 1, ByteClass::Space);
                match postfixed(input, pos + 1 + gap) {
                    Some((arg, n)) => Some(
                        (ExprView::PrefixOp { op: PrefixOp::Neg, arg: Box::new(arg) }, 1 + gap + n),
                    ),
                    None => None,
                }
            } else {
                None
            }
        },
    }
}

/// A prefixed atom with the whitespace around it.
#[verifier::opaque]
pub open spec fn term(input: Seq<u8>, pos: int) -> Option<(ExprView, nat)>
    decreases remaining(input, pos), 4nat,
{
    let before = run(input, pos, ByteClass::Space);
    match prefixed(input, pos + before) {
        Some((e, n)) => Some((e, before + n + run(input, pos + before + n, ByteClass::Space))),
        None => None,
    }
}

/// The length of the power operator at `pos`, `^` or `**`; 0 where none
/// stands there.
pub open spec fn power_operator(input: Seq<u8>, pos: int) -> nat {
    if at(input, pos, CARET) {
        1
    } else if at(input, pos, STAR) && at(input, pos + 1, STAR) {
        2
    } else {
        0
    }
}

/// Terms joined by the power operator, grouped from the right: in `a^b^c`
/// the exponent of `a` is `b^c`. An operator with no term after it is left
/// unread.
#[verifier::opaque]
pub open spec fn power(input: Seq<u8>, pos: int) -> Option<(ExprView, nat)>
    decreases remaining(input, pos), 5nat,
{
    match term(input, pos) {
        Some((base, n)) => {
            let k = power_operator(input, pos + n);
            if k > 0 {
                match power(input, pos + n + k) {
                    Some((exponent, m)) => Some((ExprView::infix(BinaryOp::Pow, base, exponent), n + k + m)),
                    None => Some((base, n)),
                }
            } else {
                Some((base, n))
            }
        },
        None => None,
    }
}

/// Whether a term that starts at `pos` multiplies what stands before it.
/// A sign never does: `3 -2` is a subtraction. A numeric literal does only
/// after whitespace: `2 3` is a product, while the `07` of `007` is no
/// second factor, so a literal is never read in pieces.
pub open spec fn juxtaposed(input: Seq<u8>, pos: int) -> bool {
    &&& 0 <= pos < input.len()
    &&& input[pos] != MINUS
    &&& input[pos] != PLUS
    &&& (number_length(input, pos) is None || (pos > 0 && is_space(input[pos - 1])))
}

/// The factors that follow `acc` with no operator between, multiplied onto
/// it one after the other, from the left.
#[verifier::opaque]
pub open spec fn powers_tail(input: Seq<u8>, acc: ExprView, pos: int) -> (ExprView, nat)
    decreases remaining(input, pos), 6nat,
{
    if juxtaposed(input, pos) {
        match power(input, pos) {
            Some((factor, n)) => {
                if n > 0 {
                    let (e, k) = powers_tail(input, ExprView::infix(BinaryOp::Mul, acc, factor), pos + n);
                    (e, n + k)
                } else {
                    (acc, 0)
                }
            },
            None => (acc, 0),
        }
    } else {
        (acc, 0)
    }
}

/// Powers that stand side by side: an implicit product.
#[verifier::opaque]
pub open spec fn powers(input: Seq<u8>, pos: int) -> Option<(ExprView, nat)>
    decreases remaining(input, pos), 7nat,
{
    match power(input, pos) {
        Some((head, n)) => {
            let (e, k) = powers_tail(input, head, pos + n);
            Some((e, n + k))
        },
        None => None,
    }
}

/// The operator of a product at `pos`: `*`, `/` or `%`.
pub open spec fn product_operator(input: Seq<u8>, pos: int) -> Option<BinaryOp> {
    if at(input, pos, STAR) {
        Some(BinaryOp::Mul)
    } else if at(input, pos, SLASH) {
        Some(BinaryOp::Div)
    } else if at(input, pos, PERCENT) {
        Some(BinaryOp::Rem)
    } else {
        None
    }
}

/// The operators and operands that follow `acc` in a product, applied from
/// the left. An operator with no operand after it is left unread.
#[verifier::opaque]
pub open spec fn product_tail(input: Seq<u8>, acc: ExprView, pos: int) -> (ExprView, nat)
    decreases remaining(input, pos), 8nat,
{
    match product_operator(input, pos) {
        Some(op) => match powers(input, pos + 1) {
            Some((rhs, n)) => {
                let (e, k) = product_tail(input, ExprView::infix(op, acc, rhs), pos + 1 + n);
                (e, 1 + n + k)
            },
            None => (acc, 0),
        },
        None => (acc, 0),
    }
}

/// A product: implicit products joined by `*`, `/` and `%`, grouped from the
/// left.
#[verifier::opaque]
pub open spec fn product(input: Seq<u8>, pos: int) -> Option<(ExprView, nat)>
    decreases remaining(input, pos), 9nat,
{
    match powers(input, pos) {
        Some((head, n)) => {
            let (e, k) = product_tail(input, head, pos + n);
            Some((e, n + k))
        },
        None => None,
    }
}

/// The operator of a sum at `pos`: `+` or `-`.
pub open spec fn sum_operator(input: Seq<u8>, pos: int) -> Option<BinaryOp> {
    if at(input, pos, PLUS) {
        Some(BinaryOp::Add)
    } else if at(input, pos, MINUS) {
        Some(BinaryOp::Sub)
    } else {
        None
    }
}

/// The operators and operands that follow `acc` in a sum, applied from the
/// left. An operator with no operand after it is left unread.
#[verifier::opaque]
pub open spec fn sum_tail(input: Seq<u8>, acc: ExprView, pos: int) -> (ExprView, nat)
    decreases remaining(input, pos), 10nat,
{
    match sum_operator(input, pos) {
        Some(op) => match product(input, pos + 1) {
            Some((rhs, n)) => {
                let (e, k) = sum_tail(input, ExprView::infix(op, acc, rhs), pos + 1 + n);
                (e, 1 + n + k)
            },
            None => (acc, 0),
        },
        None => (acc, 0),
    }
}

/// An expression: products joined by `+` and `-`, grouped from the left.
#[verifier::opaque]
pub open spec fn expression(input: Seq<u8>, pos: int) -> Option<(ExprView, nat)>
    decreases remaining(input, pos), 11nat,
{
    match product(input, pos) {
        Some((head, n)) => {
            let (e, k) = sum_tail(input, head, pos + n);
            Some((e, n + k))
        },
        None => None,
    }
}

/// The arguments that follow `acc`, each after a comma. A comma with no
/// expression after it is left unread, so a call does not end in a comma.
#[verifier::opaque]
pub open spec fn arguments_tail(input: Seq<u8>, acc: Seq<ExprView>, pos: int) -> (
    Seq<ExprView>,
    nat,
)
    decreases remaining(input, pos), 12nat,
{
    if at(input, pos, COMMA) {
        match expression(input, pos + 1) {
            Some((arg, n)) => {
                let (args, k) = arguments_tail(input, acc.push(arg), pos + 1 + n);
                (args, 1 + n + k)
            },
            None => (acc, 0),
        }
    } else {
        (acc, 0)
    }
}

/// The arguments of a call: no expression, or expressions separated by
/// commas.
#[verifier::opaque]
pub open spec fn arguments(input: Seq<u8>, pos: int) -> (Seq<ExprView>, nat)
    decreases remaining(input, pos), 13nat,
{
    match expression(input, pos) {
        Some((first, n)) => {
            let (args, k) = arguments_tail(input, seq![first], pos + n);
            (args, n + k)
        },
        None => (Seq::empty(), 0),
    }
}

} // verus!
