//! A call that is not closed is no group either.
//!
//! Where a name stands before `(` and what follows is no argument list, the
//! name is read as a variable and the `(` as the start of a factor beside it.
//! That factor would be a group, and the group would hold what the argument
//! list held: it fails as the call failed. The parser uses this to read the
//! inside of an unclosed call once and not twice, which keeps its work from
//! doubling with every level of nesting.
use vstd::prelude::*;
use crate::parser::grammar;
use crate::parser::lexical::{at, ident_length, number_length, run, ByteClass, CLOSE, OPEN};

verus! {

/// Where a name and `(` stand and the call fails, the group at that `(` fails.
pub proof fn lemma_unclosed_call(input: Seq<u8>, pos: int, k: nat)
    requires
        ident_length(input, pos) == Some(k),
        at(input, pos + k, OPEN),
        grammar::call(input, pos) is None,
    ensures
        grammar::group(input, pos + k) is None,
{
    reveal(grammar::call);
    reveal(grammar::group);
    reveal(grammar::arguments);
    reveal(grammar::arguments_tail);
    reveal(grammar::expression);
    match grammar::expression(input, pos + k + 1) {
        Some((first, n)) => {
            let close = pos + k + 1 + n;
            if at(input, close, CLOSE) {
                assert(run(input, close, ByteClass::Space) == 0);
            }
        },
        None => {},
    }
}

/// Where `(` stands and the group fails, no factor starts there.
pub proof fn lemma_no_factor(input: Seq<u8>, pos: int)
    requires
        at(input, pos, OPEN),
        grammar::group(input, pos) is None,
    ensures
        grammar::power(input, pos) is None,
{
    reveal(grammar::power);
    reveal(grammar::term);
    reveal(grammar::prefixed);
    reveal(grammar::postfixed);
    reveal(grammar::atomic);
    reveal(grammar::call);
    reveal(grammar::group);
    reveal(number_length);
    assert(run(input, pos, ByteClass::Space) == 0);
    assert(run(input, pos, ByteClass::Digit) == 0);
    assert(number_length(input, pos) is None);
    assert(ident_length(input, pos) is None);
    assert(grammar::atomic(input, pos) is None);
    assert(grammar::postfixed(input, pos) is None);
    assert(grammar::prefixed(input, pos) is None);
    assert(grammar::prefixed(input, pos + run(input, pos, ByteClass::Space)) is None);
    assert(grammar::term(input, pos) is None);
}

} // verus!
