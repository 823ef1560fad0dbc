//! Building strings one character at a time.
use vstd::prelude::*;

verus! {

/// The characters that a run of ASCII bytes spells.
pub open spec fn ascii_text(bytes: Seq<u8>) -> Seq<char> {
    Seq::new(bytes.len(), |i: int| bytes[i] as char)
}

/// Appends one character. This is `String::push` of the standard library,
/// which extends the string by exactly that character.
#[verifier::external_body]
pub(crate) fn push_char(s: &mut String, c: char)
    ensures
        final(s)@ == old(s)@.push(c),
{
    s.push(c)
}

/// The text spelled by `input[from..to]`.
pub fn copy_ascii(input: &[u8], from: usize, to: usize) -> (s: String)
    requires
        from <= to <= input.len(),
    ensures
        s@ == ascii_text(input@.subrange(from as int, to as int)),
{
    let mut s = String::new();
    let mut i: usize = from;
    while i < to
        invariant
            from <= i <= to <= input.len(),
            s@ == ascii_text(input@.subrange(from as int, i as int)),
        decreases to - i,
    {
        push_char(&mut s, input[i] as char);
        i += 1;
        assert(s@ =~= ascii_text(input@.subrange(from as int, i as int)));
    }
    s
}

} // verus!
