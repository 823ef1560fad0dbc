//! The tokens of the grammar: whitespace, identifiers and numeric literals.
//!
//! Every rule is stated on the bytes of the line and a position in it, and says
//! how many bytes the token takes there, if it stands there at all.
use vstd::prelude::*;

verus! {

/// The bytes that the grammar names.
pub const SPACE: u8 = 0x20;

pub const TAB: u8 = 0x09;

pub const LF: u8 = 0x0a;

pub const CR: u8 = 0x0d;

pub const BANG: u8 = 0x21;

pub const PERCENT: u8 = 0x25;

pub const OPEN: u8 = 0x28;

pub const CLOSE: u8 = 0x29;

pub const STAR: u8 = 0x2a;

pub const PLUS: u8 = 0x2b;

pub const COMMA: u8 = 0x2c;

pub const MINUS: u8 = 0x2d;

pub const POINT: u8 = 0x2e;

pub const SLASH: u8 = 0x2f;

pub const DIGIT_0: u8 = 0x30;

pub const DIGIT_1: u8 = 0x31;

pub const DIGIT_9: u8 = 0x39;

pub const EQUALS: u8 = 0x3d;

pub const UPPER_A: u8 = 0x41;

pub const UPPER_E: u8 = 0x45;

pub const UPPER_Z: u8 = 0x5a;

pub const CARET: u8 = 0x5e;

pub const UNDERSCORE: u8 = 0x5f;

pub const LOWER_A: u8 = 0x61;

pub const LOWER_E: u8 = 0x65;

pub const LOWER_F: u8 = 0x66;

pub const LOWER_I: u8 = 0x69;

pub const LOWER_L: u8 = 0x6c;

pub const LOWER_N: u8 = 0x6e;

pub const LOWER_T: u8 = 0x74;

pub const LOWER_Y: u8 = 0x79;

pub const LOWER_Z: u8 = 0x7a;

/// A set of bytes that a token may be made of.
#[derive(Clone, Copy, Debug, PartialEq, Eq, Structural)]
pub enum ByteClass {
    /// Space, tab, carriage return and line feed.
    Space,
    /// The decimal digits.
    Digit,
    /// The ASCII letters and the decimal digits.
    Alnum,
}

/// Space, tab, carriage return or line feed.
pub open spec fn is_space(b: u8) -> bool {
    b == SPACE || b == TAB || b == CR || b == LF
}

/// A decimal digit.
pub open spec fn is_digit(b: u8) -> bool {
    DIGIT_0 <= b <= DIGIT_9
}

/// An ASCII letter.
pub open spec fn is_alpha(b: u8) -> bool {
    LOWER_A <= b <= LOWER_Z || UPPER_A <= b <= UPPER_Z
}

impl ByteClass {
    /// Whether `b` is of this class.
    pub open spec fn holds(self, b: u8) -> bool {
        match self {
            ByteClass::Space => is_space(b),
            ByteClass::Digit => is_digit(b),
            ByteClass::Alnum => is_alpha(b) || is_digit(b),
        }
    }

    /// Whether `b` is of this class.
    pub fn contains(self, b: u8) -> (r: bool)
        ensures
            r == self.holds(b),
    {
        match self {
            ByteClass::Space => b == SPACE || b == TAB || b == CR || b == LF,
            ByteClass::Digit => DIGIT_0 <= b && b <= DIGIT_9,
            ByteClass::Alnum => (LOWER_A <= b && b <= LOWER_Z) || (UPPER_A <= b && b <= UPPER_Z) || (DIGIT_0 <= b
                && b <= DIGIT_9),
        }
    }
}

/// The byte `b` stands at `pos`.
pub open spec fn at(input: Seq<u8>, pos: int, b: u8) -> bool {
    0 <= pos < input.len() && input[pos] == b
}

/// The letter whose lower-case form is `lower` stands at `pos`, in either case.
pub open spec fn letter_at(input: Seq<u8>, pos: int, lower: u8) -> bool {
    0 <= pos < input.len() && (input[pos] == lower || input[pos] + 32 == lower)
}

/// The length of the longest run of bytes of `class` that starts at `pos`.
pub open spec fn run(input: Seq<u8>, pos: int, class: ByteClass) -> nat
    decreases input.len() - pos,
{
    if 0 <= pos < input.len() && class.holds(input[pos]) {
        1 + run(input, pos + 1, class)
    } else {
        0
    }
}

/// An identifier at `pos`: one letter, then letters and digits.
pub open spec fn ident_length(input: Seq<u8>, pos: int) -> Option<nat> {
    if 0 <= pos < input.len() && is_alpha(input[pos]) {
        Some(1 + run(input, pos + 1, ByteClass::Alnum))
    } else {
        None
    }
}

/// The length of a sign at `pos`: 1 where `+` or `-` stands there, else 0.
pub open spec fn sign_length(input: Seq<u8>, pos: int) -> nat {
    if at(input, pos, PLUS) || at(input, pos, MINUS) {
        1
    } else {
        0
    }
}

/// An integer literal at `pos`: an optional sign before a digit other than
/// zero and the digits that follow it, or else a single unsigned zero.
pub open spec fn integer_length(input: Seq<u8>, pos: int) -> Option<nat> {
    let s = sign_length(input, pos);
    if 0 <= pos + s < input.len() && DIGIT_1 <= input[pos + s] <= DIGIT_9 {
        Some(s + 1 + run(input, pos + s + 1, ByteClass::Digit))
    } else if at(input, pos, DIGIT_0) {
        Some(1)
    } else {
        None
    }
}

/// A byte that continues an integer into a floating-point literal.
pub open spec fn continues_number(input: Seq<u8>, pos: int) -> bool {
    at(input, pos, POINT) || at(input, pos, LOWER_E) || at(input, pos, UPPER_E)
}

/// The exponent of a floating-point literal at `pos`. Where no `e` stands
/// there the exponent is empty; where one does, a sign may follow it and at
/// least one digit must.
pub open spec fn exponent_length(input: Seq<u8>, pos: int) -> Option<nat> {
    if at(input, pos, LOWER_E) || at(input, pos, UPPER_E) {
        let s = sign_length(input, pos + 1);
        let d = run(input, pos + 1 + s, ByteClass::Digit);
        if d > 0 {
            Some(1 + s + d)
        } else {
            None
        }
    } else {
        Some(0)
    }
}

/// `inf` or `infinity` at `pos`, in any mixture of cases.
pub open spec fn infinity_length(input: Seq<u8>, pos: int) -> Option<nat> {
    if letter_at(input, pos, LOWER_I) && letter_at(input, pos + 1, LOWER_N) && letter_at(
        input,
        pos + 2,
        LOWER_F,
    ) {
        if letter_at(input, pos + 3, LOWER_I) && letter_at(input, pos + 4, LOWER_N) && letter_at(
            input,
            pos + 5,
            LOWER_I,
        ) && letter_at(input, pos + 6, LOWER_T) && letter_at(input, pos + 7, LOWER_Y) {
            Some(8)
        } else {
            Some(3)
        }
    } else {
        None
    }
}

/// An unsigned floating-point literal at `pos`: an infinity; a point and
/// digits; or digits, then optionally a point and further digits. An exponent
/// may follow the digits.
pub open spec fn unsigned_float_length(input: Seq<u8>, pos: int) -> Option<nat> {
    if letter_at(input, pos, LOWER_I) {
        infinity_length(input, pos)
    } else if at(input, pos, POINT) {
        let d = run(input, pos + 1, ByteClass::Digit);
        if d > 0 {
            match exponent_length(input, pos + 1 + d) {
                Some(x) => Some(1 + d + x),
                None => None,
            }
        } else {
            None
        }
    } else {
        let d = run(input, pos, ByteClass::Digit);
        if d > 0 {
            let f = if at(input, pos + d, POINT) {
                1 + run(input, pos + d + 1, ByteClass::Digit)
            } else {
                0
            };
            match exponent_length(input, pos + d + f) {
                Some(x) => Some(d + f + x),
                None => None,
            }
        } else {
            None
        }
    }
}

/// A floating-point literal at `pos`: `nan` in any mixture of cases, or an
/// unsigned literal with an optional sign before it.
pub open spec fn float_length(input: Seq<u8>, pos: int) -> Option<nat> {
    if letter_at(input, pos, LOWER_N) {
        if letter_at(input, pos + 1, LOWER_A) && letter_at(input, pos + 2, LOWER_N) {
            Some(3)
        } else {
            None
        }
    } else if sign_length(input, pos) == 1 {
        match unsigned_float_length(input, pos + 1) {
            Some(n) => Some(1 + n),
            None => None,
        }
    } else {
        unsigned_float_length(input, pos)
    }
}

/// A numeric literal at `pos`. An integer literal is taken where the byte
/// after it does not continue it into a floating-point literal; otherwise the
/// floating-point rule decides alone, so that a literal is taken whole or not
/// at all.
#[verifier::opaque]
pub open spec fn number_length(input: Seq<u8>, pos: int) -> Option<nat> {
    match integer_length(input, pos) {
        Some(n) if !continues_number(input, pos + n) => Some(n),
        _ => float_length(input, pos),
    }
}

/// The end of the run of `class` that starts at `pos`.
pub fn scan(input: &[u8], pos: usize, class: ByteClass) -> (end: usize)
    requires
        pos <= input.len(),
    ensures
        end == pos + run(input@, pos as int, class),
        pos <= end <= input.len(),
{
    let mut i: usize = pos;
    while i < input.len() && class.contains(input[i])
        invariant
            pos <= i <= input.len(),
            run(input@, pos as int, class) == (i - pos) + run(input@, i as int, class),
        decreases input.len() - i,
    {
        i += 1;
    }
    i
}

/// Whether `b` stands at `pos`.
pub fn is_at(input: &[u8], pos: usize, b: u8) -> (r: bool)
    ensures
        r == at(input@, pos as int, b),
{
    pos < input.len() && input[pos] == b
}

/// Whether the letter with the lower-case form `lower` stands at `pos`.
pub fn is_letter_at(input: &[u8], pos: usize, lower: u8) -> (r: bool)
    requires
        LOWER_A <= lower <= LOWER_Z,
    ensures
        r == letter_at(input@, pos as int, lower),
{
    pos < input.len() && (input[pos] == lower || input[pos] == lower - 32)
}

/// The end of the identifier at `pos`, if one stands there.
pub fn ident_end(input: &[u8], pos: usize) -> (r: Option<usize>)
    requires
        pos <= input.len(),
    ensures
        ends_at(r, pos, input@.len(), ident_length(input@, pos as int)),
{
    if pos < input.len() && ((LOWER_A <= input[pos] && input[pos] <= LOWER_Z) || (UPPER_A <= input[pos]
        && input[pos] <= UPPER_Z)) {
        Some(scan(input, pos + 1, ByteClass::Alnum))
    } else {
        None
    }
}

/// An end position says what a length says: both are absent, or the token
/// runs from `pos` to `end`, inside the input.
pub open spec fn ends_at(r: Option<usize>, pos: usize, len: nat, length: Option<nat>) -> bool {
    match r {
        None => length is None,
        Some(end) => pos <= end <= len && length == Some((end - pos) as nat),
    }
}

fn sign_end(input: &[u8], pos: usize) -> (end: usize)
    requires
        pos <= input.len(),
    ensures
        end == pos + sign_length(input@, pos as int),
        end <= input.len(),
{
    if is_at(input, pos, PLUS) || is_at(input, pos, MINUS) {
        pos + 1
    } else {
        pos
    }
}

fn integer_end(input: &[u8], pos: usize) -> (r: Option<usize>)
    requires
        pos <= input.len(),
    ensures
        ends_at(r, pos, input@.len(), integer_length(input@, pos as int)),
{
    let s = sign_end(input, pos);
    if s < input.len() && DIGIT_1 <= input[s] && input[s] <= DIGIT_9 {
        Some(scan(input, s + 1, ByteClass::Digit))
    } else if is_at(input, pos, DIGIT_0) {
        Some(pos + 1)
    } else {
        None
    }
}

fn exponent_end(input: &[u8], pos: usize) -> (r: Option<usize>)
    requires
        pos <= input.len(),
    ensures
        ends_at(r, pos, input@.len(), exponent_length(input@, pos as int)),
{
    if is_at(input, pos, LOWER_E) || is_at(input, pos, UPPER_E) {
        let s = sign_end(input, pos + 1);
        let d = scan(input, s, ByteClass::Digit);
        if d > s {
            Some(d)
        } else {
            None
        }
    } else {
        Some(pos)
    }
}

fn infinity_end(input: &[u8], pos: usize) -> (r: Option<usize>)
    requires
        pos <= input.len(),
    ensures
        ends_at(r, pos, input@.len(), infinity_length(input@, pos as int)),
{
    if input.len() - pos >= 3 && is_letter_at(input, pos, LOWER_I) && is_letter_at(
        input,
        pos + 1,
        LOWER_N,
    ) && is_letter_at(input, pos + 2, LOWER_F) {
        if input.len() - pos >= 8 && is_letter_at(input, pos + 3, LOWER_I) && is_letter_at(
            input,
            pos + 4,
            LOWER_N,
        ) && is_letter_at(input, pos + 5, LOWER_I) && is_letter_at(input, pos + 6, LOWER_T)
            && is_letter_at(input, pos + 7, LOWER_Y) {
            Some(pos + 8)
        } else {
            Some(pos + 3)
        }
    } else {
        None
    }
}

fn unsigned_float_end(input: &[u8], pos: usize) -> (r: Option<usize>)
    requires
        pos <= input.len(),
    ensures
        ends_at(r, pos, input@.len(), unsigned_float_length(input@, pos as int)),
{
    if is_letter_at(input, pos, LOWER_I) {
        infinity_end(input, pos)
    } else if is_at(input, pos, POINT) {
        let d = scan(input, pos + 1, ByteClass::Digit);
        if d > pos + 1 {
            exponent_end(input, d)
        } else {
            None
        }
    } else {
        let d = scan(input, pos, ByteClass::Digit);
        if d > pos {
            let f = if is_at(input, d, POINT) {
                scan(input, d + 1, ByteClass::Digit)
            } else {
                d
            };
            exponent_end(input, f)
        } else {
            None
        }
    }
}

fn float_end(input: &[u8], pos: usize) -> (r: Option<usize>)
    requires
        pos <= input.len(),
    ensures
        ends_at(r, pos, input@.len(), float_length(input@, pos as int)),
{
    if is_letter_at(input, pos, LOWER_N) {
        if input.len() - pos >= 3 && is_letter_at(input, pos + 1, LOWER_A) && is_letter_at(
            input,
            pos + 2,
            LOWER_N,
        ) {
            Some(pos + 3)
        } else {
            None
        }
    } else if is_at(input, pos, PLUS) || is_at(input, pos, MINUS) {
        unsigned_float_end(input, pos + 1)
    } else {
        unsigned_float_end(input, pos)
    }
}

/// The end of the numeric literal at `pos`, if one stands there.
pub fn number_end(input: &[u8], pos: usize) -> (r: Option<usize>)
    requires
        pos <= input.len(),
    ensures
        ends_at(r, pos, input@.len(), number_length(input@, pos as int)),
{
    reveal(number_length);
    match integer_end(input, pos) {
        Some(end) => {
            if is_at(input, end, POINT) || is_at(input, end, LOWER_E) || is_at(input, end, UPPER_E) {
                float_end(input, pos)
            } else {
                Some(end)
            }
        },
        None => float_end(input, pos),
    }
}

} // verus!
