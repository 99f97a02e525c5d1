//! Hexadecimal numbers in text.

use vstd::prelude::*;
use vstd::slice::slice_subrange;

verus! {

/// Why text is not a hexadecimal number.
#[derive(Debug, Clone, Copy, PartialEq, Eq, Structural)]
pub enum HexError {
    /// There is no digit at all.
    Empty,
    /// A character is not a hexadecimal digit.
    InvalidDigit,
    /// The number does not fit.
    TooLarge,
}

/// The text shown for a [`HexError`].
pub open spec fn hex_error_text(e: HexError) -> Seq<char> {
    match e {
        HexError::Empty => "cannot parse integer from empty string"@,
        HexError::InvalidDigit => "invalid digit found in string"@,
        HexError::TooLarge => "number too large to fit in target type"@,
    }
}

impl HexError {
    /// The text shown for this error.
    pub fn message(&self) -> (r: &'static str)
        ensures
            r@ == hex_error_text(*self),
    {
        match self {
            HexError::Empty => "cannot parse integer from empty string",
            HexError::InvalidDigit => "invalid digit found in string",
            HexError::TooLarge => "number too large to fit in target type",
        }
    }
}

/// The value of a hexadecimal digit.
pub open spec fn digit_value(c: char) -> Option<nat> {
    let v = c as u32;
    if 0x30 <= v <= 0x39 {
        Some((v - 0x30) as nat)
    } else if 0x41 <= v <= 0x46 {
        Some((v - 0x41 + 10) as nat)
    } else if 0x61 <= v <= 0x66 {
        Some((v - 0x61 + 10) as nat)
    } else {
        None
    }
}

/// The number that digits spell, read from the left: the first character that
/// is no digit, or that takes the number past `max`, decides the error.
pub open spec fn digits(s: Seq<char>, max: nat) -> Result<nat, HexError>
    decreases s.len(),
{
    if s.len() == 0 {
        Ok(0)
    } else {
        match digits(s.drop_last(), max) {
            Err(e) => Err(e),
            Ok(n) => match digit_value(s.last()) {
                None => Err(HexError::InvalidDigit),
                Some(d) => if 16 * n + d > max {
                    Err(HexError::TooLarge)
                } else {
                    Ok(16 * n + d)
                },
            },
        }
    }
}

/// The number that text spells: an optional plus sign and at least one digit.
pub open spec fn number(s: Seq<char>, max: nat) -> Result<nat, HexError> {
    if s.len() == 0 {
        Err(HexError::Empty)
    } else if s.len() > 1 && s[0] == '+' {
        digits(s.skip(1), max)
    } else {
        digits(s, max)
    }
}

/// The value of a hexadecimal digit.
pub fn value_of(c: char) -> (r: Option<u32>)
    ensures
        match digit_value(c) {
            Some(d) => r == Some(d as u32) && d < 16,
            None => r is None,
        },
{
    let v: u32 = c as u32;
    if 0x30 <= v && v <= 0x39 {
        Some(v - 0x30)
    } else if 0x41 <= v && v <= 0x46 {
        Some(v - 0x41 + 10)
    } else if 0x61 <= v && v <= 0x66 {
        Some(v - 0x61 + 10)
    } else {
        None
    }
}

proof fn lemma_error_stays(s: Seq<char>, max: nat, i: int)
    requires
        0 <= i <= s.len(),
        digits(s.take(i), max) is Err,
    ensures
        digits(s, max) == digits(s.take(i), max),
    decreases s.len() - i,
{
    if i == s.len() {
        assert(s.take(i) =~= s);
    } else {
        assert(s.take(i + 1).drop_last() =~= s.take(i));
        lemma_error_stays(s, max, i + 1);
    }
}

/// Reads digits from the left.
fn parse_digits(s: &[char], max: u32) -> (r: Result<u32, HexError>)
    requires
        max <= 0xFFFF,
    ensures
        match digits(s@, max as nat) {
            Ok(n) => r matches Ok(x) && x == n && n <= max,
            Err(e) => r matches Err(x) && x == e,
        },
{
    let mut n: u32 = 0;
    let mut i: usize = 0;
    while i < s.len()
        invariant
            max <= 0xFFFF,
            i <= s@.len(),
            n <= max,
            digits(s@.take(i as int), max as nat) == Ok::<nat, HexError>(n as nat),
        decreases s@.len() - i,
    {
        assert(s@.take(i + 1).drop_last() =~= s@.take(i as int));
        match value_of(s[i]) {
            None => {
                proof {
                    lemma_error_stays(s@, max as nat, i + 1);
                }
                return Err(HexError::InvalidDigit);
            },
            Some(d) => {
                if n * 16 + d > max {
                    proof {
                        lemma_error_stays(s@, max as nat, i + 1);
                    }
                    return Err(HexError::TooLarge);
                }
                n = n * 16 + d;
            },
        }
        i += 1;
    }
    assert(s@.take(i as int) =~= s@);
    Ok(n)
}

/// Parses a hexadecimal number of at most `max`.
pub fn parse_number(s: &[char], max: u32) -> (r: Result<u32, HexError>)
    requires
        max <= 0xFFFF,
    ensures
        match number(s@, max as nat) {
            Ok(n) => r matches Ok(x) && x == n && n <= max,
            Err(e) => r matches Err(x) && x == e,
        },
{
    if s.len() == 0 {
        Err(HexError::Empty)
    } else if s.len() > 1 && s[0] == '+' {
        let rest: &[char] = slice_subrange(s, 1, s.len());
        assert(rest@ =~= s@.skip(1));
        parse_digits(rest, max)
    } else {
        parse_digits(s, max)
    }
}

/// The hexadecimal digits are these sixteen, and the letters among them count
/// in either case: a character has a value exactly when it is one of them, and
/// the value is its place.
pub proof fn digits_stand_for_their_place(c: char, n: int)
    requires
        0 <= n < 16,
    ensures
        digit_value(c) == Some(n as nat) <==> (c == "0123456789abcdef"@[n] || c
            == "0123456789ABCDEF"@[n]),
        digit_value(c) matches Some(v) ==> v < 16,
{
    reveal_strlit("0123456789abcdef");
    reveal_strlit("0123456789ABCDEF");
}

/// One more digit at the end makes a number sixteen times as large and adds the
/// digit, as long as it stays within the limit.
pub proof fn one_more_digit(s: Seq<char>, c: char, max: nat, n: nat, d: nat)
    requires
        s.len() > 0,
        number(s, max) == Ok::<nat, HexError>(n),
        digit_value(c) == Some(d),
    ensures
        16 * n + d <= max ==> number(s.push(c), max) == Ok::<nat, HexError>(16 * n + d),
        16 * n + d > max ==> number(s.push(c), max) == Err::<nat, HexError>(HexError::TooLarge),
        number(seq!['+'] + s.push(c), max) == number(s.push(c), max) || s[0] == '+',
        number(seq![c], max) == if d <= max {
            Ok::<nat, HexError>(d)
        } else {
            Err::<nat, HexError>(HexError::TooLarge)
        },
{
    let t = s.push(c);
    assert(t.drop_last() =~= s);
    assert(t[0] == s[0]);
    if s.len() > 1 && s[0] == '+' {
        assert(t.skip(1).drop_last() =~= s.skip(1));
        assert(t.skip(1).last() == c);
    } else if s[0] == '+' {
        assert(s =~= seq!['+']);
        assert(digits(s.drop_last(), max) is Ok);
        assert(digit_value('+') is None);
        assert(digits(s, max) is Err);
    }
    let signed = seq!['+'] + t;
    assert(signed.skip(1) =~= t);
    assert(digit_value('+') is None);
    assert(seq![c].drop_last() =~= Seq::<char>::empty());
    reveal_with_fuel(digits, 2);
}

/// Text without digits is refused as such, and text with a character that is no
/// digit, other than a leading plus sign, is never a number.
pub proof fn no_number_without_digits(s: Seq<char>, i: int, max: nat)
    ensures
        number(s, max) == Err::<nat, HexError>(HexError::Empty) <==> s.len() == 0,
        0 <= i < s.len() && digit_value(s[i]) is None && !(i == 0 && s[0] == '+' && s.len() > 1)
            ==> number(s, max) is Err,
{
    lemma_never_empty(s, max);
    if s.len() > 1 {
        lemma_never_empty(s.skip(1), max);
    }
    if 0 <= i < s.len() && digit_value(s[i]) is None {
        lemma_bad_digit(s, i, max);
        if i > 0 {
            assert(s.skip(1)[i - 1] == s[i]);
            lemma_bad_digit(s.skip(1), i - 1, max);
        }
    }
}

proof fn lemma_never_empty(s: Seq<char>, max: nat)
    ensures
        digits(s, max) != Err::<nat, HexError>(HexError::Empty),
    decreases s.len(),
{
    if s.len() > 0 {
        lemma_never_empty(s.drop_last(), max);
    }
}

proof fn lemma_bad_digit(s: Seq<char>, i: int, max: nat)
    requires
        0 <= i < s.len(),
        digit_value(s[i]) is None,
    ensures
        digits(s, max) is Err,
    decreases s.len(),
{
    if i < s.len() - 1 {
        assert(s.drop_last()[i] == s[i]);
        lemma_bad_digit(s.drop_last(), i, max);
    }
}

} // verus!
