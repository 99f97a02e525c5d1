//! Commands that a user types in, for experiments.

use vstd::prelude::*;
use vstd::slice::slice_subrange;
use crate::commands::{send_raw, Request, RequestModel};
use crate::gaia::{parse_hex_bytes, parse_hex_u16, GaiaError, GaiaErrorModel};
use crate::letters::{characters, trim};

verus! {

/// The number that decimal digits spell; `None` if there is anything else.
pub open spec fn decimal_digits(s: Seq<char>) -> Option<nat>
    decreases s.len(),
{
    if s.len() == 0 {
        Some(0)
    } else {
        match decimal_digits(s.drop_last()) {
            Some(n) => if '0' <= s.last() <= '9' {
                Some(10 * n + (s.last() as u32 - '0' as u32) as nat)
            } else {
                None
            },
            None => None,
        }
    }
}

/// The byte that text spells in decimal: white space around it does not count,
/// and a plus sign may come before the digits.
pub open spec fn version_number(text: Seq<char>) -> Option<u8> {
    let trimmed = crate::letters::trimmed(text);
    let digits = if trimmed.len() > 1 && trimmed[0] == '+' {
        trimmed.skip(1)
    } else {
        trimmed
    };
    match decimal_digits(digits) {
        Some(n) => if digits.len() > 0 && n <= 255 {
            Some(n as u8)
        } else {
            None
        },
        None => None,
    }
}

proof fn lemma_digits_only_grow(s: Seq<char>, i: int)
    requires
        0 <= i <= s.len(),
    ensures
        decimal_digits(s.take(i)) is None ==> decimal_digits(s) is None,
        decimal_digits(s) is Some ==> decimal_digits(s.take(i)) is Some && decimal_digits(
            s.take(i),
        )->0 <= decimal_digits(s)->0,
    decreases s.len() - i,
{
    if i == s.len() {
        assert(s.take(i) =~= s);
    } else {
        assert(s.take(i + 1).drop_last() =~= s.take(i));
        lemma_digits_only_grow(s, i + 1);
    }
}

fn parse_byte(s: &[char]) -> (r: Option<u8>)
    ensures
        r == match decimal_digits(s@) {
            Some(n) => if n <= 255 {
                Some(n as u8)
            } else {
                None
            },
            None => None,
        },
{
    let mut n: u32 = 0;
    let mut i: usize = 0;
    while i < s.len()
        invariant
            i <= s@.len(),
            n <= 255,
            decimal_digits(s@.take(i as int)) == Some(n as nat),
        decreases s@.len() - i,
    {
        assert(s@.take(i + 1).drop_last() =~= s@.take(i as int));
        proof {
            lemma_digits_only_grow(s@, i + 1);
        }
        if !('0' <= s[i] && s[i] <= '9') {
            return None;
        }
        n = 10 * n + (s[i] as u32 - '0' as u32);
        if n > 255 {
            return None;
        }
        i += 1;
    }
    assert(s@.take(i as int) =~= s@);
    Some(n as u8)
}

/// Parses a protocol version.
pub fn parse_version(text: &str) -> (r: Option<u8>)
    ensures
        r == version_number(text@),
{
    let trimmed: Vec<char> = trim(&characters(text));
    let all: &[char] = trimmed.as_slice();
    if all.len() == 0 {
        None
    } else if all.len() > 1 && all[0] == '+' {
        let rest: &[char] = slice_subrange(all, 1, all.len());
        assert(rest@ =~= all@.skip(1));
        parse_byte(rest)
    } else {
        parse_byte(all)
    }
}

/// Which part of a typed command cannot be read.
#[derive(Debug, Clone)]
pub enum RawError {
    Vendor(GaiaError),
    Command(GaiaError),
    Payload(GaiaError),
    Version,
}

/// What a [`RawError`] holds.
#[verifier::ext_equal]
pub enum RawErrorModel {
    Vendor(GaiaErrorModel),
    Command(GaiaErrorModel),
    Payload(GaiaErrorModel),
    Version,
}

impl View for RawError {
    type V = RawErrorModel;

    open spec fn view(&self) -> RawErrorModel {
        match self {
            RawError::Vendor(e) => RawErrorModel::Vendor(e@),
            RawError::Command(e) => RawErrorModel::Command(e@),
            RawError::Payload(e) => RawErrorModel::Payload(e@),
            RawError::Version => RawErrorModel::Version,
        }
    }
}

impl RawError {
    /// The text shown for this error.
    pub fn message(&self) -> (r: String)
        ensures
            r@ == match self@ {
                RawErrorModel::Vendor(e) => crate::gaia::error_text(e),
                RawErrorModel::Command(e) => crate::gaia::error_text(e),
                RawErrorModel::Payload(e) => crate::gaia::error_text(e),
                RawErrorModel::Version => "invalid version"@,
            },
    {
        match self {
            RawError::Vendor(e) => e.message(),
            RawError::Command(e) => e.message(),
            RawError::Payload(e) => e.message(),
            RawError::Version => "invalid version".to_owned(),
        }
    }
}

/// What a typed vendor ID, command ID and payload spell; the first of them that
/// cannot be read decides the error.
pub open spec fn command_result(vendor: Seq<char>, command: Seq<char>, payload: Seq<char>) -> Result<
    (u16, u16, Seq<u8>),
    RawErrorModel,
> {
    match crate::gaia::hex_u16_result(vendor) {
        Err(e) => Err(RawErrorModel::Vendor(GaiaErrorModel::InvalidHex(e))),
        Ok(vendor_id) => match crate::gaia::hex_u16_result(command) {
            Err(e) => Err(RawErrorModel::Command(GaiaErrorModel::InvalidHex(e))),
            Ok(command_id) => match crate::gaia::hex_bytes_result(payload) {
                Err(e) => Err(RawErrorModel::Payload(e)),
                Ok(bytes) => Ok((vendor_id as u16, command_id as u16, bytes)),
            },
        },
    }
}

/// Whether a typed command can be looked at: its payload matters only once both
/// IDs are read.
pub open spec fn is_readable(vendor: Seq<char>, command: Seq<char>, payload: Seq<char>) -> bool {
    crate::gaia::hex_u16_result(vendor) is Ok && crate::gaia::hex_u16_result(command) is Ok
        ==> crate::gaia::pairs_are_whole(payload)
}

/// Reads a typed vendor ID, command ID and payload.
pub fn parse_command(vendor: &str, command: &str, payload: &str) -> (r: Result<
    (u16, u16, Vec<u8>),
    RawError,
>)
    requires
        is_readable(vendor@, command@, payload@),
    ensures
        match command_result(vendor@, command@, payload@) {
            Ok((vendor_id, command_id, bytes)) => r matches Ok((v, c, p)) && v == vendor_id && c
                == command_id && p@ == bytes,
            Err(m) => r matches Err(e) && e@ == m,
        },
{
    let vendor_id: u16 = match parse_hex_u16(vendor) {
        Ok(id) => id,
        Err(e) => return Err(RawError::Vendor(e)),
    };
    let command_id: u16 = match parse_hex_u16(command) {
        Ok(id) => id,
        Err(e) => return Err(RawError::Command(e)),
    };
    match parse_hex_bytes(payload) {
        Ok(bytes) => Ok((vendor_id, command_id, bytes)),
        Err(e) => Err(RawError::Payload(e)),
    }
}

/// Reads a typed command with its protocol version.
pub fn raw_request(vendor: &str, command: &str, payload: &str, version: &str) -> (r: Result<
    Request,
    RawError,
>)
    requires
        is_readable(vendor@, command@, payload@),
    ensures
        match command_result(vendor@, command@, payload@) {
            Ok((vendor_id, command_id, bytes)) => match version_number(version@) {
                Some(v) => r matches Ok(request) && request@ == (RequestModel {
                    version: v,
                    vendor_id,
                    command_id,
                    payload: bytes,
                }),
                None => r matches Err(e) && e@ == RawErrorModel::Version,
            },
            Err(m) => r matches Err(e) && e@ == m,
        },
{
    match parse_command(vendor, command, payload) {
        Ok((vendor_id, command_id, bytes)) => match parse_version(version) {
            Some(v) => Ok(send_raw(v, vendor_id, command_id, bytes)),
            None => Err(RawError::Version),
        },
        Err(e) => Err(e),
    }
}

/// Whether text spells a 16-bit number: hexadecimal digits of either case, with
/// or without white space at the ends, the mark of a hexadecimal number and a
/// plus sign.
pub open spec fn spells_word(text: Seq<char>, w: u16) -> bool {
    exists|left: Seq<char>, mark: Seq<char>, sign: Seq<char>, body: Seq<char>, right: Seq<char>| #[trigger]
        crate::gaia::is_spelling(text, left, mark, sign, body, right) && crate::gaia::only_digits(
            body,
        ) && crate::gaia::hex_value(body) == w
}

/// Typing the hexadecimal digits of two IDs and of a payload, of either case and
/// with white space anywhere in the payload, gives that command.
pub proof fn typed_command_round_trip(
    vendor: Seq<char>,
    vendor_id: u16,
    command: Seq<char>,
    command_id: u16,
    text: Seq<char>,
    payload: Seq<u8>,
)
    requires
        spells_word(vendor, vendor_id),
        spells_word(command, command_id),
        crate::gaia::spells_bytes(crate::letters::without_white_space(text), payload),
    ensures
        is_readable(vendor, command, text),
        command_result(vendor, command, text) == Ok::<_, RawErrorModel>(
            (vendor_id, command_id, payload),
        ),
{
    lemma_word_is_read(vendor, vendor_id);
    lemma_word_is_read(command, command_id);
    crate::gaia::hex_bytes_round_trip(text, payload);
}

proof fn lemma_word_is_read(text: Seq<char>, w: u16)
    requires
        spells_word(text, w),
    ensures
        crate::gaia::hex_u16_result(text) == Ok::<nat, crate::hex::HexError>(w as nat),
{
    let (left, mark, sign, body, right) = choose|
        left: Seq<char>,
        mark: Seq<char>,
        sign: Seq<char>,
        body: Seq<char>,
        right: Seq<char>,
    | #[trigger]
        crate::gaia::is_spelling(text, left, mark, sign, body, right) && crate::gaia::only_digits(
            body,
        ) && crate::gaia::hex_value(body) == w;
    crate::gaia::hex_u16_round_trip(text, left, mark, sign, body, right);
}

proof fn lemma_decimal_digit(d: nat)
    requires
        d < 10,
    ensures
        crate::text::digit_char(d as int) == ('0' as u32 + d) as char,
        '0' <= crate::text::digit_char(d as int) <= '9',
        !crate::letters::is_white_space(crate::text::digit_char(d as int)),
{
    reveal_strlit("0123456789abcdef");
}

/// A version in decimal parses back to it.
pub proof fn version_round_trip(version: u8)
    ensures
        version_number(crate::text::decimal(version as nat)) == Some(version),
{
    let n = version as nat;
    let s = crate::text::decimal(n);
    reveal_with_fuel(crate::text::decimal, 4);
    reveal_with_fuel(decimal_digits, 4);
    lemma_decimal_digit(n % 10);
    lemma_decimal_digit((n / 10) % 10);
    lemma_decimal_digit(n / 100);
    if n < 10 {
        assert(s =~= seq![crate::text::digit_char(n as int)]);
        assert(s.drop_last() =~= Seq::<char>::empty());
    } else if n < 100 {
        let tens = seq![crate::text::digit_char((n / 10) as int)];
        assert(s =~= tens.push(crate::text::digit_char((n % 10) as int)));
        assert(s.drop_last() =~= tens);
        assert(tens.drop_last() =~= Seq::<char>::empty());
    } else {
        let hundreds = seq![crate::text::digit_char((n / 100) as int)];
        let tens = hundreds.push(crate::text::digit_char(((n / 10) % 10) as int));
        assert(s =~= tens.push(crate::text::digit_char((n % 10) as int)));
        assert(s.drop_last() =~= tens);
        assert(tens.drop_last() =~= hundreds);
        assert(hundreds.drop_last() =~= Seq::<char>::empty());
    }
    assert(crate::letters::trimmed(s) == s);
}

/// The digits of a version count ten times as much for every digit after them,
/// and a character that is no digit spoils the whole.
pub proof fn one_more_decimal_digit(s: Seq<char>, c: char, d: nat, n: nat)
    requires
        d < 10,
    ensures
        decimal_digits(s) == Some(n) && c as u32 == 0x30 + d ==> decimal_digits(s.push(c)) == Some(
            10 * n + d,
        ),
        !(0x30 <= c as u32 <= 0x39) ==> decimal_digits(s.push(c)) is None,
        decimal_digits(s) is None ==> decimal_digits(s.push(c)) is None,
        decimal_digits(Seq::empty()) == Some(0nat),
{
    assert(s.push(c).drop_last() =~= s);
    assert(s.push(c).last() == c);
}

/// A version is read whatever white space stands around it, with or without a
/// plus sign, exactly when the rest is at least one digit and nothing else, and
/// the number is at most 255.
pub proof fn versions_are_bytes(left: Seq<char>, sign: Seq<char>, body: Seq<char>, right: Seq<char>)
    requires
        crate::letters::only_white_space(left),
        crate::letters::only_white_space(right),
        sign == Seq::<char>::empty() || sign == seq!['+'],
        body.len() > 0 ==> !crate::letters::is_white_space(body[0])
            && !crate::letters::is_white_space(body.last()),
        sign.len() == 0 && body.len() > 0 ==> body[0] != '+',
    ensures
        ({
            let version = version_number(left + (sign + body) + right);
            match decimal_digits(body) {
                Some(n) => if body.len() > 0 && n <= 255 {
                    version == Some(n as u8)
                } else {
                    version is None
                },
                None => version is None,
            }
        }),
{
    let middle = sign + body;
    assert(!crate::letters::is_white_space('+'));
    if body.len() > 0 {
        assert(middle.last() == body.last());
    }
    crate::letters::white_space_is_trimmed_at_the_ends(left, middle, right);
    if sign.len() == 0 {
        assert(middle =~= body);
    } else {
        assert(middle.skip(1) =~= body);
        if body.len() == 0 {
            assert(middle =~= Seq::<char>::empty().push('+'));
            one_more_decimal_digit(Seq::empty(), '+', 0, 0);
        }
    }
}

/// The decimal digits of any number are read as that number.
pub proof fn decimals_are_read_back(n: nat)
    ensures
        decimal_digits(crate::text::decimal(n)) == Some(n),
    decreases n,
{
    crate::text::decimal_digits_spell_the_number(n);
    let s = crate::text::decimal(n);
    let before = s.take(s.len() - 1);
    let c = s[s.len() - 1];
    assert(before.push(c) =~= s);
    if n >= 10 {
        decimals_are_read_back(n / 10);
        one_more_decimal_digit(before, c, n % 10, n / 10);
    } else {
        assert(before =~= Seq::<char>::empty());
        one_more_decimal_digit(before, c, n % 10, 0);
    }
}

/// The parts of a typed command are looked at in order: a vendor ID that cannot be
/// read decides, then a command ID, then the payload, each with its own reason,
/// and what comes later makes no difference.
pub proof fn first_bad_part_decides(
    vendor: Seq<char>,
    command: Seq<char>,
    payload: Seq<char>,
    e: crate::hex::HexError,
    m: GaiaErrorModel,
)
    ensures
        ({
            let result = command_result(vendor, command, payload);
            let bad = |text: Seq<char>| crate::gaia::hex_u16_result(text) == Err::<nat, _>(e);
            let good = |text: Seq<char>| crate::gaia::hex_u16_result(text) is Ok;
            &&& bad(vendor) ==> result == Err::<(u16, u16, Seq<u8>), _>(
                RawErrorModel::Vendor(GaiaErrorModel::InvalidHex(e)),
            )
            &&& good(vendor) && bad(command) ==> result == Err::<(u16, u16, Seq<u8>), _>(
                RawErrorModel::Command(GaiaErrorModel::InvalidHex(e)),
            )
            &&& good(vendor) && good(command) && crate::gaia::hex_bytes_result(payload) == Err::<
                Seq<u8>,
                _,
            >(m) ==> result == Err::<(u16, u16, Seq<u8>), _>(RawErrorModel::Payload(m))
        }),
{
}

/// What can be read of a typed command is passed on as it is: the two IDs in
/// their places and the payload.
pub proof fn good_parts_are_passed_on(
    vendor: Seq<char>,
    command: Seq<char>,
    payload: Seq<char>,
    v: u16,
    c: u16,
    bytes: Seq<u8>,
)
    requires
        crate::gaia::hex_u16_result(vendor) == Ok::<nat, crate::hex::HexError>(v as nat),
        crate::gaia::hex_u16_result(command) == Ok::<nat, crate::hex::HexError>(c as nat),
        crate::gaia::hex_bytes_result(payload) == Ok::<Seq<u8>, GaiaErrorModel>(bytes),
    ensures
        command_result(vendor, command, payload) == Ok::<_, RawErrorModel>((v, c, bytes)),
{
}

/// The views of the errors hold the errors inside them.
pub proof fn raw_errors_are_viewed_whole(e: GaiaError)
    ensures
        RawError::Vendor(e)@ == RawErrorModel::Vendor(e@),
        RawError::Command(e)@ == RawErrorModel::Command(e@),
        RawError::Payload(e)@ == RawErrorModel::Payload(e@),
        RawError::Version@ == RawErrorModel::Version,
{
}

} // verus!
