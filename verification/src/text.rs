//! Text building: decimal and hexadecimal numbers, and lists of them.

use vstd::prelude::*;

verus! {

/// The character of a digit, `0` to `f`.
pub open spec fn digit_char(d: int) -> char {
    "0123456789abcdef"@[d]
}

/// The character of a digit, `0` to `F`.
pub open spec fn upper_digit_char(d: int) -> char {
    "0123456789ABCDEF"@[d]
}

/// A number in decimal, without leading zeros.
pub open spec fn decimal(n: nat) -> Seq<char>
    decreases n,
{
    if n < 10 {
        seq![digit_char(n as int)]
    } else {
        decimal(n / 10).push(digit_char((n % 10) as int))
    }
}

/// A number in decimal with a leading minus sign when it is negative.
pub open spec fn signed_decimal(n: int) -> Seq<char> {
    if n < 0 {
        "-"@ + decimal((-n) as nat)
    } else {
        decimal(n as nat)
    }
}

/// A byte as two lower-case hexadecimal digits.
pub open spec fn hex_byte(b: u8) -> Seq<char> {
    seq![digit_char(b as int / 16), digit_char(b as int % 16)]
}

/// A byte as two upper-case hexadecimal digits.
pub open spec fn upper_hex_byte(b: u8) -> Seq<char> {
    seq![upper_digit_char(b as int / 16), upper_digit_char(b as int % 16)]
}

/// A 16-bit number as four lower-case hexadecimal digits.
pub open spec fn hex_word(w: u16) -> Seq<char> {
    hex_byte((w as int / 256) as u8) + hex_byte((w as int % 256) as u8)
}

/// The parts one after the other, with `separator` between neighbours.
pub open spec fn joined(parts: Seq<Seq<char>>, separator: Seq<char>) -> Seq<char>
    decreases parts.len(),
{
    if parts.len() == 0 {
        Seq::empty()
    } else if parts.len() == 1 {
        parts[0]
    } else {
        joined(parts.drop_last(), separator) + separator + parts.last()
    }
}

/// A list of bytes in hexadecimal, such as `[14, 0f]`.
pub open spec fn hex_list(bytes: Seq<u8>) -> Seq<char> {
    "["@ + joined(bytes.map_values(|b: u8| hex_byte(b)), ", "@) + "]"@
}

/// Bytes in upper-case hexadecimal with colons between them, such as
/// `00:1B:DC`.
pub open spec fn colon_hex(bytes: Seq<u8>) -> Seq<char> {
    joined(bytes.map_values(|b: u8| upper_hex_byte(b)), ":"@)
}

/// A list of signed numbers in decimal, such as `[0, -20]`.
pub open spec fn signed_list(values: Seq<i8>) -> Seq<char> {
    "["@ + joined(values.map_values(|v: i8| signed_decimal(v as int)), ", "@) + "]"@
}

/// The contents of a list of texts.
pub open spec fn texts(list: Seq<String>) -> Seq<Seq<char>> {
    list.map_values(|s: String| s@)
}

/// The lower-case digit of a number below 16.
pub fn digit_text(d: u8) -> (r: &'static str)
    requires
        d < 16,
    ensures
        r@ == seq![digit_char(d as int)],
{
    proof {
        reveal_strlit("0123456789abcdef");
        reveal_strlit("0");
        reveal_strlit("1");
        reveal_strlit("2");
        reveal_strlit("3");
        reveal_strlit("4");
        reveal_strlit("5");
        reveal_strlit("6");
        reveal_strlit("7");
        reveal_strlit("8");
        reveal_strlit("9");
        reveal_strlit("a");
        reveal_strlit("b");
        reveal_strlit("c");
        reveal_strlit("d");
        reveal_strlit("e");
        reveal_strlit("f");
    }
    match d {
        0 => "0",
        1 => "1",
        2 => "2",
        3 => "3",
        4 => "4",
        5 => "5",
        6 => "6",
        7 => "7",
        8 => "8",
        9 => "9",
        10 => "a",
        11 => "b",
        12 => "c",
        13 => "d",
        14 => "e",
        _ => "f",
    }
}

/// The upper-case digit of a number below 16.
pub fn upper_digit_text(d: u8) -> (r: &'static str)
    requires
        d < 16,
    ensures
        r@ == seq![upper_digit_char(d as int)],
{
    proof {
        reveal_strlit("0123456789abcdef");
        reveal_strlit("0123456789ABCDEF");
        reveal_strlit("A");
        reveal_strlit("B");
        reveal_strlit("C");
        reveal_strlit("D");
        reveal_strlit("E");
        reveal_strlit("F");
    }
    match d {
        10 => "A",
        11 => "B",
        12 => "C",
        13 => "D",
        14 => "E",
        15 => "F",
        _ => digit_text(d),
    }
}

/// Appends a number in decimal.
pub fn push_decimal(out: &mut String, n: u64)
    ensures
        final(out)@ == old(out)@ + decimal(n as nat),
    decreases n,
{
    if n >= 10 {
        push_decimal(out, n / 10);
    }
    let digit: u8 = (n % 10) as u8;
    out.append(digit_text(digit));
    assert(out@ =~= old(out)@ + decimal(n as nat));
}

/// Appends a signed number in decimal.
pub fn push_signed(out: &mut String, n: i8)
    ensures
        final(out)@ == old(out)@ + signed_decimal(n as int),
{
    if n < 0 {
        out.append("-");
        let magnitude: i16 = -(n as i16);
        push_decimal(out, magnitude as u64);
        assert(out@ =~= old(out)@ + signed_decimal(n as int));
    } else {
        push_decimal(out, n as u64);
    }
}

/// Appends a byte as two lower-case hexadecimal digits.
pub fn push_hex_byte(out: &mut String, b: u8)
    ensures
        final(out)@ == old(out)@ + hex_byte(b),
{
    out.append(digit_text(b / 16));
    out.append(digit_text(b % 16));
    assert(out@ =~= old(out)@ + hex_byte(b));
}

/// Appends a byte as two upper-case hexadecimal digits.
pub fn push_upper_hex_byte(out: &mut String, b: u8)
    ensures
        final(out)@ == old(out)@ + upper_hex_byte(b),
{
    out.append(upper_digit_text(b / 16));
    out.append(upper_digit_text(b % 16));
    assert(out@ =~= old(out)@ + upper_hex_byte(b));
}

/// Appends a 16-bit number as four lower-case hexadecimal digits.
pub fn push_hex_word(out: &mut String, w: u16)
    ensures
        final(out)@ == old(out)@ + hex_word(w),
{
    push_hex_byte(out, (w / 256) as u8);
    push_hex_byte(out, (w % 256) as u8);
    assert(out@ =~= old(out)@ + hex_word(w));
}

/// Appends a list of bytes in hexadecimal.
pub fn push_hex_list(out: &mut String, bytes: &[u8])
    ensures
        final(out)@ == old(out)@ + hex_list(bytes@),
{
    let ghost parts = bytes@.map_values(|b: u8| hex_byte(b));
    let ghost start = out@;
    out.append("[");
    let mut i: usize = 0;
    assert(joined(parts.take(0), ", "@) =~= Seq::<char>::empty());
    assert(out@ =~= start + "["@ + joined(parts.take(0), ", "@));
    while i < bytes.len()
        invariant
            i <= bytes@.len(),
            parts == bytes@.map_values(|b: u8| hex_byte(b)),
            out@ == start + "["@ + joined(parts.take(i as int), ", "@),
        decreases bytes@.len() - i,
    {
        assert(parts.take(i + 1).drop_last() =~= parts.take(i as int));
        assert(parts.take(i + 1).last() == hex_byte(bytes@[i as int]));
        if i > 0 {
            out.append(", ");
        }
        push_hex_byte(out, bytes[i]);
        assert(out@ =~= start + "["@ + joined(parts.take(i + 1), ", "@));
        i += 1;
    }
    assert(parts.take(i as int) =~= parts);
    out.append("]");
    assert(out@ =~= start + hex_list(bytes@));
}

/// Appends bytes in upper-case hexadecimal with colons between them.
pub fn push_colon_hex(out: &mut String, bytes: &[u8])
    ensures
        final(out)@ == old(out)@ + colon_hex(bytes@),
{
    let ghost start = out@;
    let ghost parts = bytes@.map_values(|b: u8| upper_hex_byte(b));
    let mut i: usize = 0;
    assert(out@ =~= start + joined(parts.take(0), ":"@));
    while i < bytes.len()
        invariant
            i <= bytes@.len(),
            parts == bytes@.map_values(|b: u8| upper_hex_byte(b)),
            out@ == start + joined(parts.take(i as int), ":"@),
        decreases bytes@.len() - i,
    {
        assert(parts.take(i + 1).drop_last() =~= parts.take(i as int));
        if i > 0 {
            out.append(":");
        }
        push_upper_hex_byte(out, bytes[i]);
        assert(out@ =~= start + joined(parts.take(i + 1), ":"@));
        i += 1;
    }
    assert(parts.take(i as int) =~= parts);
}

/// Appends a list of signed numbers in decimal.
pub fn push_signed_list(out: &mut String, values: &[i8])
    ensures
        final(out)@ == old(out)@ + signed_list(values@),
{
    let ghost parts = values@.map_values(|v: i8| signed_decimal(v as int));
    let ghost start = out@;
    out.append("[");
    let mut i: usize = 0;
    assert(joined(parts.take(0), ", "@) =~= Seq::<char>::empty());
    assert(out@ =~= start + "["@ + joined(parts.take(0), ", "@));
    while i < values.len()
        invariant
            i <= values@.len(),
            parts == values@.map_values(|v: i8| signed_decimal(v as int)),
            out@ == start + "["@ + joined(parts.take(i as int), ", "@),
        decreases values@.len() - i,
    {
        assert(parts.take(i + 1).drop_last() =~= parts.take(i as int));
        assert(parts.take(i + 1).last() == signed_decimal(values@[i as int] as int));
        if i > 0 {
            out.append(", ");
        }
        push_signed(out, values[i]);
        assert(out@ =~= start + "["@ + joined(parts.take(i + 1), ", "@));
        i += 1;
    }
    assert(parts.take(i as int) =~= parts);
    out.append("]");
    assert(out@ =~= start + signed_list(values@));
}

/// Joins texts with a separator between neighbours.
pub fn join(parts: &Vec<String>, separator: &str) -> (r: String)
    ensures
        r@ == joined(texts(parts@), separator@),
{
    let ghost all = texts(parts@);
    let mut out: String = String::new();
    let mut i: usize = 0;
    assert(joined(all.take(0), separator@) =~= Seq::<char>::empty());
    while i < parts.len()
        invariant
            i <= parts@.len(),
            all == texts(parts@),
            out@ == joined(all.take(i as int), separator@),
        decreases parts@.len() - i,
    {
        assert(all.take(i + 1).drop_last() =~= all.take(i as int));
        assert(all.take(i + 1).last() == parts@[i as int]@);
        if i > 0 {
            out.append(separator);
        }
        out.append(parts[i].as_str());
        assert(out@ =~= joined(all.take(i + 1), separator@));
        i += 1;
    }
    assert(all.take(i as int) =~= all);
    out
}

/// Whether two texts are the same.
pub fn same_text(a: &str, b: &str) -> (r: bool)
    ensures
        r == (a@ == b@),
{
    a.to_owned() == b.to_owned()
}

proof fn lemma_digit_value(d: int)
    requires
        0 <= d < 16,
    ensures
        crate::hex::digit_value(digit_char(d)) == Some(d as nat),
        crate::hex::digit_value(upper_digit_char(d)) == Some(d as nat),
        d < 10 ==> digit_char(d) as u32 == 0x30 + d,
        d >= 10 ==> digit_char(d) as u32 == 0x61 + d - 10,
        d < 10 ==> upper_digit_char(d) as u32 == 0x30 + d,
        d >= 10 ==> upper_digit_char(d) as u32 == 0x41 + d - 10,
{
    reveal_strlit("0123456789abcdef");
    reveal_strlit("0123456789ABCDEF");
}

/// A byte is shown as two hexadecimal digits that spell it, the high one first,
/// in the case that is asked for.
pub proof fn byte_digits_spell_the_byte(b: u8)
    ensures
        ({
            let low = hex_byte(b);
            let high = upper_hex_byte(b);
            &&& low.len() == 2 && high.len() == 2
            &&& crate::hex::digit_value(low[0]) == Some((b / 16) as nat)
            &&& crate::hex::digit_value(low[1]) == Some((b % 16) as nat)
            &&& crate::hex::digit_value(high[0]) == Some((b / 16) as nat)
            &&& crate::hex::digit_value(high[1]) == Some((b % 16) as nat)
            &&& forall|i: int|
                0 <= i < 2 ==> !(0x41 <= (#[trigger] low[i]) as u32 <= 0x46) && !(0x61
                    <= high[i] as u32 <= 0x66)
        }),
{
    lemma_digit_value(b as int / 16);
    lemma_digit_value(b as int % 16);
}

/// A 16-bit number is shown as four hexadecimal digits that spell it.
pub proof fn word_digits_spell_the_word(w: u16)
    ensures
        ({
            let s = hex_word(w);
            &&& s.len() == 4
            &&& crate::hex::digit_value(s[0]) == Some((w as int / 4096) as nat)
            &&& crate::hex::digit_value(s[1]) == Some((w as int / 256 % 16) as nat)
            &&& crate::hex::digit_value(s[2]) == Some((w as int / 16 % 16) as nat)
            &&& crate::hex::digit_value(s[3]) == Some((w as int % 16) as nat)
            &&& crate::hex::number(s, 0xFFFF) == Ok::<nat, crate::hex::HexError>(w as nat)
            &&& forall|i: int| 0 <= i < 4 ==> !(0x41 <= (#[trigger] s[i]) as u32 <= 0x46)
        }),
{
    let s = hex_word(w);
    let high = w as int / 256;
    let low = w as int % 256;
    lemma_digit_value(high / 16);
    lemma_digit_value(high % 16);
    lemma_digit_value(low / 16);
    lemma_digit_value(low % 16);
    assert(high * 256 + low == w);
    let s3 = s.drop_last();
    let s2 = s3.drop_last();
    let s1 = s2.drop_last();
    assert(s1.drop_last() =~= Seq::<char>::empty());
    assert(crate::hex::digits(s1.drop_last(), 0xFFFF) == Ok::<nat, crate::hex::HexError>(0));
    assert(crate::hex::digits(s1, 0xFFFF) == Ok::<nat, crate::hex::HexError>((high / 16) as nat));
    assert(crate::hex::digits(s2, 0xFFFF) == Ok::<nat, crate::hex::HexError>(high as nat));
    assert(crate::hex::digits(s3, 0xFFFF) == Ok::<nat, crate::hex::HexError>(
        (high * 16 + low / 16) as nat,
    ));
    assert(crate::hex::digits(s, 0xFFFF) == Ok::<nat, crate::hex::HexError>(w as nat));
    assert(crate::hex::digit_value('+') is None);
}

/// A number in decimal is digits only, without a leading zero, and its digits
/// are those of the number.
pub proof fn decimal_digits_spell_the_number(n: nat)
    ensures
        ({
            let s = decimal(n);
            &&& s.len() > 0
            &&& forall|i: int| 0 <= i < s.len() ==> 0x30 <= (#[trigger] s[i]) as u32 <= 0x39
            &&& s[s.len() - 1] as u32 == 0x30 + n % 10
            &&& s.len() > 1 <==> n >= 10
            &&& n >= 10 ==> s[0] as u32 != 0x30 && s.take(s.len() - 1) == decimal(n / 10)
        }),
    decreases n,
{
    lemma_digit_value((n % 10) as int);
    if n < 10 {
        lemma_digit_value(n as int);
    } else {
        let before = decimal(n / 10);
        let s = decimal(n);
        decimal_digits_spell_the_number(n / 10);
        assert(s.take(s.len() - 1) =~= before);
        assert(forall|i: int| 0 <= i < before.len() ==> s[i] == before[i]);
        if n / 10 < 10 {
            assert(before[before.len() - 1] as u32 == 0x30 + (n / 10) % 10);
        }
    }
}

/// Two numbers that are shown alike are the same number.
pub proof fn decimals_are_unambiguous(a: nat, b: nat)
    requires
        decimal(a) == decimal(b),
    ensures
        a == b,
    decreases a,
{
    decimal_digits_spell_the_number(a);
    decimal_digits_spell_the_number(b);
    if a >= 10 {
        decimals_are_unambiguous(a / 10, b / 10);
    }
}

/// A negative number is shown as its size after a minus sign, any other as it
/// is.
pub proof fn signed_decimal_shows_the_sign(n: nat)
    ensures
        signed_decimal(n as int) == decimal(n),
        n > 0 ==> signed_decimal(-(n as int)) == seq!['-'] + decimal(n),
{
    reveal_strlit("-");
    assert("-"@ =~= seq!['-']);
}

/// Joining two runs of parts, one after the other, is joining each and putting
/// the separator between them; a single part stays as it is, and none give
/// nothing.
pub proof fn joining_goes_part_by_part(
    a: Seq<Seq<char>>,
    b: Seq<Seq<char>>,
    part: Seq<char>,
    separator: Seq<char>,
)
    ensures
        joined(Seq::empty(), separator) == Seq::<char>::empty(),
        joined(seq![part], separator) == part,
        a.len() > 0 && b.len() > 0 ==> joined(a + b, separator) == joined(a, separator) + separator
            + joined(b, separator),
    decreases b.len(),
{
    if a.len() > 0 && b.len() > 0 {
        let all = a + b;
        let before = b.drop_last();
        assert(all.drop_last() =~= a + before);
        assert(all.last() == b.last());
        if b.len() == 1 {
            assert(a + before =~= a);
            assert(b =~= seq![b[0]]);
        } else {
            joining_goes_part_by_part(a, before, part, separator);
            assert(joined(all, separator) =~= joined(a, separator) + separator + joined(
                b,
                separator,
            ));
        }
    }
}

/// A list of bytes stands in square brackets, each byte as two digits, with a
/// comma and a space between neighbours.
pub proof fn byte_lists_show_every_byte(a: Seq<u8>, b: Seq<u8>, byte: u8, inner: Seq<char>, more: Seq<char>)
    ensures
        hex_list(Seq::empty()) == seq!['[', ']'],
        hex_list(seq![byte]) == seq!['['] + hex_byte(byte) + seq![']'],
        a.len() > 0 && b.len() > 0 && hex_list(a) == seq!['['] + inner + seq![']'] && hex_list(b)
            == seq!['['] + more + seq![']'] ==> hex_list(a + b) == seq!['['] + inner + seq![
            ',',
            ' ',
        ] + more + seq![']'],
{
    reveal_strlit("[");
    reveal_strlit("]");
    reveal_strlit(", ");
    assert("["@ =~= seq!['[']);
    assert("]"@ =~= seq![']']);
    assert(", "@ =~= seq![',', ' ']);
    let f = |b: u8| hex_byte(b);
    assert(Seq::<u8>::empty().map_values(f) =~= Seq::<Seq<char>>::empty());
    assert(hex_list(Seq::empty()) =~= seq!['[', ']']);
    assert(seq![byte].map_values(f) =~= seq![hex_byte(byte)]);
    let pa = a.map_values(f);
    let pb = b.map_values(f);
    assert((a + b).map_values(f) =~= pa + pb);
    joining_goes_part_by_part(pa, pb, Seq::empty(), ", "@);
    if hex_list(a) == seq!['['] + inner + seq![']'] && hex_list(b) == seq!['['] + more + seq![
        ']',
    ] {
        lemma_same_inner(joined(pa, ", "@), inner);
        lemma_same_inner(joined(pb, ", "@), more);
    }
    if a.len() > 0 && b.len() > 0 {
        assert(seq!['['] + (joined(pa, ", "@) + ", "@ + joined(pb, ", "@)) + seq![']']
            =~= seq!['['] + joined(pa, ", "@) + ", "@ + joined(pb, ", "@) + seq![']']);
    }
}

proof fn lemma_same_inner(x: Seq<char>, y: Seq<char>)
    ensures
        seq!['['] + x + seq![']'] == seq!['['] + y + seq![']'] ==> x == y,
{
    let p = seq!['['] + x + seq![']'];
    let q = seq!['['] + y + seq![']'];
    if p == q {
        assert(p.subrange(1, p.len() - 1) =~= x);
        assert(q.subrange(1, q.len() - 1) =~= y);
    }
}

/// A list of signed numbers stands in square brackets, each in decimal, with a
/// comma and a space between neighbours.
pub proof fn number_lists_show_every_number(a: Seq<i8>, b: Seq<i8>, n: i8, inner: Seq<char>, more: Seq<char>)
    ensures
        signed_list(Seq::empty()) == seq!['[', ']'],
        signed_list(seq![n]) == seq!['['] + signed_decimal(n as int) + seq![']'],
        a.len() > 0 && b.len() > 0 && signed_list(a) == seq!['['] + inner + seq![']']
            && signed_list(b) == seq!['['] + more + seq![']'] ==> signed_list(a + b) == seq!['[']
            + inner + seq![',', ' '] + more + seq![']'],
{
    reveal_strlit("[");
    reveal_strlit("]");
    reveal_strlit(", ");
    assert("["@ =~= seq!['[']);
    assert("]"@ =~= seq![']']);
    assert(", "@ =~= seq![',', ' ']);
    let f = |v: i8| signed_decimal(v as int);
    assert(Seq::<i8>::empty().map_values(f) =~= Seq::<Seq<char>>::empty());
    assert(signed_list(Seq::empty()) =~= seq!['[', ']']);
    assert(seq![n].map_values(f) =~= seq![signed_decimal(n as int)]);
    let pa = a.map_values(f);
    let pb = b.map_values(f);
    assert((a + b).map_values(f) =~= pa + pb);
    joining_goes_part_by_part(pa, pb, Seq::empty(), ", "@);
    if signed_list(a) == seq!['['] + inner + seq![']'] && signed_list(b) == seq!['['] + more
        + seq![']'] {
        lemma_same_inner(joined(pa, ", "@), inner);
        lemma_same_inner(joined(pb, ", "@), more);
    }
    if a.len() > 0 && b.len() > 0 {
        assert(seq!['['] + (joined(pa, ", "@) + ", "@ + joined(pb, ", "@)) + seq![']']
            =~= seq!['['] + joined(pa, ", "@) + ", "@ + joined(pb, ", "@) + seq![']']);
    }
}

/// An address is its bytes, each as two digits, with colons between them: three
/// characters for each byte but the last.
pub proof fn colon_hex_shows_every_byte(bytes: Seq<u8>, i: int)
    requires
        0 <= i < bytes.len(),
    ensures
        ({
            let s = colon_hex(bytes);
            &&& s.len() == 3 * bytes.len() - 1
            &&& s.subrange(3 * i, 3 * i + 2) == upper_hex_byte(bytes[i])
            &&& i + 1 < bytes.len() ==> s[3 * i + 2] == ':'
        }),
    decreases bytes.len(),
{
    reveal_strlit(":");
    assert(":"@ =~= seq![':']);
    let f = |b: u8| upper_hex_byte(b);
    let s = colon_hex(bytes);
    if bytes.len() == 1 {
        assert(bytes.map_values(f) =~= seq![upper_hex_byte(bytes[0])]);
        assert(s.subrange(0, 2) =~= s);
    } else {
        let before = bytes.drop_last();
        let last = upper_hex_byte(bytes.last());
        assert(bytes.map_values(f).drop_last() =~= before.map_values(f));
        assert(s == colon_hex(before) + ":"@ + last);
        if i < before.len() {
            colon_hex_shows_every_byte(before, i);
            assert(s.subrange(3 * i, 3 * i + 2) =~= colon_hex(before).subrange(3 * i, 3 * i + 2));
        } else {
            colon_hex_shows_every_byte(before, 0);
            assert(s.subrange(3 * i, 3 * i + 2) =~= last);
        }
    }
}

/// A list of texts is taken text by text.
pub proof fn texts_are_the_texts(list: Seq<String>, i: int)
    requires
        0 <= i < list.len(),
    ensures
        texts(list).len() == list.len(),
        texts(list)[i] == list[i]@,
{
}

} // verus!
