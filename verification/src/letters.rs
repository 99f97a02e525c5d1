//! Reading text character by character: white space, trimming, prefixes,
//! substrings, letter case and encoded length.

use vstd::prelude::*;
use vstd::slice::{slice_subrange, slice_to_vec};

verus! {

/// Whether a character has the Unicode `White_Space` property.
pub open spec fn is_white_space(c: char) -> bool {
    let v = c as u32;
    ||| 0x09 <= v <= 0x0d
    ||| v == 0x20
    ||| v == 0x85
    ||| v == 0xa0
    ||| v == 0x1680
    ||| 0x2000 <= v <= 0x200a
    ||| v == 0x2028
    ||| v == 0x2029
    ||| v == 0x202f
    ||| v == 0x205f
    ||| v == 0x3000
}

/// The text without its leading white space.
pub open spec fn trimmed_start(s: Seq<char>) -> Seq<char>
    decreases s.len(),
{
    if s.len() > 0 && is_white_space(s[0]) {
        trimmed_start(s.skip(1))
    } else {
        s
    }
}

/// The text without its trailing white space.
pub open spec fn trimmed_end(s: Seq<char>) -> Seq<char>
    decreases s.len(),
{
    if s.len() > 0 && is_white_space(s.last()) {
        trimmed_end(s.drop_last())
    } else {
        s
    }
}

/// The text without white space at either end.
pub open spec fn trimmed(s: Seq<char>) -> Seq<char> {
    trimmed_end(trimmed_start(s))
}

/// The text with the two-character `prefix` taken off as often as it leads.
pub open spec fn without_prefixes(s: Seq<char>, first: char, second: char) -> Seq<char>
    decreases s.len(),
{
    if s.len() >= 2 && s[0] == first && s[1] == second {
        without_prefixes(s.skip(2), first, second)
    } else {
        s
    }
}

/// The characters that are not white space, in order.
pub open spec fn without_white_space(s: Seq<char>) -> Seq<char> {
    s.filter(|c: char| !is_white_space(c))
}

/// Whether `part` occurs in `whole` as a run of neighbouring characters.
pub open spec fn has_part(whole: Seq<char>, part: Seq<char>) -> bool {
    exists|i: int|
        0 <= i <= whole.len() - part.len() && #[trigger] whole.subrange(i, i + part.len()) == part
}

/// How many bytes a character takes in UTF-8.
pub open spec fn utf8_width(c: char) -> nat {
    let v = c as u32;
    if v < 0x80 {
        1
    } else if v < 0x800 {
        2
    } else if v < 0x10000 {
        3
    } else {
        4
    }
}

/// How many bytes a text takes in UTF-8.
pub open spec fn utf8_len(s: Seq<char>) -> nat
    decreases s.len(),
{
    if s.len() == 0 {
        0
    } else {
        utf8_len(s.drop_last()) + utf8_width(s.last())
    }
}

/// Whether all characters are ASCII.
pub open spec fn is_ascii_text(s: Seq<char>) -> bool {
    forall|i: int| 0 <= i < s.len() ==> (#[trigger] s[i] as u32) < 0x80
}

/// An ASCII text with `A` to `Z` replaced by `a` to `z`.
pub open spec fn ascii_lowercase(s: Seq<char>) -> Seq<char> {
    s.map_values(
        |c: char|
            if 0x41 <= c as u32 <= 0x5a {
                (c as u32 + 0x20) as char
            } else {
                c
            },
    )
}

/// The lower-case form of a text.
pub uninterp spec fn lowercase(text: Seq<char>) -> Seq<char>;

/// Calls `str::to_lowercase`. The result depends on the text alone and is
/// named by [`lowercase`]. On ASCII text it maps `A` to `Z` to `a` to `z` and
/// keeps every other character; beyond ASCII, which letters it maps to which is
/// left to the Unicode tables of the standard library.
#[verifier::external_body]
pub(crate) fn to_lowercase(text: &str) -> (r: String)
    ensures
        r@ == lowercase(text@),
        is_ascii_text(text@) ==> r@ == ascii_lowercase(text@),
{
    text.to_lowercase()
}

/// A text in lower case, spelt out for ASCII text.
pub open spec fn lowered(text: Seq<char>) -> Seq<char> {
    if is_ascii_text(text) {
        ascii_lowercase(text)
    } else {
        lowercase(text)
    }
}

/// Whether `name` contains `part` once both are in lower case.
pub open spec fn has_part_ignoring_case(name: Seq<char>, part: Seq<char>) -> bool {
    has_part(lowered(name), lowered(part))
}

/// Tells whether a character is white space.
pub fn white_space(c: char) -> (r: bool)
    ensures
        r == is_white_space(c),
{
    let v: u32 = c as u32;
    (0x09 <= v && v <= 0x0d) || v == 0x20 || v == 0x85 || v == 0xa0 || v == 0x1680 || (0x2000 <= v
        && v <= 0x200a) || v == 0x2028 || v == 0x2029 || v == 0x202f || v == 0x205f || v == 0x3000
}

/// The characters of a text.
pub fn characters(s: &str) -> (r: Vec<char>)
    ensures
        r@ == s@,
{
    let mut out: Vec<char> = Vec::new();
    for c in it: s.chars()
        invariant
            out@ == it.seq().take(it.index()),
            it.seq() == s@,
    {
        out.push(c);
        assert(it.seq().take(it.index() + 1) =~= it.seq().take(it.index()).push(c));
    }
    assert(s@.take(s@.len() as int) =~= s@);
    out
}

/// Takes the white space off both ends.
pub fn trim(s: &Vec<char>) -> (r: Vec<char>)
    ensures
        r@ == trimmed(s@),
{
    let mut low: usize = 0;
    assert(s@.skip(0) =~= s@);
    while low < s.len() && white_space(s[low])
        invariant
            low <= s@.len(),
            trimmed_start(s@) == trimmed_start(s@.skip(low as int)),
        decreases s@.len() - low,
    {
        assert(s@.skip(low as int).skip(1) =~= s@.skip(low + 1));
        low += 1;
    }
    assert(trimmed_start(s@) == s@.skip(low as int));
    let ghost kept = s@.skip(low as int);
    let mut high: usize = s.len();
    assert(s@.subrange(low as int, high as int) =~= kept);
    while low < high && white_space(s[high - 1])
        invariant
            low <= high <= s@.len(),
            trimmed_end(kept) == trimmed_end(s@.subrange(low as int, high as int)),
        decreases high - low,
    {
        assert(s@.subrange(low as int, high as int).drop_last() =~= s@.subrange(
            low as int,
            high - 1,
        ));
        high -= 1;
    }
    slice_to_vec(slice_subrange(s.as_slice(), low, high))
}

/// Takes a two-character prefix off as often as it leads.
pub fn strip_prefixes(s: &Vec<char>, first: char, second: char) -> (r: Vec<char>)
    ensures
        r@ == without_prefixes(s@, first, second),
{
    let mut low: usize = 0;
    assert(s@.skip(0) =~= s@);
    while s.len() - low >= 2 && s[low] == first && s[low + 1] == second
        invariant
            low <= s@.len(),
            without_prefixes(s@, first, second) == without_prefixes(
                s@.skip(low as int),
                first,
                second,
            ),
        decreases s@.len() - low,
    {
        assert(s@.skip(low as int).skip(2) =~= s@.skip(low + 2));
        low += 2;
    }
    assert(s@.subrange(low as int, s@.len() as int) =~= s@.skip(low as int));
    slice_to_vec(slice_subrange(s.as_slice(), low, s.len()))
}

/// Drops every white-space character.
pub fn remove_white_space(s: &Vec<char>) -> (r: Vec<char>)
    ensures
        r@ == without_white_space(s@),
{
    let ghost keep = |c: char| !is_white_space(c);
    let mut out: Vec<char> = Vec::new();
    let mut i: usize = 0;
    reveal(Seq::filter);
    while i < s.len()
        invariant
            i <= s@.len(),
            keep == (|c: char| !is_white_space(c)),
            out@ == s@.take(i as int).filter(keep),
        decreases s@.len() - i,
    {
        reveal(Seq::filter);
        assert(s@.take(i + 1).drop_last() =~= s@.take(i as int));
        if !white_space(s[i]) {
            out.push(s[i]);
        }
        i += 1;
    }
    assert(s@.take(i as int) =~= s@);
    out
}

/// Tells whether `part` occurs in `whole`.
pub fn contains(whole: &str, part: &str) -> (r: bool)
    ensures
        r == has_part(whole@, part@),
{
    let hay: Vec<char> = characters(whole);
    let needle: Vec<char> = characters(part);
    if hay.len() < needle.len() {
        return false;
    }
    let last: usize = hay.len() - needle.len();
    let mut i: usize = 0;
    while i <= last
        invariant
            hay@ == whole@,
            needle@ == part@,
            last == hay.len() - needle.len(),
            i <= last + 1,
            forall|k: int|
                0 <= k < i ==> #[trigger] whole@.subrange(k, k + part@.len()) != part@,
        decreases last + 1 - i,
    {
        let mut j: usize = 0;
        while j < needle.len() && hay[i + j] == needle[j]
            invariant
                hay@ == whole@,
                needle@ == part@,
                last == hay.len() - needle.len(),
                i <= last,
                j <= needle@.len(),
                forall|k: int| 0 <= k < j ==> hay@[i + k] == #[trigger] needle@[k],
            decreases needle@.len() - j,
        {
            j += 1;
        }
        if j == needle.len() {
            assert(whole@.subrange(i as int, i + part@.len()) =~= part@);
            return true;
        }
        assert(whole@.subrange(i as int, i + part@.len())[j as int] != part@[j as int]);
        if i == last {
            return false;
        }
        i += 1;
    }
    false
}

/// Tells whether `name` contains `part`, both taken in lower case.
pub fn contains_ignoring_case(name: &str, part: &str) -> (r: bool)
    ensures
        r == has_part_ignoring_case(name@, part@),
{
    contains(to_lowercase(name).as_str(), to_lowercase(part).as_str())
}

/// The UTF-8 width of a character.
pub fn width(c: char) -> (r: usize)
    ensures
        r == utf8_width(c),
{
    let v: u32 = c as u32;
    if v < 0x80 {
        1
    } else if v < 0x800 {
        2
    } else if v < 0x10000 {
        3
    } else {
        4
    }
}

/// Tells whether the UTF-8 length of a text is even.
pub fn even_utf8_len(s: &Vec<char>) -> (r: bool)
    ensures
        r == (utf8_len(s@) % 2 == 0),
{
    let mut even: bool = true;
    let mut i: usize = 0;
    while i < s.len()
        invariant
            i <= s@.len(),
            even == (utf8_len(s@.take(i as int)) % 2 == 0),
        decreases s@.len() - i,
    {
        assert(s@.take(i + 1).drop_last() =~= s@.take(i as int));
        if width(s[i]) % 2 != 0 {
            even = !even;
        }
        i += 1;
    }
    assert(s@.take(i as int) =~= s@);
    even
}

pub proof fn lemma_utf8_len_first(s: Seq<char>)
    requires
        s.len() > 0,
    ensures
        utf8_len(s) == utf8_width(s[0]) + utf8_len(s.drop_first()),
    decreases s.len(),
{
    if s.len() == 1 {
        assert(s.drop_last() =~= Seq::<char>::empty());
        assert(s.drop_first() =~= Seq::<char>::empty());
    } else {
        lemma_utf8_len_first(s.drop_last());
        assert(s.drop_last().drop_first() =~= s.drop_first().drop_last());
    }
}

/// The UTF-8 length of a text is the length of its encoding.
pub proof fn utf8_len_is_encoded_length(s: Seq<char>)
    ensures
        utf8_len(s) == vstd::utf8::encode_utf8(s).len(),
    decreases s.len(),
{
    if s.len() > 0 {
        lemma_utf8_len_first(s);
        utf8_len_is_encoded_length(s.drop_first());
        vstd::utf8::char_is_scalar(s[0]);
        assert(vstd::utf8::encode_scalar(s[0] as u32).len() == utf8_width(s[0]));
    }
}

/// A text contains each of its own parts, the empty text and itself.
pub proof fn text_has_its_parts(s: Seq<char>, low: int, high: int)
    requires
        0 <= low <= high <= s.len(),
    ensures
        has_part(s, s.subrange(low, high)),
        has_part(s, Seq::empty()),
        has_part(s, s),
{
    let part = s.subrange(low, high);
    assert(s.subrange(low, low + part.len()) == part);
    let none = Seq::<char>::empty();
    assert(s.subrange(0int, 0int + none.len()) =~= none);
    assert(s.subrange(0int, 0int + s.len()) =~= s);
}

/// Whether all characters are white space.
pub open spec fn only_white_space(s: Seq<char>) -> bool {
    forall|i: int| 0 <= i < s.len() ==> crate::letters::is_white_space(#[trigger] s[i])
}

proof fn lemma_start_trimmed(left: Seq<char>, rest: Seq<char>)
    requires
        only_white_space(left),
        rest.len() > 0 ==> !is_white_space(rest[0]),
    ensures
        trimmed_start(left + rest) == rest,
    decreases left.len(),
{
    if left.len() > 0 {
        assert((left + rest)[0] == left[0]);
        assert((left + rest).skip(1) =~= left.skip(1) + rest);
        assert(forall|i: int| 0 <= i < left.skip(1).len() ==> left.skip(1)[i] == left[i + 1]);
        lemma_start_trimmed(left.skip(1), rest);
    } else {
        assert(left + rest =~= rest);
    }
}

proof fn lemma_end_trimmed(rest: Seq<char>, right: Seq<char>)
    requires
        only_white_space(right),
        rest.len() > 0 ==> !is_white_space(rest.last()),
    ensures
        trimmed_end(rest + right) == rest,
    decreases right.len(),
{
    if right.len() > 0 {
        assert((rest + right).last() == right.last());
        assert(right.last() == right[right.len() - 1]);
        assert((rest + right).drop_last() =~= rest + right.drop_last());
        assert(forall|i: int|
            0 <= i < right.drop_last().len() ==> right.drop_last()[i] == right[i]);
        lemma_end_trimmed(rest, right.drop_last());
    } else {
        assert(rest + right =~= rest);
    }
}

proof fn lemma_trimmed(left: Seq<char>, rest: Seq<char>, right: Seq<char>)
    requires
        only_white_space(left),
        only_white_space(right),
        rest.len() > 0 ==> !is_white_space(rest[0])
            && !is_white_space(rest.last()),
    ensures
        trimmed(left + rest + right) == rest,
{
    if rest.len() > 0 {
        assert(left + rest + right =~= left + (rest + right));
        lemma_start_trimmed(left, rest + right);
        lemma_end_trimmed(rest, right);
    } else {
        let all = left + right;
        assert(left + rest + right =~= all + rest);
        assert forall|i: int| 0 <= i < all.len() implies is_white_space(
            #[trigger] all[i],
        ) by {
            if i < left.len() {
                assert(all[i] == left[i]);
            } else {
                assert(all[i] == right[i - left.len()]);
            }
        }
        lemma_start_trimmed(all, rest);
    }
}


/// A leading prefix is taken off as often as it stands there, and nothing is
/// taken off a text that does not start with it.
pub proof fn prefixes_are_taken_off(s: Seq<char>, first: char, second: char)
    ensures
        without_prefixes(seq![first, second] + s, first, second) == without_prefixes(
            s,
            first,
            second,
        ),
        !(s.len() >= 2 && s[0] == first && s[1] == second) ==> without_prefixes(s, first, second)
            == s,
{
    let all = seq![first, second] + s;
    assert(all.skip(2) =~= s);
}

/// Dropping white space goes character by character: of two texts in a row it is
/// dropped from each, a character of white space leaves nothing, and any other
/// stays.
pub proof fn white_space_is_dropped_everywhere(a: Seq<char>, b: Seq<char>, c: char)
    ensures
        without_white_space(a + b) == without_white_space(a) + without_white_space(b),
        without_white_space(seq![c]) == if is_white_space(c) {
            Seq::<char>::empty()
        } else {
            seq![c]
        },
    decreases b.len(),
{
    reveal(Seq::filter);
    let keep = |c: char| !is_white_space(c);
    assert(seq![c].drop_last() =~= Seq::<char>::empty());
    assert(Seq::<char>::empty().filter(keep) =~= Seq::<char>::empty());
    assert(without_white_space(seq![c]) =~= if is_white_space(c) {
        Seq::<char>::empty()
    } else {
        seq![c]
    });
    if b.len() == 0 {
        assert(a + b =~= a);
        assert(without_white_space(b) =~= Seq::<char>::empty());
        assert(without_white_space(a) + without_white_space(b) =~= without_white_space(a));
    } else {
        assert((a + b).drop_last() =~= a + b.drop_last());
        white_space_is_dropped_everywhere(a, b.drop_last(), c);
        assert(without_white_space(a + b) =~= without_white_space(a) + without_white_space(b));
    }
}

/// A text contains a part exactly when it is something, the part, and something.
pub proof fn parts_are_surrounded(whole: Seq<char>, before: Seq<char>, part: Seq<char>, after: Seq<char>)
    ensures
        has_part(before + part + after, part),
        has_part(whole, part) ==> exists|b: Seq<char>, a: Seq<char>| whole == #[trigger] (b + part + a),
        has_part(whole, part) ==> part.len() <= whole.len(),
{
    let all = before + part + after;
    let at = before.len() as int;
    assert(all.subrange(at, at + part.len()) =~= part);
    if has_part(whole, part) {
        let i = choose|i: int|
            0 <= i <= whole.len() - part.len() && #[trigger] whole.subrange(i, i + part.len())
                == part;
        let b = whole.take(i);
        let a = whole.skip(i + part.len());
        assert(whole =~= b + part + a);
    }
}

/// The case of ASCII letters makes no difference to whether a text contains
/// another.
pub proof fn case_makes_no_difference(
    name: Seq<char>,
    other_name: Seq<char>,
    part: Seq<char>,
    other_part: Seq<char>,
)
    requires
        same_but_for_case(name, other_name),
        same_but_for_case(part, other_part),
    ensures
        has_part_ignoring_case(name, part) == has_part_ignoring_case(other_name, other_part),
        has_part(name, part) ==> has_part_ignoring_case(other_name, other_part),
{
    lemma_lowered_alike(name, other_name);
    lemma_lowered_alike(part, other_part);
    if has_part(name, part) {
        let i = choose|i: int|
            0 <= i <= name.len() - part.len() && #[trigger] name.subrange(i, i + part.len())
                == part;
        assert(forall|k: int| 0 <= k < part.len() ==> part[k] == name[i + k]) by {
            assert forall|k: int| 0 <= k < part.len() implies part[k] == name[i + k] by {
                assert(name.subrange(i, i + part.len())[k] == name[i + k]);
            }
        }
        let l = lowered(name);
        assert(l.subrange(i, i + lowered(part).len()) =~= lowered(part));
    }
}

/// Whether two ASCII texts differ in nothing but the case of letters.
pub open spec fn same_but_for_case(a: Seq<char>, b: Seq<char>) -> bool {
    &&& a.len() == b.len()
    &&& forall|i: int|
        #![trigger a[i]]
        #![trigger b[i]]
        0 <= i < a.len() ==> {
            let x = a[i] as u32;
            let y = b[i] as u32;
            &&& x < 0x80 && y < 0x80
            &&& x == y || (0x41 <= x <= 0x5a && y == x + 0x20) || (0x41 <= y <= 0x5a && x == y
                + 0x20)
        }
}

proof fn lemma_same_letter(x: char, y: char)
    requires
        x as u32 == y as u32 || (0x41 <= x as u32 <= 0x5a && y as u32 == x as u32 + 0x20) || (0x41
            <= y as u32 <= 0x5a && x as u32 == y as u32 + 0x20),
    ensures
        (if 0x41 <= x as u32 <= 0x5a {
            (x as u32 + 0x20) as char
        } else {
            x
        }) == (if 0x41 <= y as u32 <= 0x5a {
            (y as u32 + 0x20) as char
        } else {
            y
        }),
{
    vstd::utf8::char_u32_cast(x, x as u32);
    vstd::utf8::char_u32_cast(y, y as u32);
}

proof fn lemma_lowered_alike(a: Seq<char>, b: Seq<char>)
    requires
        same_but_for_case(a, b),
    ensures
        lowered(a) == lowered(b),
        lowered(a) == ascii_lowercase(a),
        lowered(a).len() == a.len(),
{
    assert(is_ascii_text(a));
    assert(is_ascii_text(b));
    assert forall|i: int| 0 <= i < a.len() implies ascii_lowercase(a)[i] == ascii_lowercase(
        b,
    )[i] by {
        assert((a[i] as u32) < 0x80 && (b[i] as u32) < 0x80);
        lemma_same_letter(a[i], b[i]);
    }
    assert(ascii_lowercase(a) =~= ascii_lowercase(b));
}

/// A text in lower case: of ASCII text, each letter by itself and everything else
/// as it is; of any other text, what the standard library makes of it.
pub proof fn lowering_goes_letter_by_letter(s: Seq<char>, i: int)
    ensures
        is_ascii_text(s) ==> lowered(s).len() == s.len(),
        is_ascii_text(s) && 0 <= i < s.len() ==> lowered(s)[i] as u32 == s[i] as u32 + if 'A'
            <= s[i] <= 'Z' {
            0x20
        } else {
            0int
        },
        !is_ascii_text(s) ==> lowered(s) == lowercase(s),
{
    if is_ascii_text(s) && 0 <= i < s.len() {
        assert((s[i] as u32) < 0x80);
        lemma_letter(s[i]);
    }
}

proof fn lemma_letter(c: char)
    requires
        (c as u32) < 0x80,
    ensures
        0x41 <= c as u32 <= 0x5a ==> ((c as u32 + 0x20) as char) as u32 == c as u32 + 0x20,
        0x41 <= c as u32 <= 0x5a <==> 'A' <= c <= 'Z',
{
}

/// A text contains another, whatever the case, exactly when in lower case it is
/// something, the other in lower case, and something.
pub proof fn parts_are_found_in_lower_case(
    name: Seq<char>,
    part: Seq<char>,
    before: Seq<char>,
    after: Seq<char>,
)
    ensures
        lowered(name) == before + lowered(part) + after ==> has_part_ignoring_case(name, part),
        has_part_ignoring_case(name, part) ==> exists|b: Seq<char>, a: Seq<char>| lowered(name)
            == #[trigger] (b + lowered(part) + a),
{
    parts_are_surrounded(lowered(name), before, lowered(part), after);
}

/// White space around a text is taken off, and nothing else: what is left starts
/// and ends where the text does.
pub proof fn white_space_is_trimmed_at_the_ends(
    left: Seq<char>,
    rest: Seq<char>,
    right: Seq<char>,
)
    requires
        only_white_space(left),
        only_white_space(right),
        rest.len() > 0 ==> !is_white_space(rest[0]) && !is_white_space(rest.last()),
    ensures
        trimmed(left + rest + right) == rest,
{
    lemma_trimmed(left, rest, right);
}

} // verus!
