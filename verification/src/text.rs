//! Text as bytes: the offsets that the syntax tree and the symbol table carry are byte
//! offsets into UTF-8 text, so the text helpers are stated over the encoded bytes.

use vstd::prelude::*;
use vstd::string::*;
use vstd::utf8::*;

verus! {

/// The characters that the bytes `start..end` of the encoded text stand for.
pub open spec fn chars_between(text: Seq<char>, start: int, end: int) -> Seq<char> {
    decode_utf8(encode_utf8(text).subrange(start, end))
}

/// Whether the byte offsets `start..end` enclose whole characters of the text.
pub open spec fn is_char_range(text: Seq<char>, start: int, end: int) -> bool {
    &&& 0 <= start <= end <= encode_utf8(text).len()
    &&& is_char_boundary(encode_utf8(text), start)
    &&& is_char_boundary(encode_utf8(text), end)
}

/// Two texts with the same bytes hold the same characters.
pub proof fn lemma_same_bytes_same_chars(a: Seq<char>, b: Seq<char>)
    requires
        encode_utf8(a) == encode_utf8(b),
    ensures
        a == b,
{
    encode_utf8_decode_utf8(a);
    encode_utf8_decode_utf8(b);
}

/// Compares two texts character by character.
pub fn same_text(a: &str, b: &str) -> (same: bool)
    ensures
        same == (a@ == b@),
{
    let x = a.as_bytes();
    let y = b.as_bytes();
    if x.len() != y.len() {
        return false;
    }
    let mut i: usize = 0;
    while i < x.len()
        invariant
            x@ == a.spec_bytes(),
            y@ == b.spec_bytes(),
            x@.len() == y@.len(),
            0 <= i <= x@.len(),
            forall|k: int| 0 <= k < i ==> x@[k] == y@[k],
        decreases x@.len() - i,
    {
        if x[i] != y[i] {
            return false;
        }
        i = i + 1;
    }
    proof {
        assert(x@ =~= y@);
        lemma_same_bytes_same_chars(a@, b@);
    }
    true
}

/// The part of `text` between two byte offsets, where they enclose whole characters.
pub fn slice_text(text: &str, start: usize, end: usize) -> (part: Option<&str>)
    ensures
        part is Some <==> is_char_range(text@, start as int, end as int),
        part matches Some(s) ==> s@ == chars_between(text@, start as int, end as int)
            && s.spec_bytes() == text.spec_bytes().subrange(start as int, end as int),
{
    broadcast use encode_utf8_valid_utf8;

    let len = text.as_bytes().len();
    if start <= end && end <= len && text.is_char_boundary(start) && text.is_char_boundary(end) {
        let (head, _) = text.split_at(end);
        proof {
            assert(head.spec_bytes().len() == end);
            assert(head.spec_bytes() =~= text.spec_bytes().subrange(0, end as int));
            lemma_boundary_of_prefix(text.spec_bytes(), start as int, end as int);
        }
        let (_, part) = head.split_at(start);
        proof {
            assert(part.spec_bytes() =~= text.spec_bytes().subrange(start as int, end as int));
            encode_utf8_decode_utf8(part@);
        }
        Some(part)
    } else {
        None
    }
}

/// A character boundary of a text is one of each of its prefixes that reach it.
pub proof fn lemma_boundary_of_prefix(bytes: Seq<u8>, index: int, end: int)
    requires
        valid_utf8(bytes),
        0 <= index <= end <= bytes.len(),
        is_char_boundary(bytes, index),
        is_char_boundary(bytes, end),
    ensures
        valid_utf8(bytes.subrange(0, end)),
        is_char_boundary(bytes.subrange(0, end), index),
{
    valid_utf8_split(bytes, end);
    let prefix = bytes.subrange(0, end);
    if index == end {
        is_char_boundary_start_end_of_seq(prefix);
    } else if index == 0 {
    } else {
        is_char_boundary_iff_not_is_continuation_byte(bytes, index);
        is_char_boundary_iff_not_is_continuation_byte(prefix, index);
    }
}

/// Whether `bytes` begins with `prefix`.
pub open spec fn has_prefix(bytes: Seq<u8>, prefix: Seq<u8>) -> bool {
    prefix.len() <= bytes.len() && bytes.subrange(0, prefix.len() as int) == prefix
}

/// Whether `bytes` ends with `suffix`.
pub open spec fn has_suffix(bytes: Seq<u8>, suffix: Seq<u8>) -> bool {
    suffix.len() <= bytes.len() && bytes.subrange(
        bytes.len() - suffix.len(),
        bytes.len() as int,
    ) == suffix
}

/// Whether `part` stands in `bytes` at offset `at`.
pub open spec fn occurs_at(bytes: Seq<u8>, part: Seq<u8>, at: int) -> bool {
    0 <= at && at + part.len() <= bytes.len() && bytes.subrange(at, at + part.len()) == part
}

/// Whether `part` stands somewhere in `bytes`.
pub open spec fn occurs(bytes: Seq<u8>, part: Seq<u8>) -> bool {
    exists|at: int| occurs_at(bytes, part, at)
}

/// Whether the bytes of `part` stand in `text` at the byte offset `at`.
pub fn matches_at(text: &[u8], part: &[u8], at: usize) -> (found: bool)
    ensures
        found == occurs_at(text@, part@, at as int),
{
    if at > text.len() || part.len() > text.len() - at {
        return false;
    }
    let mut i: usize = 0;
    while i < part.len()
        invariant
            at + part@.len() <= text@.len(),
            text@.len() <= usize::MAX,
            0 <= i <= part@.len(),
            forall|k: int| 0 <= k < i ==> text@[at + k] == part@[k],
        decreases part@.len() - i,
    {
        if text[at + i] != part[i] {
            proof {
                assert(text@.subrange(at as int, at + part@.len())[i as int] == text@[at + i]);
            }
            return false;
        }
        i = i + 1;
    }
    proof {
        assert(text@.subrange(at as int, at + part@.len()) =~= part@);
    }
    true
}

/// Whether `text` begins with `prefix`, byte for byte.
pub fn starts_with(text: &str, prefix: &str) -> (found: bool)
    ensures
        found == has_prefix(text.spec_bytes(), prefix.spec_bytes()),
{
    matches_at(text.as_bytes(), prefix.as_bytes(), 0)
}

/// Whether `text` ends with `suffix`, byte for byte.
pub fn ends_with(text: &str, suffix: &str) -> (found: bool)
    ensures
        found == has_suffix(text.spec_bytes(), suffix.spec_bytes()),
{
    let x = text.as_bytes();
    let y = suffix.as_bytes();
    if y.len() > x.len() {
        return false;
    }
    matches_at(x, y, x.len() - y.len())
}

/// Whether `part` stands somewhere in `text`, byte for byte.
pub fn contains(text: &str, part: &str) -> (found: bool)
    ensures
        found == occurs(text.spec_bytes(), part.spec_bytes()),
{
    let x = text.as_bytes();
    let y = part.as_bytes();
    if y.len() > x.len() {
        return false;
    }
    let last = x.len() - y.len();
    let mut at: usize = 0;
    loop
        invariant
            x@ == text.spec_bytes(),
            y@ == part.spec_bytes(),
            last == x@.len() - y@.len(),
            0 <= at <= last,
            forall|k: int| 0 <= k < at ==> !occurs_at(x@, y@, k),
        decreases last - at,
    {
        if matches_at(x, y, at) {
            return true;
        }
        if at >= last {
            return false;
        }
        at = at + 1;
    }
}

/// What is left of `text` behind `prefix`: nothing where `text` does not begin with it,
/// byte for byte, or where the cut would fall inside a character.
pub open spec fn without_prefix(text: Seq<char>, prefix: Seq<char>) -> Option<Seq<char>> {
    let from = encode_utf8(prefix).len() as int;
    let to = encode_utf8(text).len() as int;
    if has_prefix(encode_utf8(text), encode_utf8(prefix)) && is_char_range(text, from, to) {
        Some(chars_between(text, from, to))
    } else {
        None
    }
}

/// What is left of `text` before `suffix`: nothing where `text` does not end with it,
/// byte for byte, or where the cut would fall inside a character.
pub open spec fn without_suffix(text: Seq<char>, suffix: Seq<char>) -> Option<Seq<char>> {
    let to = encode_utf8(text).len() - encode_utf8(suffix).len();
    if has_suffix(encode_utf8(text), encode_utf8(suffix)) && is_char_range(text, 0, to) {
        Some(chars_between(text, 0, to))
    } else {
        None
    }
}

/// What is left of `text` behind `prefix`.
pub fn strip_prefix<'a>(text: &'a str, prefix: &str) -> (rest: Option<&'a str>)
    ensures
        rest is Some <==> without_prefix(text@, prefix@) is Some,
        rest matches Some(r) ==> without_prefix(text@, prefix@) == Some(r@),
{
    if !starts_with(text, prefix) {
        return None;
    }
    slice_text(text, prefix.as_bytes().len(), text.as_bytes().len())
}

/// What is left of `text` before `suffix`.
pub fn strip_suffix<'a>(text: &'a str, suffix: &str) -> (rest: Option<&'a str>)
    ensures
        rest is Some <==> without_suffix(text@, suffix@) is Some,
        rest matches Some(r) ==> without_suffix(text@, suffix@) == Some(r@),
{
    if !ends_with(text, suffix) {
        return None;
    }
    slice_text(text, 0, text.as_bytes().len() - suffix.as_bytes().len())
}

/// `a` followed by `b`.
pub fn join2(a: &str, b: &str) -> (joined: String)
    ensures
        joined@ == a@ + b@,
{
    let mut joined = String::from_str(a);
    joined.append(b);
    joined
}

/// `a`, `b` and `c` in a row.
pub fn join3(a: &str, b: &str, c: &str) -> (joined: String)
    ensures
        joined@ == a@ + b@ + c@,
{
    let mut joined = String::from_str(a);
    joined.append(b);
    joined.append(c);
    joined
}

/// The characters that count as blank around a word: those that Unicode gives the
/// property `White_Space`. They are the ones that `char::is_whitespace` knows, so that
/// `trimmed` is what `str::trim` leaves of a text.
pub open spec fn is_blank(c: char) -> bool {
    let n = c as u32;
    0x09 <= n <= 0x0D || n == 0x20 || n == 0x85 || n == 0xA0 || n == 0x1680 || 0x2000 <= n
        <= 0x200A || n == 0x2028 || n == 0x2029 || n == 0x202F || n == 0x205F || n == 0x3000
}

/// `text` without the blanks at its start.
pub open spec fn skip_blank(text: Seq<char>) -> Seq<char>
    decreases text.len(),
{
    if text.len() > 0 && is_blank(text[0]) {
        skip_blank(text.drop_first())
    } else {
        text
    }
}

/// `text` without the blanks at its end.
pub open spec fn drop_blank(text: Seq<char>) -> Seq<char>
    decreases text.len(),
{
    if text.len() > 0 && is_blank(text.last()) {
        drop_blank(text.drop_last())
    } else {
        text
    }
}

/// `text` without the blanks around it.
pub open spec fn trimmed(text: Seq<char>) -> Seq<char> {
    drop_blank(skip_blank(text))
}

/// Whether a character is blank.
pub fn blank(c: char) -> (b: bool)
    ensures
        b == is_blank(c),
{
    let n: u32 = c as u32;
    (0x09 <= n && n <= 0x0D) || n == 0x20 || n == 0x85 || n == 0xA0 || n == 0x1680 || (0x2000 <= n
        && n <= 0x200A) || n == 0x2028 || n == 0x2029 || n == 0x202F || n == 0x205F || n
        == 0x3000
}

/// `text` without the blanks around it.
pub fn trim(text: &str) -> (inner: &str)
    ensures
        inner@ == trimmed(text@),
{
    let n = text.unicode_len();
    let mut i: usize = 0;
    proof {
        assert(text@.subrange(0, n as int) =~= text@);
    }
    while i < n && blank(text.get_char(i))
        invariant
            n == text@.len(),
            0 <= i <= n,
            skip_blank(text@) == skip_blank(text@.subrange(i as int, n as int)),
        decreases n - i,
    {
        proof {
            assert(text@.subrange(i as int, n as int).drop_first() =~= text@.subrange(
                i + 1,
                n as int,
            ));
        }
        i = i + 1;
    }
    let mut j: usize = n;
    while j > i && blank(text.get_char(j - 1))
        invariant
            n == text@.len(),
            0 <= i <= j <= n,
            i < n ==> !is_blank(text@[i as int]),
            drop_blank(text@.subrange(i as int, n as int)) == drop_blank(
                text@.subrange(i as int, j as int),
            ),
        decreases j,
    {
        proof {
            assert(text@.subrange(i as int, j as int).drop_last() =~= text@.subrange(
                i as int,
                j - 1,
            ));
        }
        j = j - 1;
    }
    text.substring_char(i, j)
}

/// Whether `text` ends with `suffix`, character for character.
pub open spec fn ends_in(text: Seq<char>, suffix: Seq<char>) -> bool {
    suffix.len() <= text.len() && text.subrange(text.len() - suffix.len(), text.len() as int)
        == suffix
}

/// The character of a decimal digit.
pub open spec fn digit_char(digit: nat) -> char {
    if digit == 0 {
        '0'
    } else if digit == 1 {
        '1'
    } else if digit == 2 {
        '2'
    } else if digit == 3 {
        '3'
    } else if digit == 4 {
        '4'
    } else if digit == 5 {
        '5'
    } else if digit == 6 {
        '6'
    } else if digit == 7 {
        '7'
    } else if digit == 8 {
        '8'
    } else {
        '9'
    }
}

/// A number in decimal digits.
pub open spec fn digits(n: nat) -> Seq<char>
    decreases n,
{
    if n < 10 {
        seq![digit_char(n)]
    } else {
        digits(n / 10).push(digit_char(n % 10))
    }
}

/// One decimal digit as a text.
fn digit(d: usize) -> (text: &'static str)
    requires
        d < 10,
    ensures
        text@ == seq![digit_char(d as nat)],
{
    proof {
        reveal_strlit("0");
        reveal_strlit("1");
        reveal_strlit("2");
        reveal_strlit("3");
        reveal_strlit("4");
        reveal_strlit("5");
        reveal_strlit("6");
        reveal_strlit("7");
        reveal_strlit("8");
        reveal_strlit("9");
    }
    let text = if d == 0 {
        "0"
    } else if d == 1 {
        "1"
    } else if d == 2 {
        "2"
    } else if d == 3 {
        "3"
    } else if d == 4 {
        "4"
    } else if d == 5 {
        "5"
    } else if d == 6 {
        "6"
    } else if d == 7 {
        "7"
    } else if d == 8 {
        "8"
    } else {
        "9"
    };
    proof {
        assert(text@ =~= seq![digit_char(d as nat)]);
    }
    text
}

/// A number in decimal digits.
pub fn decimal(n: usize) -> (text: String)
    ensures
        text@ == digits(n as nat),
    decreases n,
{
    if n < 10 {
        digit(n).to_owned()
    } else {
        let mut text = decimal(n / 10);
        let last = digit(n % 10);
        text.append(last);
        proof {
            assert(text@ =~= digits((n / 10) as nat).push(digit_char((n % 10) as nat)));
        }
        text
    }
}

} // verus!
