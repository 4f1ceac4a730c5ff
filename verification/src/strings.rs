//! Byte-level operations on `String`, stated over the UTF-8 encoding of the
//! string's characters, as std documents them. Positions are byte offsets.

use vstd::prelude::*;
#[allow(unused_imports)]
use vstd::utf8::*;

verus! {

/// The UTF-8 bytes of a string.
pub open spec fn utf8(s: Seq<char>) -> Seq<u8> {
    encode_utf8(s)
}

/// The characters of each string.
pub open spec fn strings_chars(ls: Seq<String>) -> Seq<Seq<char>> {
    ls.map_values(|l: String| l@)
}

/// The UTF-8 bytes of one character.
pub open spec fn char_utf8(c: char) -> Seq<u8> {
    encode_utf8(seq![c])
}

/// `idx` is a byte offset at which a character starts, or the end.
pub open spec fn boundary(s: Seq<char>, idx: int) -> bool {
    is_char_boundary(encode_utf8(s), idx)
}

/// A boundary lies within the bytes.
pub proof fn lemma_boundary_in_range(bytes: Seq<u8>, idx: int)
    requires
        valid_utf8(bytes),
        is_char_boundary(bytes, idx),
    ensures
        0 <= idx <= bytes.len(),
{
    reveal_with_fuel(is_char_boundary, 1);
}

/// Encoding distributes over concatenation.
pub proof fn lemma_utf8_concat(a: Seq<char>, b: Seq<char>)
    ensures
        utf8(a + b) == utf8(a) + utf8(b),
    decreases a.len(),
{
    if a.len() == 0 {
        assert(a + b =~= b);
        assert(utf8(a) + utf8(b) =~= utf8(b));
    } else {
        assert((a + b).drop_first() =~= a.drop_first() + b);
        lemma_utf8_concat(a.drop_first(), b);
        assert(encode_scalar(a[0] as u32) + (utf8(a.drop_first()) + utf8(b)) =~= (encode_scalar(
            a[0] as u32,
        ) + utf8(a.drop_first())) + utf8(b));
    }
}

/// One character encodes to one scalar.
pub proof fn lemma_char_utf8(c: char)
    ensures
        char_utf8(c) == encode_scalar(c as u32),
        1 <= char_utf8(c).len() <= 4,
        c as u32 <= 0x7f ==> char_utf8(c) == seq![c as u8],
{
    reveal_with_fuel(encode_utf8, 2);
    assert(seq![c].drop_first() =~= Seq::<char>::empty());
    assert(encode_scalar(c as u32) + Seq::<u8>::empty() =~= encode_scalar(c as u32));
    assert(c as u32 <= 0x7f ==> encode_scalar(c as u32) =~= seq![c as u8]) by {
        if c as u32 <= 0x7f {
            let u = c as u32;
            assert(u <= 0x7f ==> leading_byte_width_1(u) == u as u8) by (bit_vector);
        }
    }
}

/// The encoding of a character, followed by anything, starts with a
/// character as long as that encoding.
pub proof fn lemma_char_first(ch: char, rest: Seq<u8>)
    ensures
        length_of_first_scalar(char_utf8(ch) + rest) == char_utf8(ch).len(),
        valid_first_scalar(char_utf8(ch)),
        is_leading_byte_width_1((char_utf8(ch) + rest)[0]) || is_leading_byte_width_2(
            (char_utf8(ch) + rest)[0],
        ) || is_leading_byte_width_3((char_utf8(ch) + rest)[0]) || is_leading_byte_width_4(
            (char_utf8(ch) + rest)[0],
        ),
{
    encode_utf8_first_scalar(seq![ch]);
    lemma_char_utf8(ch);
    assert((char_utf8(ch) + rest)[0] == char_utf8(ch)[0]);
}

/// Inserts a character at a byte offset.
///
/// `String::insert` inserts `ch` at byte position `idx`; it panics when
/// `idx` is past the end or not on a character boundary, which `requires`
/// leaves out.
#[verifier::external_body]
pub fn string_insert(s: &mut String, idx: usize, ch: char)
    requires
        boundary(old(s)@, idx as int),
    ensures
        utf8(final(s)@) == utf8(old(s)@).take(idx as int) + char_utf8(ch) + utf8(old(s)@).skip(
            idx as int,
        ),
{
    s.insert(idx, ch)
}

/// The length in bytes of the character that starts at byte `idx`.
pub open spec fn width_at(bytes: Seq<u8>, idx: int) -> int {
    length_of_first_scalar(bytes.skip(idx))
}

/// The character that starts at byte `idx`.
pub open spec fn char_at(bytes: Seq<u8>, idx: int) -> char {
    decode_first_scalar(bytes.skip(idx)) as char
}

/// Removes the character that starts at a byte offset and returns it.
///
/// `String::remove` removes and returns the `char` at byte position `idx`;
/// it panics when `idx` is not below the length or not on a character
/// boundary, which `requires` leaves out.
#[verifier::external_body]
pub fn string_remove(s: &mut String, idx: usize) -> (c: char)
    requires
        boundary(old(s)@, idx as int),
        idx < utf8(old(s)@).len(),
    ensures
        c == char_at(utf8(old(s)@), idx as int),
        idx + width_at(utf8(old(s)@), idx as int) <= utf8(old(s)@).len(),
        utf8(final(s)@) == utf8(old(s)@).take(idx as int) + utf8(old(s)@).skip(
            idx + width_at(utf8(old(s)@), idx as int),
        ),
{
    s.remove(idx)
}

/// Shortens the string to `new_len` bytes.
///
/// `String::truncate` has no effect when `new_len` is at least the length,
/// and panics when `new_len` is shorter but not on a character boundary,
/// which `requires` leaves out.
#[verifier::external_body]
pub fn string_truncate(s: &mut String, new_len: usize)
    requires
        new_len < utf8(old(s)@).len() ==> boundary(old(s)@, new_len as int),
    ensures
        utf8(final(s)@) == if new_len < utf8(old(s)@).len() {
            utf8(old(s)@).take(new_len as int)
        } else {
            utf8(old(s)@)
        },
{
    s.truncate(new_len)
}

/// Removes the first `end` bytes.
///
/// `String::drain(..end)` removes the byte range `0..end` once the returned
/// iterator is dropped; it panics when `end` is past the end or not on a
/// character boundary, which `requires` leaves out.
#[verifier::external_body]
pub fn string_drain_front(s: &mut String, end: usize)
    requires
        boundary(old(s)@, end as int),
    ensures
        utf8(final(s)@) == utf8(old(s)@).skip(end as int),
{
    s.drain(..end);
}

/// Appends a string slice.
///
/// `String::push_str` appends the characters of `other`.
#[verifier::external_body]
pub fn string_push_str(s: &mut String, other: &str)
    ensures
        final(s)@ == old(s)@ + other@,
{
    s.push_str(other)
}

/// Appends one character.
///
/// `String::push` appends `ch` at the end.
#[verifier::external_body]
pub fn string_push(s: &mut String, ch: char)
    ensures
        final(s)@ == old(s)@.push(ch),
{
    s.push(ch)
}

/// Removes the last character and returns it.
///
/// `String::pop` returns `None` on an empty string and leaves it as it is.
#[verifier::external_body]
pub fn string_pop(s: &mut String) -> (c: Option<char>)
    ensures
        old(s)@.len() > 0 ==> c == Some(old(s)@.last()) && final(s)@ == old(s)@.drop_last(),
        old(s)@.len() == 0 ==> c is None && final(s)@ == old(s)@,
{
    s.pop()
}

/// Empties the string.
///
/// `String::clear` truncates the string to length zero.
#[verifier::external_body]
pub fn string_clear(s: &mut String)
    ensures
        final(s)@ == Seq::<char>::empty(),
{
    s.clear()
}

/// The tail of a string slice from a byte offset on.
///
/// Indexing a `str` with `from..` gives the bytes from `from` to the end;
/// it panics when `from` is past the end or not on a character boundary,
/// which `requires` leaves out.
#[verifier::external_body]
pub fn str_tail(s: &str, from: usize) -> (t: &str)
    requires
        boundary(s@, from as int),
    ensures
        utf8(t@) == utf8(s@).skip(from as int),
{
    &s[from..]
}

/// The decimal digit for `d`.
pub open spec fn digit_char(d: nat) -> char {
    (48 + d) as char
}

/// The decimal representation of `n`, without leading zeros.
pub open spec fn decimal(n: nat) -> Seq<char>
    decreases n,
{
    if n < 10 {
        seq![digit_char(n)]
    } else {
        decimal(n / 10).push(digit_char(n % 10))
    }
}

/// The character is a decimal digit.
pub open spec fn is_digit(c: char) -> bool {
    '0' <= c <= '9'
}

/// The number a run of decimal digits reads as, most significant first.
pub open spec fn digits_value(s: Seq<char>) -> int
    decreases s.len(),
{
    if s.len() == 0 {
        0
    } else {
        digits_value(s.drop_last()) * 10 + (s.last() as int - '0' as int)
    }
}

proof fn lemma_digit_char(d: nat)
    requires
        d < 10,
    ensures
        digit_char(d) as int == 48 + d,
        is_digit(digit_char(d)),
{
    assert((48 + d) as char as int == 48 + d);
}

/// The decimal representation of `n` is a non-empty run of digits that
/// reads as `n`, with no leading zero but for zero itself.
pub proof fn lemma_decimal_reads_back(n: nat)
    ensures
        decimal(n).len() > 0,
        forall|i: int| 0 <= i < decimal(n).len() ==> is_digit(#[trigger] decimal(n)[i]),
        digits_value(decimal(n)) == n,
        decimal(n).len() > 1 ==> decimal(n)[0] != '0',
    decreases n,
{
    let s = decimal(n);
    if n >= 10 {
        lemma_decimal_reads_back(n / 10);
        lemma_digit_char(n % 10);
        let d = decimal(n / 10);
        assert(s == d.push(digit_char(n % 10)));
        assert(s.drop_last() =~= d);
        assert(s.last() == digit_char(n % 10));
        assert forall|i: int| 0 <= i < s.len() implies is_digit(#[trigger] s[i]) by {
            if i < d.len() {
                assert(s[i] == d[i]);
            }
        }
        assert((n / 10) * 10 + n % 10 == n) by (nonlinear_arith);
        assert('0' as int == 48);
        assert(digits_value(s) == digits_value(d) * 10 + (n % 10));
        assert(digits_value(d) * 10 == (n / 10) * 10);
        assert(s[0] == d[0]);
        if d.len() == 1 {
            assert(n / 10 < 10) by {
                if n / 10 >= 10 {
                    lemma_decimal_reads_back(n / 100);
                    assert(decimal(n / 10).len() > 1);
                }
            }
            lemma_digit_char(n / 10);
            assert(n / 10 >= 1);
            assert(d[0] == digit_char(n / 10));
        }
    } else {
        lemma_digit_char(n);
        assert(s == seq![digit_char(n)]);
        assert(s.drop_last() =~= Seq::<char>::empty());
        assert(s.last() == digit_char(n));
        assert(digits_value(s.drop_last()) == 0);
        assert('0' as int == 48);
        assert(digits_value(s) == 0 * 10 + (digit_char(n) as int - 48));
    }
}

/// Formats `n` in decimal.
pub fn to_decimal(n: usize) -> (s: String)
    ensures
        s@ == decimal(n as nat),
    decreases n,
{
    let d = (n % 10) as u8;
    let c = (48u8 + d) as char;
    if n < 10 {
        let mut s = String::new();
        string_push(&mut s, c);
        s
    } else {
        let mut s = to_decimal(n / 10);
        string_push(&mut s, c);
        s
    }
}

/// The length of a string slice in bytes.
///
/// `str::len` returns the number of bytes of the UTF-8 encoding.
#[verifier::external_body]
pub fn byte_len(s: &str) -> (n: usize)
    ensures
        n == utf8(s@).len(),
{
    s.len()
}

} // verus!
