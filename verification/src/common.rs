//! Character-classification primitives shared by every encoder: the
//! bucket/bit-mask pair used for O(1) membership tests against a bit table,
//! and helpers that render a character as a two-digit or four-digit
//! hexadecimal escape.

use vstd::prelude::*;

verus! {

/// The lower-case hexadecimal digit for a nibble; `'f'` for any value
/// above fifteen (callers always pass a masked nibble).
pub open spec fn hex_lower(n: u32) -> char {
    if n == 0 {
        '0'
    } else if n == 1 {
        '1'
    } else if n == 2 {
        '2'
    } else if n == 3 {
        '3'
    } else if n == 4 {
        '4'
    } else if n == 5 {
        '5'
    } else if n == 6 {
        '6'
    } else if n == 7 {
        '7'
    } else if n == 8 {
        '8'
    } else if n == 9 {
        '9'
    } else if n == 10 {
        'a'
    } else if n == 11 {
        'b'
    } else if n == 12 {
        'c'
    } else if n == 13 {
        'd'
    } else if n == 14 {
        'e'
    } else {
        'f'
    }
}

/// The upper-case hexadecimal digit for a nibble; `'F'` for any value
/// above fifteen (callers always pass a masked nibble).
pub open spec fn hex_upper(n: u32) -> char {
    if n == 0 {
        '0'
    } else if n == 1 {
        '1'
    } else if n == 2 {
        '2'
    } else if n == 3 {
        '3'
    } else if n == 4 {
        '4'
    } else if n == 5 {
        '5'
    } else if n == 6 {
        '6'
    } else if n == 7 {
        '7'
    } else if n == 8 {
        '8'
    } else if n == 9 {
        '9'
    } else if n == 10 {
        'A'
    } else if n == 11 {
        'B'
    } else if n == 12 {
        'C'
    } else if n == 13 {
        'D'
    } else if n == 14 {
        'E'
    } else {
        'F'
    }
}

/// Executable form of [`hex_lower`].
pub fn to_hex_lower(n: u32) -> (c: char)
    ensures
        c == hex_lower(n),
{
    if n == 0 {
        '0'
    } else if n == 1 {
        '1'
    } else if n == 2 {
        '2'
    } else if n == 3 {
        '3'
    } else if n == 4 {
        '4'
    } else if n == 5 {
        '5'
    } else if n == 6 {
        '6'
    } else if n == 7 {
        '7'
    } else if n == 8 {
        '8'
    } else if n == 9 {
        '9'
    } else if n == 10 {
        'a'
    } else if n == 11 {
        'b'
    } else if n == 12 {
        'c'
    } else if n == 13 {
        'd'
    } else if n == 14 {
        'e'
    } else {
        'f'
    }
}

/// Executable form of [`hex_upper`].
pub fn to_hex_upper(n: u32) -> (c: char)
    ensures
        c == hex_upper(n),
{
    if n == 0 {
        '0'
    } else if n == 1 {
        '1'
    } else if n == 2 {
        '2'
    } else if n == 3 {
        '3'
    } else if n == 4 {
        '4'
    } else if n == 5 {
        '5'
    } else if n == 6 {
        '6'
    } else if n == 7 {
        '7'
    } else if n == 8 {
        '8'
    } else if n == 9 {
        '9'
    } else if n == 10 {
        'A'
    } else if n == 11 {
        'B'
    } else if n == 12 {
        'C'
    } else if n == 13 {
        'D'
    } else if n == 14 {
        'E'
    } else {
        'F'
    }
}

/// Whether the bit for code point `cp` is set in the given bit table.
/// Word `cp >> 5` holds the bit `cp & 31`; only meaningful while
/// `cp >> 5` is in range, which callers establish by bounding `cp`.
pub open spec fn mask_bit(masks: Seq<u32>, cp: u32) -> bool {
    masks[(cp >> 5u32) as int] & (1u32 << (cp & 31)) != 0
}

/// Generates the bit mask for the character `c`: a single bit at
/// position `c & 31` within its bucket word.
pub fn char_mask(c: char) -> (m: u32)
    ensures
        m == 1u32 << (c as u32 & 31),
{
    let cp = c as u32;
    assert(cp & 31 < 32) by (bit_vector);
    1u32 << (cp & 31)
}

/// Selects which 32-bit word of a bit table holds the bit for `c`.
pub fn char_bucket(c: char) -> (b: usize)
    ensures
        b == (c as u32 >> 5u32) as usize,
{
    (c as u32 >> 5u32) as usize
}

/// The sequence `lead`, `'x'`, then the two hexadecimal digits of the low
/// byte of `cp`, in lower case.
pub open spec fn hex_byte_escape(lead: char, cp: u32) -> Seq<char> {
    seq![lead, 'x', hex_lower((cp >> 4u32) & 0xF), hex_lower(cp & 0xF)]
}

/// The sequence `lead`, `'u'`, then the four hexadecimal digits of the low
/// 16-bit unit of `cp`, in lower case.
pub open spec fn unicode_escape(lead: char, cp: u32) -> Seq<char> {
    seq![
        lead,
        'u',
        hex_lower((cp >> 12u32) & 0xF),
        hex_lower((cp >> 8u32) & 0xF),
        hex_lower((cp >> 4u32) & 0xF),
        hex_lower(cp & 0xF),
    ]
}

/// Appends `escape_char`, `'x'`, then the two hex digits of the low byte of
/// `character` to the output.
pub fn encode_as_hex_byte(escape_char: char, output: &mut String, character: char)
    ensures
        final(output)@ == old(output)@ + hex_byte_escape(escape_char, character as u32),
{
    let cp = character as u32;
    push_char(output, escape_char);
    push_char(output, 'x');
    push_char(output, to_hex_lower((cp >> 4u32) & 0xF));
    push_char(output, to_hex_lower(cp & 0xF));
    assert(final(output)@ =~= old(output)@ + hex_byte_escape(escape_char, cp));
}

/// Appends `escape_char`, `'u'`, then the four hex digits of the low 16-bit
/// unit of `character` to the output.
pub fn encode_as_unicode(escape_char: char, output: &mut String, character: char)
    ensures
        final(output)@ == old(output)@ + unicode_escape(escape_char, character as u32),
{
    let cp = character as u32;
    push_char(output, escape_char);
    push_char(output, 'u');
    push_char(output, to_hex_lower((cp >> 12u32) & 0xF));
    push_char(output, to_hex_lower((cp >> 8u32) & 0xF));
    push_char(output, to_hex_lower((cp >> 4u32) & 0xF));
    push_char(output, to_hex_lower(cp & 0xF));
    assert(final(output)@ =~= old(output)@ + unicode_escape(escape_char, cp));
}

/// Classification dump for tests and tooling, never on the hot path: each
/// 7-bit character paired with whether the table marks it valid.
pub fn dump_classification(masks: &[u32; 4]) -> (r: Vec<(char, bool)>)
    ensures
        r@.len() == 128,
        forall|i: int|
            0 <= i < 128 ==> (((#[trigger] r@[i]).0 as u32) == i && r@[i].1 == mask_bit(
                masks@,
                i as u32,
            )),
{
    let mut r: Vec<(char, bool)> = Vec::new();
    let mut i: u32 = 0;
    while i < 128
        invariant
            i <= 128,
            r@.len() == i as int,
            forall|k: int|
                0 <= k < i ==> (((#[trigger] r@[k]).0 as u32) == k && r@[k].1 == mask_bit(
                    masks@,
                    k as u32,
                )),
        decreases 128 - i,
    {
        let c = (i as u8) as char;
        let bucket = char_bucket(c);
        let mask = char_mask(c);
        proof {
            assert(c as u32 == i);
            assert(i < 128 ==> (i >> 5u32) < 4) by (bit_vector);
        }
        let valid = masks[bucket] & mask != 0;
        r.push((c, valid));
        i = i + 1;
    }
    r
}

/// Relies on `String::push`: appends the one character at the end.
#[verifier::external_body]
pub(crate) fn push_char(s: &mut String, c: char)
    ensures
        final(s)@ == old(s)@.push(c),
{
    s.push(c);
}

/// Relies on `str::chars`: yields exactly the string's characters in order.
#[verifier::external_body]
pub(crate) fn str_chars(s: &str) -> (v: Vec<char>)
    ensures
        v@ == s@,
{
    s.chars().collect()
}

/// Relies on `String::with_capacity`: returns an empty string (the capacity
/// is a size hint only).
#[verifier::external_body]
pub(crate) fn string_with_capacity(capacity: usize) -> (s: String)
    ensures
        s@ == Seq::<char>::empty(),
{
    String::with_capacity(capacity)
}

/// Relies on `String::shrink_to_fit`: changes the capacity only, never the
/// contents.
#[verifier::external_body]
pub(crate) fn shrink_string(s: &mut String)
    ensures
        final(s)@ == old(s)@,
{
    s.shrink_to_fit();
}

} // verus!
