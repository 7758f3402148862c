//! URI profile: percent-encodes every octet outside the RFC 3986 unreserved
//! set; the full-URI mode additionally leaves the generic-delimiter and
//! sub-delimiter punctuation unescaped.  Characters above the 7-bit range are
//! re-encoded as their canonical UTF-8 byte sequence, each byte
//! percent-encoded with upper-case hex digits.

use vstd::prelude::*;

use crate::common::{char_bucket, char_mask, hex_upper, mask_bit, shrink_string, str_chars,
    string_with_capacity, push_char, to_hex_upper};

verus! {

pub enum UriEncoderMode {
    Component,
    FullUri,
}

pub struct UriEncoder {
    valid_masks: [u32; 4],
}

/// Bits, in the bucket of code points 32..=63, of the unreserved characters
/// there: the digits `0`..=`9` (48..=57, so ten bits from 16), `-` (45) and
/// `.` (46).
pub open spec fn uri_unreserved_word1() -> u32 {
    (0x3FFu32 << 16u32) | (1u32 << 13u32) | (1u32 << 14u32)
}

/// Bits, in the bucket of code points 64..=95, of the unreserved characters
/// there: `A`..=`Z` (65..=90, twenty-six bits from 1) and `_` (95).
pub open spec fn uri_unreserved_word2() -> u32 {
    (0x3FF_FFFFu32 << 1u32) | (1u32 << 31u32)
}

/// Bits, in the bucket of code points 96..=127, of the unreserved characters
/// there: `a`..=`z` (97..=122, twenty-six bits from 1) and `~` (126).
pub open spec fn uri_unreserved_word3() -> u32 {
    (0x3FF_FFFFu32 << 1u32) | (1u32 << 30u32)
}

/// Bits, in the bucket of code points 32..=63, of the reserved punctuation
/// the full-URI mode keeps: `!` 33, `#` 35, `$` 36, `?` 63, `&` 38, `'` 39,
/// `(` 40, `)` 41, `*` 42, `+` 43, `,` 44, `:` 58, `;` 59, `=` 61, `/` 47;
/// each holds bit `code point & 31`.
pub open spec fn uri_reserved_word1() -> u32 {
    (1u32 << 1u32) | (1u32 << 3u32) | (1u32 << 4u32) | (1u32 << 31u32) | (1u32 << 6u32) | (1u32
        << 7u32) | (1u32 << 8u32) | (1u32 << 9u32) | (1u32 << 10u32) | (1u32 << 11u32) | (1u32
        << 12u32) | (1u32 << 26u32) | (1u32 << 27u32) | (1u32 << 29u32) | (1u32 << 15u32)
}

/// Bits, in the bucket of code points 64..=95, of the reserved punctuation
/// the full-URI mode keeps: `@` 64, `[` 91, `]` 93.
pub open spec fn uri_reserved_word2() -> u32 {
    (1u32 << 0u32) | (1u32 << 27u32) | (1u32 << 29u32)
}

/// The four mask words the mode compiles to, covering code points 0..=127.
pub open spec fn uri_masks(mode: UriEncoderMode) -> Seq<u32> {
    match mode {
        UriEncoderMode::Component => seq![
            0u32,
            uri_unreserved_word1(),
            uri_unreserved_word2(),
            uri_unreserved_word3(),
        ],
        UriEncoderMode::FullUri => seq![
            0u32,
            uri_unreserved_word1() | uri_reserved_word1(),
            uri_unreserved_word2() | uri_reserved_word2(),
            uri_unreserved_word3(),
        ],
    }
}

/// A percent escape of the low byte of `b`: `%` then two upper-case hex
/// digits.
pub open spec fn percent_escape(b: u32) -> Seq<char> {
    seq!['%', hex_upper((b >> 4u32) & 0xF), hex_upper(b & 0xF)]
}

/// What one character encodes to: a 7-bit character passes through when its
/// mask bit is set and is percent-escaped otherwise; any higher code point
/// is split into its canonical UTF-8 bytes (two, three or four of them),
/// each percent-escaped.
pub open spec fn uri_encode_char(masks: Seq<u32>, c: char) -> Seq<char> {
    let cp = c as u32;
    if cp <= 127 {
        if mask_bit(masks, cp) {
            seq![c]
        } else {
            percent_escape(cp)
        }
    } else if cp <= 0x7FF {
        percent_escape(0xC0 | (cp >> 6u32)) + percent_escape(0x80 | (cp & 0x3F))
    } else if cp <= 0xFFFF {
        percent_escape(0xE0 | (cp >> 12u32)) + percent_escape(0x80 | ((cp >> 6u32) & 0x3F))
            + percent_escape(0x80 | (cp & 0x3F))
    } else {
        percent_escape(0xF0 | (cp >> 18u32)) + percent_escape(0x80 | ((cp >> 12u32) & 0x3F))
            + percent_escape(0x80 | ((cp >> 6u32) & 0x3F)) + percent_escape(0x80 | (cp & 0x3F))
    }
}

/// The whole encoding: the concatenation of each character's encoding.
pub open spec fn uri_encode_seq(masks: Seq<u32>, s: Seq<char>) -> Seq<char>
    decreases s.len(),
{
    if s.len() == 0 {
        Seq::empty()
    } else {
        uri_encode_seq(masks, s.drop_last()) + uri_encode_char(masks, s.last())
    }
}

impl View for UriEncoder {
    type V = Seq<u32>;

    closed spec fn view(&self) -> Seq<u32> {
        self.valid_masks@
    }
}

impl UriEncoder {
    pub fn new(mode: UriEncoderMode) -> (r: Self)
        ensures
            r@ == uri_masks(mode),
    {
        // ten digit bits from bit 16 of their bucket; '-' is bit 13, '.' bit 14
        let uri_unreserved_bucket1: u32 = (0x3FFu32 << 16u32) | (1u32 << 13u32) | (1u32
            << 14u32);
        // A-Z start at bit 1; '_' is bit 31
        let uri_unreserved_bucket2: u32 = (0x3FF_FFFFu32 << 1u32) | (1u32 << 31u32);
        // a-z start at bit 1; '~' is bit 30
        let uri_unreserved_bucket3: u32 = (0x3FF_FFFFu32 << 1u32) | (1u32 << 30u32);
        match mode {
            UriEncoderMode::Component => {
                let valid_masks: [u32; 4] = [
                    0,
                    uri_unreserved_bucket1,
                    uri_unreserved_bucket2,
                    uri_unreserved_bucket3,
                ];
                let r = Self { valid_masks };
                proof {
                    assert(r@ =~= uri_masks(mode));
                }
                r
            },
            UriEncoderMode::FullUri => {
                let uri_reserved_bucket1: u32 = (1u32 << 1u32) | (1u32 << 3u32) | (1u32 << 4u32)
                    | (1u32 << 31u32) | (1u32 << 6u32) | (1u32 << 7u32) | (1u32 << 8u32) | (1u32
                    << 9u32) | (1u32 << 10u32) | (1u32 << 11u32) | (1u32 << 12u32) | (1u32
                    << 26u32) | (1u32 << 27u32) | (1u32 << 29u32) | (1u32 << 15u32);
                let uri_reserved_bucket2: u32 = (1u32 << 0u32) | (1u32 << 27u32) | (1u32 << 29u32);
                let valid_masks: [u32; 4] = [
                    0,
                    uri_unreserved_bucket1 | uri_reserved_bucket1,
                    uri_unreserved_bucket2 | uri_reserved_bucket2,
                    uri_unreserved_bucket3,
                ];
                let r = Self { valid_masks };
                proof {
                    assert(r@ =~= uri_masks(mode));
                }
                r
            },
        }
    }

    pub fn encode(&self, input: &str) -> (out: String)
        ensures
            out@ == uri_encode_seq(self@, input@),
    {
        let chars = str_chars(input);
        let len = input.len();
        let cap: usize = if len > 0xE38_E38D {
            0x7FFF_FFFF
        } else {
            len * 9
        };
        let mut result = string_with_capacity(cap);
        let n = chars.len();
        for i in 0..n
            invariant
                n == chars.len(),
                chars@ == input@,
                self@.len() == 4,
                result@ == uri_encode_seq(self@, input@.take(i as int)),
        {
            let c = chars[i];
            let cp = c as u32;
            if cp <= 127 {
                let bucket = char_bucket(c);
                let mask = char_mask(c);
                proof {
                    assert(cp <= 127 ==> (cp >> 5u32) < 4) by (bit_vector);
                }
                if self.valid_masks[bucket] & mask != 0 {
                    push_char(&mut result, c);
                } else {
                    push_percent(&mut result, cp);
                }
            } else if cp <= 0x7FF {
                push_percent(&mut result, 0xC0 | (cp >> 6u32));
                push_percent(&mut result, 0x80 | (cp & 0x3F));
            } else if cp <= 0xFFFF {
                push_percent(&mut result, 0xE0 | (cp >> 12u32));
                push_percent(&mut result, 0x80 | ((cp >> 6u32) & 0x3F));
                push_percent(&mut result, 0x80 | (cp & 0x3F));
            } else {
                push_percent(&mut result, 0xF0 | (cp >> 18u32));
                push_percent(&mut result, 0x80 | ((cp >> 12u32) & 0x3F));
                push_percent(&mut result, 0x80 | ((cp >> 6u32) & 0x3F));
                push_percent(&mut result, 0x80 | (cp & 0x3F));
            }
            proof {
                let pre = input@.take(i as int);
                let now = input@.take(i + 1);
                assert(now.drop_last() =~= pre);
                assert(now.last() == c);
                assert(result@ =~= uri_encode_seq(self@, pre) + uri_encode_char(self@, c));
            }
        }
        proof {
            assert(input@.take(n as int) =~= input@);
        }
        shrink_string(&mut result);
        result
    }

}

/// Appends one percent escape for the low byte of `b`.
fn push_percent(result: &mut String, b: u32)
    ensures
        final(result)@ == old(result)@ + percent_escape(b),
{
    push_char(result, '%');
    push_char(result, to_hex_upper((b >> 4u32) & 0xF));
    push_char(result, to_hex_upper(b & 0xF));
    assert(final(result)@ =~= old(result)@ + percent_escape(b));
}

/// An upper-case hexadecimal digit.
pub open spec fn is_upper_hex_digit(c: char) -> bool {
    ('0' <= c && c <= '9') || ('A' <= c && c <= 'F')
}

/// A character the URI output may contain: a percent sign, an upper-case
/// hex digit, or a 7-bit character whose mask bit is set.
pub open spec fn uri_output_char_ok(masks: Seq<u32>, c: char) -> bool {
    c == '%' || is_upper_hex_digit(c) || ((c as u32) <= 127 && mask_bit(masks, c as u32))
}

/// The RFC 3986 unreserved code points: digits, letters, `-`, `.`, `_`,
/// `~`.
pub open spec fn uri_unreserved(cp: u32) -> bool {
    (48 <= cp && cp <= 57) || (65 <= cp && cp <= 90) || (97 <= cp && cp <= 122) || cp == 45
        || cp == 46 || cp == 95 || cp == 126
}

/// The generic-delimiter and sub-delimiter code points the full-URI mode
/// keeps: `! # $ & ' ( ) * + , : ; = / ? @ [ ]`.
pub open spec fn uri_full_reserved(cp: u32) -> bool {
    cp == 33 || cp == 35 || cp == 36 || cp == 63 || cp == 38 || cp == 39 || cp == 40 || cp == 41
        || cp == 42 || cp == 43 || cp == 44 || cp == 58 || cp == 59 || cp == 61 || cp == 47
        || cp == 64 || cp == 91 || cp == 93
}

/// Which bits each mask word holds, stated over the code point it stands
/// for.
proof fn lemma_uri_word_bits()
    by (bit_vector)
    ensures
        forall|cp: u32|
            cp <= 127 ==> (((#[trigger] (cp >> 5u32)) == 0 <==> cp < 32) && ((cp >> 5u32) == 1
                <==> (32 <= cp && cp < 64)) && ((cp >> 5u32) == 2 <==> (64 <= cp && cp < 96)) && ((
            cp >> 5u32) == 3 <==> (96 <= cp && cp <= 127))),
        forall|cp: u32| 0u32 & (#[trigger] (1u32 << (cp & 31))) == 0,
        forall|cp: u32|
            (32 <= cp && cp < 64) ==> ((((0x3FFu32 << 16u32) | (1u32 << 13u32) | (1u32 << 14u32))
                & (#[trigger] (1u32 << (cp & 31))) != 0) <==> ((48 <= cp && cp <= 57) || cp == 45
                || cp == 46)),
        forall|cp: u32|
            (64 <= cp && cp < 96) ==> ((((0x3FF_FFFFu32 << 1u32) | (1u32 << 31u32)) & (#[trigger] (
            1u32 << (cp & 31))) != 0) <==> ((65 <= cp && cp <= 90) || cp == 95)),
        forall|cp: u32|
            (96 <= cp && cp <= 127) ==> ((((0x3FF_FFFFu32 << 1u32) | (1u32 << 30u32)) & (
            #[trigger] (1u32 << (cp & 31))) != 0) <==> ((97 <= cp && cp <= 122) || cp == 126)),
        forall|cp: u32|
            (32 <= cp && cp < 64) ==> (((((0x3FFu32 << 16u32) | (1u32 << 13u32) | (1u32 << 14u32))
                | ((1u32 << 1u32) | (1u32 << 3u32) | (1u32 << 4u32) | (1u32 << 31u32) | (1u32
                << 6u32) | (1u32 << 7u32) | (1u32 << 8u32) | (1u32 << 9u32) | (1u32 << 10u32) | (
            1u32 << 11u32) | (1u32 << 12u32) | (1u32 << 26u32) | (1u32 << 27u32) | (1u32 << 29u32)
                | (1u32 << 15u32))) & (#[trigger] (1u32 << (cp & 31))) != 0) <==> ((48 <= cp && cp
                <= 57) || cp == 45 || cp == 46 || cp == 33 || cp == 35 || cp == 36 || cp == 63
                || cp == 38 || cp == 39 || cp == 40 || cp == 41 || cp == 42 || cp == 43 || cp
                == 44 || cp == 58 || cp == 59 || cp == 61 || cp == 47)),
        forall|cp: u32|
            (64 <= cp && cp < 96) ==> (((((0x3FF_FFFFu32 << 1u32) | (1u32 << 31u32)) | ((1u32
                << 0u32) | (1u32 << 27u32) | (1u32 << 29u32))) & (#[trigger] (1u32 << (cp & 31)))
                != 0) <==> ((65 <= cp && cp <= 90) || cp == 95 || cp == 64 || cp == 91 || cp
                == 93)),
{
}

/// What a set mask bit means for each mode: exactly the unreserved code
/// points, plus the reserved punctuation in the full-URI mode.
pub proof fn lemma_uri_mask_semantics(mode: UriEncoderMode)
    ensures
        forall|cp: u32|
            cp <= 127 ==> (#[trigger] mask_bit(uri_masks(mode), cp) <==> (uri_unreserved(cp) || (
            mode is FullUri && uri_full_reserved(cp)))),
{
    lemma_uri_word_bits();
    assert forall|cp: u32| cp <= 127 implies (#[trigger] mask_bit(uri_masks(mode), cp) <==> (
    uri_unreserved(cp) || (mode is FullUri && uri_full_reserved(cp)))) by {
        if cp < 32 {
            assert(uri_masks(mode)[(cp >> 5u32) as int] == 0u32);
        }
    }
}

/// What one character's encoding may contain: only percent escapes and
/// mask-valid characters.
proof fn lemma_uri_unit_output_chars(masks: Seq<u32>, c: char)
    ensures
        forall|k: int|
            0 <= k < uri_encode_char(masks, c).len() ==> uri_output_char_ok(
                masks,
                #[trigger] uri_encode_char(masks, c)[k],
            ),
{
}

/// Total coverage for the URI profile: whatever the input, every character
/// of the encoding is a percent sign, an upper-case hex digit, or a 7-bit
/// character whose mask bit is set — nothing else survives.
pub proof fn lemma_uri_encode_output_chars(masks: Seq<u32>, s: Seq<char>)
    ensures
        forall|k: int|
            0 <= k < uri_encode_seq(masks, s).len() ==> uri_output_char_ok(
                masks,
                #[trigger] uri_encode_seq(masks, s)[k],
            ),
    decreases s.len(),
{
    if s.len() > 0 {
        lemma_uri_encode_output_chars(masks, s.drop_last());
        lemma_uri_unit_output_chars(masks, s.last());
        let prev = uri_encode_seq(masks, s.drop_last());
        let unit = uri_encode_char(masks, s.last());
        assert forall|k: int| 0 <= k < uri_encode_seq(masks, s).len() implies uri_encode_seq(
            masks,
            s,
        )[k] == (if k < prev.len() {
            prev[k]
        } else {
            unit[k - prev.len()]
        }) by {
            assert(uri_encode_seq(masks, s) == prev + unit);
        }
    }
}

/// Idempotence of safety: re-encoding an encoded output still yields only
/// percent escapes and mask-valid characters; no context-breaking
/// character is reintroduced (the encoding itself need not be idempotent).
pub proof fn lemma_uri_reencode_safe(masks: Seq<u32>, s: Seq<char>)
    ensures
        forall|k: int|
            0 <= k < uri_encode_seq(masks, uri_encode_seq(masks, s)).len() ==> uri_output_char_ok(
                masks,
                #[trigger] uri_encode_seq(masks, uri_encode_seq(masks, s))[k],
            ),
{
    lemma_uri_encode_output_chars(masks, uri_encode_seq(masks, s));
}

/// Total coverage, stated for the component mode: every character of the
/// encoding is a percent sign, an upper-case hex digit, or an RFC 3986
/// unreserved character.
pub proof fn lemma_uri_component_coverage(s: Seq<char>)
    ensures
        forall|k: int|
            0 <= k < uri_encode_seq(uri_masks(UriEncoderMode::Component), s).len() ==> ((
            #[trigger] uri_encode_seq(uri_masks(UriEncoderMode::Component), s)[k]) == '%'
                || is_upper_hex_digit(uri_encode_seq(uri_masks(UriEncoderMode::Component), s)[k])
                || uri_unreserved(
                uri_encode_seq(uri_masks(UriEncoderMode::Component), s)[k] as u32,
            )),
{
    lemma_uri_encode_output_chars(uri_masks(UriEncoderMode::Component), s);
    lemma_uri_mask_semantics(UriEncoderMode::Component);
}

/// Total coverage, stated for the full-URI mode: every character of the
/// encoding is a percent sign, an upper-case hex digit, an unreserved
/// character, or one of the kept reserved punctuation characters.
pub proof fn lemma_uri_full_coverage(s: Seq<char>)
    ensures
        forall|k: int|
            0 <= k < uri_encode_seq(uri_masks(UriEncoderMode::FullUri), s).len() ==> ((#[trigger]
            uri_encode_seq(uri_masks(UriEncoderMode::FullUri), s)[k]) == '%'
                || is_upper_hex_digit(uri_encode_seq(uri_masks(UriEncoderMode::FullUri), s)[k])
                || uri_unreserved(uri_encode_seq(uri_masks(UriEncoderMode::FullUri), s)[k] as u32)
                || uri_full_reserved(
                uri_encode_seq(uri_masks(UriEncoderMode::FullUri), s)[k] as u32,
            )),
{
    lemma_uri_encode_output_chars(uri_masks(UriEncoderMode::FullUri), s);
    lemma_uri_mask_semantics(UriEncoderMode::FullUri);
}

/// A string of mask-valid 7-bit characters is left unchanged: the general
/// rule behind a well-formed full URI surviving encoding verbatim.
pub proof fn lemma_uri_encode_valid_unchanged(masks: Seq<u32>, s: Seq<char>)
    requires
        forall|i: int|
            0 <= i < s.len() ==> ((#[trigger] s[i]) as u32) <= 127 && mask_bit(
                masks,
                s[i] as u32,
            ),
    ensures
        uri_encode_seq(masks, s) == s,
    decreases s.len(),
{
    if s.len() == 0 {
        assert(uri_encode_seq(masks, s) =~= s);
    } else {
        lemma_uri_encode_valid_unchanged(masks, s.drop_last());
        assert(uri_encode_char(masks, s.last()) =~= seq![s.last()]);
        assert(uri_encode_seq(masks, s) =~= s);
    }
}

} // verus!
