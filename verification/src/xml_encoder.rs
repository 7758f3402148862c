//! XML profile: entity substitution for markup characters together with the
//! XML character-validity rule — control characters outside the small allowed
//! set, the non-character block `U+FDD0..=U+FDEF`, and everything above
//! `U+FFFD` are replaced by a placeholder space.

use vstd::prelude::*;

use crate::common::{char_bucket, char_mask, mask_bit, shrink_string, str_chars,
    string_with_capacity, push_char};

verus! {

pub enum XmlEncoderMode {
    All,
    Content,
    Attribute,
    SingleQuotedAttribute,
    DoubleQuotedAttribute,
}

pub struct XmlEncoder {
    valid_masks: [u32; 4],
}

/// Bits for the always-valid control characters: tab, line feed, form feed
/// and carriage return (code points 9, 10, 12 and 13).
pub open spec fn xml_base_word() -> u32 {
    (1u32 << 9u32) | (1u32 << 10u32) | (1u32 << 12u32) | (1u32 << 13u32)
}

/// Bits, within the bucket of code points 32..=63, of the characters the
/// mode turns into entities: `&` is 38, `"` is 34, `'` is 39, `<` is 60,
/// `>` is 62; each holds bit `code point & 31`.
pub open spec fn xml_encoded_word(mode: XmlEncoderMode) -> u32 {
    match mode {
        XmlEncoderMode::All => (1u32 << 6u32) | (1u32 << 28u32) | (1u32 << 30u32) | (1u32 << 7u32)
            | (1u32 << 2u32),
        XmlEncoderMode::Content => (1u32 << 6u32) | (1u32 << 28u32) | (1u32 << 30u32),
        XmlEncoderMode::Attribute => (1u32 << 6u32) | (1u32 << 28u32) | (1u32 << 7u32) | (1u32
            << 2u32),
        XmlEncoderMode::SingleQuotedAttribute => (1u32 << 6u32) | (1u32 << 28u32) | (1u32 << 7u32),
        XmlEncoderMode::DoubleQuotedAttribute => (1u32 << 6u32) | (1u32 << 28u32) | (1u32
            << 2u32),
    }
}

/// The four mask words the mode compiles to, covering code points 0..=127.
pub open spec fn xml_masks(mode: XmlEncoderMode) -> Seq<u32> {
    seq![xml_base_word(), u32::MAX & !xml_encoded_word(mode), u32::MAX, u32::MAX]
}

/// What one character encodes to: pass through when it is above `>` or its
/// mask bit is set, otherwise an entity for the five markup characters or
/// the placeholder; above ASCII, the XML validity rule decides.
pub open spec fn xml_encode_char(masks: Seq<u32>, c: char) -> Seq<char> {
    let cp = c as u32;
    if cp < 127 {
        if c > '>' || mask_bit(masks, cp) {
            seq![c]
        } else if c == '&' {
            seq!['&', 'a', 'm', 'p', ';']
        } else if c == '<' {
            seq!['&', 'l', 't', ';']
        } else if c == '>' {
            seq!['&', 'g', 't', ';']
        } else if c == '\'' {
            seq!['&', '#', '3', '9', ';']
        } else if c == '"' {
            seq!['&', '#', '3', '4', ';']
        } else {
            seq![' ']
        }
    } else if cp > 0xFFFD || (0xFDD0 <= cp && cp <= 0xFDEF) {
        seq![' ']
    } else {
        seq![c]
    }
}

/// The whole encoding: the concatenation of each character's encoding.
pub open spec fn xml_encode_seq(masks: Seq<u32>, s: Seq<char>) -> Seq<char>
    decreases s.len(),
{
    if s.len() == 0 {
        Seq::empty()
    } else {
        xml_encode_seq(masks, s.drop_last()) + xml_encode_char(masks, s.last())
    }
}

impl View for XmlEncoder {
    type V = Seq<u32>;

    closed spec fn view(&self) -> Seq<u32> {
        self.valid_masks@
    }
}

impl XmlEncoder {
    pub fn new(mode: XmlEncoderMode) -> (r: Self)
        ensures
            r@ == xml_masks(mode),
    {
        let base_mask: u32 = (1u32 << 9u32) | (1u32 << 10u32) | (1u32 << 12u32) | (1u32 << 13u32);
        let to_be_encoded_mask: u32 = match mode {
            XmlEncoderMode::All => (1u32 << 6u32) | (1u32 << 28u32) | (1u32 << 30u32) | (1u32
                << 7u32) | (1u32 << 2u32),
            XmlEncoderMode::Content => (1u32 << 6u32) | (1u32 << 28u32) | (1u32 << 30u32),
            XmlEncoderMode::Attribute => (1u32 << 6u32) | (1u32 << 28u32) | (1u32 << 7u32) | (1u32
                << 2u32),
            XmlEncoderMode::SingleQuotedAttribute => (1u32 << 6u32) | (1u32 << 28u32) | (1u32
                << 7u32),
            XmlEncoderMode::DoubleQuotedAttribute => (1u32 << 6u32) | (1u32 << 28u32) | (1u32
                << 2u32),
        };
        let valid_masks: [u32; 4] = [base_mask, u32::MAX & !to_be_encoded_mask, u32::MAX, u32::MAX];
        let r = Self { valid_masks };
        proof {
            assert(r@ =~= xml_masks(mode));
        }
        r
    }

    pub fn encode(&self, input: &str) -> (out: String)
        ensures
            out@ == xml_encode_seq(self@, input@),
    {
        let chars = str_chars(input);
        let len = input.len();
        let cap: usize = if len > 0x1999_9999 {
            0x7FFF_FFFF
        } else {
            len * 5
        };
        let mut result = string_with_capacity(cap);
        let n = chars.len();
        for i in 0..n
            invariant
                n == chars.len(),
                chars@ == input@,
                self@.len() == 4,
                result@ == xml_encode_seq(self@, input@.take(i as int)),
        {
            let c = chars[i];
            let cp = c as u32;
            if cp < 127 {
                let bucket = char_bucket(c);
                let mask = char_mask(c);
                proof {
                    assert(cp < 127 ==> (cp >> 5u32) < 4) by (bit_vector);
                }
                if c > '>' || self.valid_masks[bucket] & mask != 0 {
                    push_char(&mut result, c);
                } else if c == '&' {
                    push_char(&mut result, '&');
                    push_char(&mut result, 'a');
                    push_char(&mut result, 'm');
                    push_char(&mut result, 'p');
                    push_char(&mut result, ';');
                } else if c == '<' {
                    push_char(&mut result, '&');
                    push_char(&mut result, 'l');
                    push_char(&mut result, 't');
                    push_char(&mut result, ';');
                } else if c == '>' {
                    push_char(&mut result, '&');
                    push_char(&mut result, 'g');
                    push_char(&mut result, 't');
                    push_char(&mut result, ';');
                } else if c == '\'' {
                    push_char(&mut result, '&');
                    push_char(&mut result, '#');
                    push_char(&mut result, '3');
                    push_char(&mut result, '9');
                    push_char(&mut result, ';');
                } else if c == '"' {
                    push_char(&mut result, '&');
                    push_char(&mut result, '#');
                    push_char(&mut result, '3');
                    push_char(&mut result, '4');
                    push_char(&mut result, ';');
                } else {
                    push_char(&mut result, ' ');
                }
            } else if cp > 0xFFFD || (cp >= 0xFDD0 && cp <= 0xFDEF) {
                push_char(&mut result, ' ');
            } else {
                push_char(&mut result, c);
            }
            proof {
                let pre = input@.take(i as int);
                let now = input@.take(i + 1);
                assert(now.drop_last() =~= pre);
                assert(now.last() == c);
                assert(result@ =~= xml_encode_seq(self@, pre) + xml_encode_char(self@, c));
            }
        }
        proof {
            assert(input@.take(n as int) =~= input@);
        }
        shrink_string(&mut result);
        result
    }
}

/// Bit facts about the mode words: the bit of each character a mode turns
/// into an entity is cleared in its word, and the markup characters select
/// word one of the table.
proof fn lemma_xml_word_bits()
    by (bit_vector)
    ensures
        60u32 >> 5u32 == 1 && 62u32 >> 5u32 == 1 && 34u32 >> 5u32 == 1 && 39u32 >> 5u32 == 1
            && 38u32 >> 5u32 == 1,
        forall|cp: u32| cp < 32 ==> (#[trigger] (cp >> 5u32)) == 0,
        forall|cp: u32|
            cp < 32 ==> (((((1u32 << 9u32) | (1u32 << 10u32) | (1u32 << 12u32) | (1u32 << 13u32))
                & (#[trigger] (1u32 << (cp & 31)))) != 0) <==> (cp == 9 || cp == 10 || cp == 12
                || cp == 13)),
        (0xFFFF_FFFFu32 & !((1u32 << 6u32) | (1u32 << 28u32) | (1u32 << 30u32) | (1u32 << 7u32)
            | (1u32 << 2u32))) & (1u32 << (38u32 & 31)) == 0,
        (0xFFFF_FFFFu32 & !((1u32 << 6u32) | (1u32 << 28u32) | (1u32 << 30u32))) & (1u32 << (
        38u32 & 31)) == 0,
        (0xFFFF_FFFFu32 & !((1u32 << 6u32) | (1u32 << 28u32) | (1u32 << 7u32) | (1u32 << 2u32)))
            & (1u32 << (38u32 & 31)) == 0,
        (0xFFFF_FFFFu32 & !((1u32 << 6u32) | (1u32 << 28u32) | (1u32 << 7u32))) & (1u32 << (38u32
            & 31)) == 0,
        (0xFFFF_FFFFu32 & !((1u32 << 6u32) | (1u32 << 28u32) | (1u32 << 2u32))) & (1u32 << (38u32
            & 31)) == 0,
        (0xFFFF_FFFFu32 & !((1u32 << 6u32) | (1u32 << 28u32) | (1u32 << 30u32) | (1u32 << 7u32)
            | (1u32 << 2u32))) & (1u32 << (60u32 & 31)) == 0,
        (0xFFFF_FFFFu32 & !((1u32 << 6u32) | (1u32 << 28u32) | (1u32 << 30u32) | (1u32 << 7u32)
            | (1u32 << 2u32))) & (1u32 << (62u32 & 31)) == 0,
        (0xFFFF_FFFFu32 & !((1u32 << 6u32) | (1u32 << 28u32) | (1u32 << 30u32) | (1u32 << 7u32)
            | (1u32 << 2u32))) & (1u32 << (34u32 & 31)) == 0,
        (0xFFFF_FFFFu32 & !((1u32 << 6u32) | (1u32 << 28u32) | (1u32 << 30u32) | (1u32 << 7u32)
            | (1u32 << 2u32))) & (1u32 << (39u32 & 31)) == 0,
        (0xFFFF_FFFFu32 & !((1u32 << 6u32) | (1u32 << 28u32) | (1u32 << 30u32))) & (1u32 << (
        60u32 & 31)) == 0,
        (0xFFFF_FFFFu32 & !((1u32 << 6u32) | (1u32 << 28u32) | (1u32 << 30u32))) & (1u32 << (
        62u32 & 31)) == 0,
        (0xFFFF_FFFFu32 & !((1u32 << 6u32) | (1u32 << 28u32) | (1u32 << 7u32) | (1u32 << 2u32)))
            & (1u32 << (60u32 & 31)) == 0,
        (0xFFFF_FFFFu32 & !((1u32 << 6u32) | (1u32 << 28u32) | (1u32 << 7u32) | (1u32 << 2u32)))
            & (1u32 << (34u32 & 31)) == 0,
        (0xFFFF_FFFFu32 & !((1u32 << 6u32) | (1u32 << 28u32) | (1u32 << 7u32) | (1u32 << 2u32)))
            & (1u32 << (39u32 & 31)) == 0,
        (0xFFFF_FFFFu32 & !((1u32 << 6u32) | (1u32 << 28u32) | (1u32 << 7u32))) & (1u32 << (60u32
            & 31)) == 0,
        (0xFFFF_FFFFu32 & !((1u32 << 6u32) | (1u32 << 28u32) | (1u32 << 7u32))) & (1u32 << (39u32
            & 31)) == 0,
        (0xFFFF_FFFFu32 & !((1u32 << 6u32) | (1u32 << 28u32) | (1u32 << 2u32))) & (1u32 << (60u32
            & 31)) == 0,
        (0xFFFF_FFFFu32 & !((1u32 << 6u32) | (1u32 << 28u32) | (1u32 << 2u32))) & (1u32 << (34u32
            & 31)) == 0,
{
}

/// What one character's encoding never contains: `<` under every mode, `>`
/// under the modes that encode it, and each quote under the modes that
/// encode it.
proof fn lemma_xml_unit_no_markup(mode: XmlEncoderMode, c: char)
    ensures
        forall|k: int|
            0 <= k < xml_encode_char(xml_masks(mode), c).len() ==> (#[trigger] xml_encode_char(
                xml_masks(mode),
                c,
            )[k]) != '<',
        (mode is All || mode is Content) ==> forall|k: int|
            0 <= k < xml_encode_char(xml_masks(mode), c).len() ==> (#[trigger] xml_encode_char(
                xml_masks(mode),
                c,
            )[k]) != '>',
        (mode is All || mode is Attribute || mode is DoubleQuotedAttribute) ==> forall|k: int|
            0 <= k < xml_encode_char(xml_masks(mode), c).len() ==> (#[trigger] xml_encode_char(
                xml_masks(mode),
                c,
            )[k]) != '"',
        (mode is All || mode is Attribute || mode is SingleQuotedAttribute) ==> forall|k: int|
            0 <= k < xml_encode_char(xml_masks(mode), c).len() ==> (#[trigger] xml_encode_char(
                xml_masks(mode),
                c,
            )[k]) != '\'',
{
    lemma_xml_word_bits();
}

/// Total coverage for the XML profile: whatever the input, the encoding
/// contains no unescaped `<` under any mode, no `>` under the modes that
/// encode it, and no quote of the kinds the mode encodes; the markup the
/// caller's context cares about cannot survive.
pub proof fn lemma_xml_encode_no_markup(mode: XmlEncoderMode, s: Seq<char>)
    ensures
        forall|k: int|
            0 <= k < xml_encode_seq(xml_masks(mode), s).len() ==> (#[trigger] xml_encode_seq(
                xml_masks(mode),
                s,
            )[k]) != '<',
        (mode is All || mode is Content) ==> forall|k: int|
            0 <= k < xml_encode_seq(xml_masks(mode), s).len() ==> (#[trigger] xml_encode_seq(
                xml_masks(mode),
                s,
            )[k]) != '>',
        (mode is All || mode is Attribute || mode is DoubleQuotedAttribute) ==> forall|k: int|
            0 <= k < xml_encode_seq(xml_masks(mode), s).len() ==> (#[trigger] xml_encode_seq(
                xml_masks(mode),
                s,
            )[k]) != '"',
        (mode is All || mode is Attribute || mode is SingleQuotedAttribute) ==> forall|k: int|
            0 <= k < xml_encode_seq(xml_masks(mode), s).len() ==> (#[trigger] xml_encode_seq(
                xml_masks(mode),
                s,
            )[k]) != '\'',
    decreases s.len(),
{
    if s.len() > 0 {
        lemma_xml_encode_no_markup(mode, s.drop_last());
        lemma_xml_unit_no_markup(mode, s.last());
        let prev = xml_encode_seq(xml_masks(mode), s.drop_last());
        let unit = xml_encode_char(xml_masks(mode), s.last());
        assert forall|k: int|
            0 <= k < xml_encode_seq(xml_masks(mode), s).len() implies xml_encode_seq(
            xml_masks(mode),
            s,
        )[k] == (if k < prev.len() {
            prev[k]
        } else {
            unit[k - prev.len()]
        }) by {
            assert(xml_encode_seq(xml_masks(mode), s) == prev + unit);
        }
    }
}

/// Idempotence of safety: re-encoding an already encoded string under the
/// same mode never reintroduces an unescaped context-breaking character —
/// the doubly encoded output satisfies the same absence guarantees as the
/// singly encoded one (the encoding itself need not be idempotent).
pub proof fn lemma_xml_reencode_safe(mode: XmlEncoderMode, s: Seq<char>)
    ensures
        forall|k: int|
            0 <= k < xml_encode_seq(xml_masks(mode), xml_encode_seq(xml_masks(mode), s)).len()
                ==> (#[trigger] xml_encode_seq(
                xml_masks(mode),
                xml_encode_seq(xml_masks(mode), s),
            )[k]) != '<',
{
    lemma_xml_encode_no_markup(mode, xml_encode_seq(xml_masks(mode), s));
}

/// One of the five entities the encoder emits, starting at position `k`
/// of `out`.
pub open spec fn xml_entity_at(out: Seq<char>, k: int) -> bool {
    ||| (k + 5 <= out.len() && out.subrange(k, k + 5) == seq!['&', 'a', 'm', 'p', ';'])
    ||| (k + 4 <= out.len() && out.subrange(k, k + 4) == seq!['&', 'l', 't', ';'])
    ||| (k + 4 <= out.len() && out.subrange(k, k + 4) == seq!['&', 'g', 't', ';'])
    ||| (k + 5 <= out.len() && out.subrange(k, k + 5) == seq!['&', '#', '3', '9', ';'])
    ||| (k + 5 <= out.len() && out.subrange(k, k + 5) == seq!['&', '#', '3', '4', ';'])
}

/// An ampersand occurs in one character's encoding only as the head of an
/// entity.
proof fn lemma_xml_unit_amp(mode: XmlEncoderMode, c: char)
    ensures
        forall|j: int|
            0 <= j < xml_encode_char(xml_masks(mode), c).len() && (#[trigger] xml_encode_char(
                xml_masks(mode),
                c,
            )[j]) == '&' ==> (j == 0 && xml_entity_at(xml_encode_char(xml_masks(mode), c), 0)),
{
    lemma_xml_word_bits();
    let unit = xml_encode_char(xml_masks(mode), c);
    if (c as u32) < 127 && !(c > '>' || mask_bit(xml_masks(mode), c as u32)) {
        if c == '&' {
            assert(unit.subrange(0, 5) =~= unit);
        } else if c == '<' {
            assert(unit.subrange(0, 4) =~= unit);
        } else if c == '>' {
            assert(unit.subrange(0, 4) =~= unit);
        } else if c == '\'' {
            assert(unit.subrange(0, 5) =~= unit);
        } else if c == '"' {
            assert(unit.subrange(0, 5) =~= unit);
        }
    }
}

/// Every ampersand in the encoding heads one of the five entities the
/// encoder itself emitted: no bare `&` survives, under any mode.
pub proof fn lemma_xml_every_amp_heads_entity(mode: XmlEncoderMode, s: Seq<char>)
    ensures
        forall|k: int|
            0 <= k < xml_encode_seq(xml_masks(mode), s).len() && (#[trigger] xml_encode_seq(
                xml_masks(mode),
                s,
            )[k]) == '&' ==> xml_entity_at(xml_encode_seq(xml_masks(mode), s), k),
    decreases s.len(),
{
    if s.len() > 0 {
        lemma_xml_every_amp_heads_entity(mode, s.drop_last());
        lemma_xml_unit_amp(mode, s.last());
        let out = xml_encode_seq(xml_masks(mode), s);
        let prev = xml_encode_seq(xml_masks(mode), s.drop_last());
        let unit = xml_encode_char(xml_masks(mode), s.last());
        assert forall|k: int| 0 <= k < out.len() implies out[k] == (if k < prev.len() {
            prev[k]
        } else {
            unit[k - prev.len()]
        }) by {
            assert(out == prev + unit);
        }
        assert forall|k: int| 0 <= k < out.len() && out[k] == '&' implies xml_entity_at(
            out,
            k,
        ) by {
            if k < prev.len() {
                assert(prev[k] == '&');
                if k + 5 <= prev.len() && prev.subrange(k, k + 5) == seq!['&', 'a', 'm', 'p', ';'] {
                    assert(out.subrange(k, k + 5) =~= prev.subrange(k, k + 5));
                }
                if k + 4 <= prev.len() && prev.subrange(k, k + 4) == seq!['&', 'l', 't', ';'] {
                    assert(out.subrange(k, k + 4) =~= prev.subrange(k, k + 4));
                }
                if k + 4 <= prev.len() && prev.subrange(k, k + 4) == seq!['&', 'g', 't', ';'] {
                    assert(out.subrange(k, k + 4) =~= prev.subrange(k, k + 4));
                }
                if k + 5 <= prev.len() && prev.subrange(k, k + 5) == seq!['&', '#', '3', '9', ';'] {
                    assert(out.subrange(k, k + 5) =~= prev.subrange(k, k + 5));
                }
                if k + 5 <= prev.len() && prev.subrange(k, k + 5) == seq!['&', '#', '3', '4', ';'] {
                    assert(out.subrange(k, k + 5) =~= prev.subrange(k, k + 5));
                }
            } else {
                assert(unit[k - prev.len()] == '&');
                assert(k == prev.len());
                if 5 <= unit.len() && unit.subrange(0, 5) == seq!['&', 'a', 'm', 'p', ';'] {
                    assert(out.subrange(k, k + 5) =~= unit.subrange(0, 5));
                }
                if 4 <= unit.len() && unit.subrange(0, 4) == seq!['&', 'l', 't', ';'] {
                    assert(out.subrange(k, k + 4) =~= unit.subrange(0, 4));
                }
                if 4 <= unit.len() && unit.subrange(0, 4) == seq!['&', 'g', 't', ';'] {
                    assert(out.subrange(k, k + 4) =~= unit.subrange(0, 4));
                }
                if 5 <= unit.len() && unit.subrange(0, 5) == seq!['&', '#', '3', '9', ';'] {
                    assert(out.subrange(k, k + 5) =~= unit.subrange(0, 5));
                }
                if 5 <= unit.len() && unit.subrange(0, 5) == seq!['&', '#', '3', '4', ';'] {
                    assert(out.subrange(k, k + 5) =~= unit.subrange(0, 5));
                }
            }
        }
    }
}

/// A code point the XML character-validity rule accepts: the three allowed
/// controls, or anything from the space up to `U+FFFD` (surrogates can
/// hold no `char`).
pub open spec fn xml_valid_char(cp: u32) -> bool {
    cp == 9 || cp == 0xA || cp == 0xD || (0x20 <= cp && cp <= 0xD7FF) || (0xE000 <= cp && cp
        <= 0xFFFD)
}

/// One character's encoding holds only valid characters, for any input
/// character but the form feed (which the profile passes through).
proof fn lemma_xml_unit_valid_chars(mode: XmlEncoderMode, c: char)
    requires
        c != '\u{000C}',
    ensures
        forall|j: int|
            0 <= j < xml_encode_char(xml_masks(mode), c).len() ==> xml_valid_char(
                (#[trigger] xml_encode_char(xml_masks(mode), c)[j]) as u32,
            ),
{
    lemma_xml_word_bits();
}

/// Total coverage of the validity rule: for any input without a form feed,
/// every character of the encoding is XML-valid, under any mode.  (A form
/// feed itself is kept, as the profile's excluded-controls list says, and
/// is the one character that escapes this rule.)
pub proof fn lemma_xml_encode_valid_chars(mode: XmlEncoderMode, s: Seq<char>)
    requires
        forall|i: int| 0 <= i < s.len() ==> (#[trigger] s[i]) != '\u{000C}',
    ensures
        forall|k: int|
            0 <= k < xml_encode_seq(xml_masks(mode), s).len() ==> xml_valid_char(
                (#[trigger] xml_encode_seq(xml_masks(mode), s)[k]) as u32,
            ),
    decreases s.len(),
{
    if s.len() > 0 {
        assert forall|i: int| 0 <= i < s.drop_last().len() implies (#[trigger] s.drop_last()[i])
            != '\u{000C}' by {
            assert(s.drop_last()[i] == s[i]);
        }
        lemma_xml_encode_valid_chars(mode, s.drop_last());
        lemma_xml_unit_valid_chars(mode, s.last());
        let prev = xml_encode_seq(xml_masks(mode), s.drop_last());
        let unit = xml_encode_char(xml_masks(mode), s.last());
        assert forall|k: int|
            0 <= k < xml_encode_seq(xml_masks(mode), s).len() implies xml_encode_seq(
            xml_masks(mode),
            s,
        )[k] == (if k < prev.len() {
            prev[k]
        } else {
            unit[k - prev.len()]
        }) by {
            assert(xml_encode_seq(xml_masks(mode), s) == prev + unit);
        }
    }
}

} // verus!
