//! Hexadecimal, Base64, UTF-8 and identifier text, each stated as the text or
//! the bytes that the format assigns.

use crate::text;
use base64::engine::general_purpose::STANDARD;
use base64::Engine;
use vstd::prelude::*;

verus! {

/// A value below sixteen as a lower-case hexadecimal digit.
pub open spec fn hex_digit(v: int) -> char {
    if v < 10 {
        ('0' as u32 + v) as u32 as char
    } else {
        ('a' as u32 + (v - 10)) as u32 as char
    }
}

/// Two lower-case hexadecimal digits for each byte, the high half first.
pub open spec fn hex_text(bytes: Seq<u8>) -> Seq<char> {
    Seq::new(
        2 * bytes.len(),
        |i: int|
            hex_digit(
                if i % 2 == 0 {
                    bytes[i / 2] as int / 16
                } else {
                    bytes[i / 2] as int % 16
                },
            ),
    )
}

/// The value of a hexadecimal digit in either case.
pub open spec fn hex_digit_value(c: char) -> Option<int> {
    let u = c as int;
    if '0' as int <= u <= '9' as int {
        Some(u - '0' as int)
    } else if 'a' as int <= u <= 'f' as int {
        Some(u - 'a' as int + 10)
    } else if 'A' as int <= u <= 'F' as int {
        Some(u - 'A' as int + 10)
    } else {
        None
    }
}

/// The bytes that a hexadecimal text stands for: an even number of digits, in
/// either case, and nothing else.
pub open spec fn hex_value(s: Seq<char>) -> Option<Seq<u8>> {
    if s.len() % 2 == 0 && (forall|i: int|
        0 <= i < s.len() ==> hex_digit_value(#[trigger] s[i]) is Some) {
        Some(
            Seq::new(
                (s.len() / 2) as nat,
                |i: int|
                    (16 * hex_digit_value(s[2 * i])->0 + hex_digit_value(s[2 * i + 1])->0) as u8,
            ),
        )
    } else {
        None
    }
}

/// `hex::encode` writes two lower-case digits for each byte.
#[verifier::external_body]
pub(crate) fn hex_encode(bytes: &[u8]) -> (res: String)
    ensures
        res@ == hex_text(bytes@),
{
    hex::encode(bytes)
}

/// `hex::decode` reads an even number of digits in either case and refuses
/// everything else.
#[verifier::external_body]
pub(crate) fn hex_decode(s: &str) -> (res: Option<Vec<u8>>)
    ensures
        res is Some <==> hex_value(s@) is Some,
        res matches Some(bytes) ==> hex_value(s@) == Some(bytes@),
{
    hex::decode(s).ok()
}

/// Reading back what was written in hexadecimal gives the same bytes.
pub proof fn hex_round_trip(bytes: Seq<u8>)
    ensures
        hex_value(hex_text(bytes)) == Some(bytes),
{
    let s = hex_text(bytes);
    assert forall|i: int| 0 <= i < s.len() implies hex_digit_value(#[trigger] s[i]) == Some(
        if i % 2 == 0 {
            bytes[i / 2] as int / 16
        } else {
            bytes[i / 2] as int % 16
        },
    ) by {}
    let read = hex_value(s)->0;
    assert forall|i: int| 0 <= i < bytes.len() implies read[i] == bytes[i] by {
        assert((2 * i) / 2 == i && (2 * i + 1) / 2 == i);
        assert(hex_digit_value(s[2 * i]) == Some(bytes[i] as int / 16));
        assert(hex_digit_value(s[2 * i + 1]) == Some(bytes[i] as int % 16));
    }
    assert(read =~= bytes);
}

/// A text in hexadecimal is in lower case already.
pub proof fn hex_text_is_lower_case(bytes: Seq<u8>)
    ensures
        text::lowercase(hex_text(bytes)) == hex_text(bytes),
{
    let s = hex_text(bytes);
    assert forall|i: int| 0 <= i < s.len() implies (#[trigger] s[i] as u32) < 128
        && text::ascii_lower_char(s[i]) == s[i] by {}
    assert(text::ascii_lowercase(s) =~= s);
}

/// A value below sixty-four in the standard Base64 alphabet.
pub open spec fn base64_char(v: int) -> char {
    if v < 26 {
        ('A' as u32 + v) as u32 as char
    } else if v < 52 {
        ('a' as u32 + (v - 26)) as u32 as char
    } else if v < 62 {
        ('0' as u32 + (v - 52)) as u32 as char
    } else if v == 62 {
        '+'
    } else {
        '/'
    }
}

/// The standard Base64 text of some bytes, padded with equals signs: three
/// bytes are four characters of six bits each.
pub open spec fn base64_text(b: Seq<u8>) -> Seq<char>
    decreases b.len(),
{
    if b.len() == 0 {
        Seq::empty()
    } else if b.len() == 1 {
        seq![base64_char(b[0] as int / 4), base64_char(b[0] as int % 4 * 16), '=', '=']
    } else if b.len() == 2 {
        seq![
            base64_char(b[0] as int / 4),
            base64_char(b[0] as int % 4 * 16 + b[1] as int / 16),
            base64_char(b[1] as int % 16 * 4),
            '=',
        ]
    } else {
        seq![
            base64_char(b[0] as int / 4),
            base64_char(b[0] as int % 4 * 16 + b[1] as int / 16),
            base64_char(b[1] as int % 16 * 4 + b[2] as int / 64),
            base64_char(b[2] as int % 64),
        ] + base64_text(b.skip(3))
    }
}

/// The bytes whose Base64 text this is. Only the canonical text of some bytes
/// stands for them.
pub open spec fn base64_value(s: Seq<char>) -> Option<Seq<u8>> {
    if exists|b: Seq<u8>| #[trigger] base64_text(b) == s {
        Some(choose|b: Seq<u8>| #[trigger] base64_text(b) == s)
    } else {
        None
    }
}

/// `STANDARD.encode` of the crate `base64` writes the standard alphabet with
/// padding.
#[verifier::external_body]
pub(crate) fn base64_encode(bytes: &[u8]) -> (res: String)
    ensures
        res@ == base64_text(bytes@),
{
    STANDARD.encode(bytes)
}

/// `STANDARD.decode` of the crate `base64` requires canonical padding and
/// refuses stray bits in the last character: it accepts exactly the texts that
/// its encoder writes.
#[verifier::external_body]
pub(crate) fn base64_decode(s: &str) -> (res: Option<Vec<u8>>)
    ensures
        res is Some <==> base64_value(s@) is Some,
        res matches Some(bytes) ==> base64_value(s@) == Some(bytes@),
{
    STANDARD.decode(s.as_bytes()).ok()
}

proof fn lemma_base64_char(a: int, b: int)
    requires
        0 <= a < 64,
        0 <= b < 64,
    ensures
        base64_char(a) != '=',
        base64_char(a) != ':',
        base64_char(a) == base64_char(b) ==> a == b,
{
}

/// Bytes with the same Base64 text are the same.
pub proof fn base64_injective(a: Seq<u8>, b: Seq<u8>)
    requires
        base64_text(a) == base64_text(b),
    ensures
        a == b,
    decreases a.len(),
{
    let s = base64_text(a);
    let t = base64_text(b);
    if a.len() == 0 || b.len() == 0 {
        assert(s.len() == 0);
        assert(a.len() == 0 && b.len() == 0);
        assert(a =~= b);
    } else {
        let a0 = a[0] as int;
        let b0 = b[0] as int;
        let a1 = if a.len() > 1 { a[1] as int } else { 0int };
        let b1 = if b.len() > 1 { b[1] as int } else { 0int };
        let a2 = if a.len() > 2 { a[2] as int } else { 0int };
        let b2 = if b.len() > 2 { b[2] as int } else { 0int };
        assert(s[0] == base64_char(a0 / 4) && t[0] == base64_char(b0 / 4));
        assert(s[1] == base64_char(a0 % 4 * 16 + a1 / 16));
        assert(t[1] == base64_char(b0 % 4 * 16 + b1 / 16));
        assert(s[2] == if a.len() > 1 { base64_char(a1 % 16 * 4 + a2 / 64) } else { '=' });
        assert(t[2] == if b.len() > 1 { base64_char(b1 % 16 * 4 + b2 / 64) } else { '=' });
        assert(s[3] == if a.len() > 2 { base64_char(a2 % 64) } else { '=' });
        assert(t[3] == if b.len() > 2 { base64_char(b2 % 64) } else { '=' });
        lemma_base64_char(a0 / 4, b0 / 4);
        lemma_base64_char(a0 % 4 * 16 + a1 / 16, b0 % 4 * 16 + b1 / 16);
        lemma_base64_char(a1 % 16 * 4 + a2 / 64, b1 % 16 * 4 + b2 / 64);
        lemma_base64_char(b1 % 16 * 4 + b2 / 64, a1 % 16 * 4 + a2 / 64);
        lemma_base64_char(a2 % 64, b2 % 64);
        lemma_base64_char(b2 % 64, a2 % 64);
        if a.len() < 3 {
            assert(s.len() == 4);
        }
        if b.len() < 3 {
            assert(t.len() == 4);
        }
        if a.len() > 2 {
            assert(b.len() > 2);
            assert(s.skip(4) =~= base64_text(a.skip(3)));
            assert(t.skip(4) =~= base64_text(b.skip(3)));
            base64_injective(a.skip(3), b.skip(3));
            assert forall|i: int| 0 <= i < a.len() implies a[i] == b[i] by {
                if i >= 3 {
                    assert(a.skip(3)[i - 3] == b.skip(3)[i - 3]);
                }
            }
            assert(a.len() == b.len()) by {
                assert(a.skip(3).len() == b.skip(3).len());
            }
        }
        assert(a =~= b);
    }
}

/// Reading back what was written in Base64 gives the same bytes.
pub proof fn base64_round_trip(bytes: Seq<u8>)
    ensures
        base64_value(base64_text(bytes)) == Some(bytes),
{
    let s = base64_text(bytes);
    let read = choose|b: Seq<u8>| #[trigger] base64_text(b) == s;
    assert(base64_text(bytes) == s);
    base64_injective(read, bytes);
}

/// A colon never stands in a Base64 text.
pub proof fn base64_has_no_colon(b: Seq<u8>)
    ensures
        forall|i: int| 0 <= i < base64_text(b).len() ==> #[trigger] base64_text(b)[i] != ':',
    decreases b.len(),
{
    if b.len() > 0 {
        let b0 = b[0] as int;
        let b1 = if b.len() > 1 { b[1] as int } else { 0int };
        let b2 = if b.len() > 2 { b[2] as int } else { 0int };
        lemma_base64_char(b0 / 4, 0);
        lemma_base64_char(b0 % 4 * 16 + b1 / 16, 0);
        lemma_base64_char(b1 % 16 * 4 + b2 / 64, 0);
        lemma_base64_char(b2 % 64, 0);
        if b.len() > 2 {
            base64_has_no_colon(b.skip(3));
            assert forall|i: int| 0 <= i < base64_text(b).len() implies #[trigger] base64_text(b)[i]
                != ':' by {
                if i >= 4 {
                    assert(base64_text(b)[i] == base64_text(b.skip(3))[i - 4]);
                }
            }
        }
    }
}

/// The text that some bytes encode in UTF-8, where they do.
pub open spec fn utf8_value(bytes: Seq<u8>) -> Option<Seq<char>> {
    if vstd::utf8::valid_utf8(bytes) {
        Some(vstd::utf8::decode_utf8(bytes))
    } else {
        None
    }
}

/// `String::from_utf8` reads bytes as UTF-8 and refuses invalid ones.
#[verifier::external_body]
pub(crate) fn utf8_decode(bytes: Vec<u8>) -> (res: Option<String>)
    ensures
        res is Some <==> utf8_value(bytes@) is Some,
        res matches Some(text) ==> utf8_value(bytes@) == Some(text@),
{
    String::from_utf8(bytes).ok()
}

/// Reading back what was written in UTF-8 gives the same text.
pub proof fn utf8_round_trip(s: Seq<char>)
    ensures
        utf8_value(vstd::utf8::encode_utf8(s)) == Some(s),
{
    vstd::utf8::encode_utf8_valid_utf8(s);
    vstd::utf8::encode_utf8_decode_utf8(s);
}

/// The encoding of two texts in a row is the two encodings in a row.
pub proof fn lemma_utf8_concat(a: Seq<char>, b: Seq<char>)
    ensures
        vstd::utf8::encode_utf8(a + b) == vstd::utf8::encode_utf8(a) + vstd::utf8::encode_utf8(b),
    decreases a.len(),
{
    if a.len() == 0 {
        assert(a + b =~= b);
    } else {
        assert((a + b).drop_first() =~= a.drop_first() + b);
        lemma_utf8_concat(a.drop_first(), b);
        assert((a + b)[0] == a[0]);
        assert(vstd::utf8::encode_utf8(a + b) =~= vstd::utf8::encode_utf8(a)
            + vstd::utf8::encode_utf8(b));
    }
}

/// Only a NUL has a zero byte in its encoding.
pub proof fn lemma_utf8_without_zero(s: Seq<char>)
    requires
        forall|i: int| 0 <= i < s.len() ==> #[trigger] s[i] != '\0',
    ensures
        forall|i: int|
            0 <= i < vstd::utf8::encode_utf8(s).len() ==> #[trigger] vstd::utf8::encode_utf8(s)[i]
                != 0,
    decreases s.len(),
{
    if s.len() > 0 {
        let c = s[0] as u32;
        assert(s[0] != '\0');
        vstd::utf8::char_u32_cast(s[0], c);
        assert(c != 0);
        let rest = s.drop_first();
        assert forall|i: int| 0 <= i < rest.len() implies #[trigger] rest[i] != '\0' by {
            assert(rest[i] == s[i + 1]);
        }
        lemma_utf8_without_zero(rest);
        assert(0 < c <= 0x7f ==> (c & 0x7f) as u8 != 0) by (bit_vector);
        assert(0xC0u8 | ((c >> 6) & 0x1F) as u8 != 0) by (bit_vector);
        assert(0xE0u8 | ((c >> 12) & 0x0F) as u8 != 0) by (bit_vector);
        assert(0xF0u8 | ((c >> 18) & 0x7) as u8 != 0) by (bit_vector);
        assert(0x80u8 | (c & 0x3F) as u8 != 0) by (bit_vector);
        assert(0x80u8 | ((c >> 6) & 0x3F) as u8 != 0) by (bit_vector);
        assert(0x80u8 | ((c >> 12) & 0x3F) as u8 != 0) by (bit_vector);
        let head = vstd::utf8::encode_scalar(c);
        let tail = vstd::utf8::encode_utf8(rest);
        assert(forall|i: int| 0 <= i < head.len() ==> #[trigger] head[i] != 0);
        assert forall|i: int| 0 <= i < (head + tail).len() implies #[trigger] (head + tail)[i]
            != 0 by {
            if i >= head.len() {
                assert((head + tail)[i] == tail[i - head.len()]);
            }
        }
    }
}

/// Different texts have different encodings.
pub proof fn lemma_utf8_injective(a: Seq<char>, b: Seq<char>)
    requires
        vstd::utf8::encode_utf8(a) == vstd::utf8::encode_utf8(b),
    ensures
        a == b,
{
    vstd::utf8::encode_utf8_decode_utf8(a);
    vstd::utf8::encode_utf8_decode_utf8(b);
}

/// The sixteen bytes of a record identifier (a UUID).
#[derive(Clone, Copy, Debug, PartialEq, Eq)]
pub struct RecordId {
    pub bytes: [u8; 16],
}

/// The hyphenated text of an identifier: 32 lower-case hexadecimal digits in
/// groups of 8, 4, 4, 4 and 12.
pub open spec fn id_text(bytes: Seq<u8>) -> Seq<char> {
    let h = hex_text(bytes);
    h.subrange(0, 8).push('-') + h.subrange(8, 12).push('-') + h.subrange(12, 16).push('-')
        + h.subrange(16, 20).push('-') + h.subrange(20, 32)
}

/// `Display` of `uuid::Uuid` writes the hyphenated lower-case form.
#[verifier::external_body]
pub(crate) fn id_to_text(id: &RecordId) -> (res: String)
    ensures
        res@ == id_text(id.bytes@),
{
    uuid::Uuid::from_bytes(id.bytes).to_string()
}

/// `uuid::Uuid::new_v4` draws a fresh random identifier. Nothing is promised
/// of its value.
#[verifier::external_body]
pub(crate) fn random_id() -> (res: RecordId) {
    RecordId { bytes: uuid::Uuid::new_v4().into_bytes() }
}

/// Identifiers with the same text are the same.
pub proof fn id_text_injective(a: Seq<u8>, b: Seq<u8>)
    requires
        a.len() == 16,
        b.len() == 16,
        id_text(a) == id_text(b),
    ensures
        a == b,
{
    let x = hex_text(a);
    let y = hex_text(b);
    let s = id_text(a);
    let t = id_text(b);
    assert forall|i: int| 0 <= i < 32 implies x[i] == y[i] by {
        let j = if i < 8 {
            i
        } else if i < 12 {
            i + 1
        } else if i < 16 {
            i + 2
        } else if i < 20 {
            i + 3
        } else {
            i + 4
        };
        assert(s[j] == x[i]);
        assert(t[j] == y[i]);
    }
    assert(x =~= y);
    hex_round_trip(a);
    hex_round_trip(b);
}

/// The text of an identifier has thirty-six characters, all hexadecimal
/// digits or hyphens.
pub proof fn id_text_shape(bytes: Seq<u8>)
    requires
        bytes.len() == 16,
    ensures
        id_text(bytes).len() == 36,
        forall|i: int| 0 <= i < 36 ==> {
            let c = #[trigger] id_text(bytes)[i];
            c == '-' || hex_digit_value(c) is Some
        },
{
    let h = hex_text(bytes);
    assert forall|i: int| 0 <= i < 32 implies hex_digit_value(#[trigger] h[i]) is Some by {}
    let s = id_text(bytes);
    assert(s.len() == 36);
    assert forall|i: int| 0 <= i < 36 implies {
        let c = #[trigger] s[i];
        c == '-' || hex_digit_value(c) is Some
    } by {
        if i == 8 || i == 13 || i == 18 || i == 23 {
            assert(s[i] == '-');
        } else {
            let j = if i < 8 {
                i
            } else if i < 13 {
                i - 1
            } else if i < 18 {
                i - 2
            } else if i < 23 {
                i - 3
            } else {
                i - 4
            };
            assert(s[i] == h[j]);
        }
    }
}

} // verus!
