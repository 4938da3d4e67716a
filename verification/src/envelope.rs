//! The text form of a protected field: a versioned prefix, then the broker
//! handle, the redeem token and the ciphertext in Base64, with colons between.

use crate::encoding;
use crate::error;
use crate::error::{encryption_error, DbResult};
use crate::text;
use vstd::prelude::*;

verus! {

/// What a payload without a redeem token begins with.
pub open spec fn prefix_v1() -> Seq<char> {
    "aead:v1:"@
}

/// What a canonical payload begins with.
pub open spec fn prefix_v2() -> Seq<char> {
    "aead:v2:"@
}

/// The canonical payload for a handle, a redeem token and a ciphertext.
pub open spec fn payload(handle: Seq<char>, redeem_token: Seq<char>, ciphertext: Seq<u8>) -> Seq<
    char,
> {
    prefix_v2() + encoding::base64_text(vstd::utf8::encode_utf8(handle)) + seq![':']
        + encoding::base64_text(vstd::utf8::encode_utf8(redeem_token)) + seq![':']
        + encoding::base64_text(ciphertext)
}

/// The older payload for a handle and a ciphertext.
pub open spec fn legacy_payload(handle: Seq<char>, ciphertext: Seq<u8>) -> Seq<char> {
    prefix_v1() + encoding::base64_text(vstd::utf8::encode_utf8(handle)) + seq![':']
        + encoding::base64_text(ciphertext)
}

/// Whether a value begins like a payload of either version.
pub open spec fn looks_encrypted(value: Seq<char>) -> bool {
    text::begins_with(value, prefix_v1()) || text::begins_with(value, prefix_v2())
}

/// Whether a value begins like a canonical payload.
pub open spec fn looks_canonical(value: Seq<char>) -> bool {
    text::begins_with(value, prefix_v2())
}

/// The three Base64 texts of a payload, or why there are none.
pub open spec fn segments(encoded: Seq<char>) -> Result<
    (Seq<char>, Option<Seq<char>>, Seq<char>),
    error::ErrorView,
> {
    match text::after_prefix(encoded, prefix_v2()) {
        Some(remainder) => match text::halves(remainder, ':') {
            Some((handle, rest)) => match text::halves(rest, ':') {
                Some((token, ciphertext)) => Ok((handle, Some(token), ciphertext)),
                None => Err(error::encryption("invalid AEAD v2 payload format"@)),
            },
            None => Err(error::encryption("invalid AEAD v2 payload format"@)),
        },
        None => match text::after_prefix(encoded, prefix_v1()) {
            Some(remainder) => match text::halves(remainder, ':') {
                Some((handle, ciphertext)) => Ok((handle, None, ciphertext)),
                None => Err(error::encryption("invalid AEAD v1 payload format"@)),
            },
            None => Err(error::encryption("value missing aead:v1/v2 prefix"@)),
        },
    }
}

/// The redeem token behind its Base64 text.
pub open spec fn token_value(token: Option<Seq<char>>) -> Result<
    Option<Seq<char>>,
    error::ErrorView,
> {
    match token {
        None => Ok(None),
        Some(token) => match encoding::base64_value(token) {
            None => Err(error::encryption("invalid AEAD redeem token encoding"@)),
            Some(bytes) => match encoding::utf8_value(bytes) {
                None => Err(error::encryption("AEAD redeem token is not valid UTF-8"@)),
                Some(text) => Ok(Some(text)),
            },
        },
    }
}

/// Handle, redeem token and ciphertext behind a payload, or what is wrong
/// with it.
pub open spec fn decoding(encoded: Seq<char>) -> Result<
    (Seq<char>, Option<Seq<char>>, Seq<u8>),
    error::ErrorView,
> {
    match segments(encoded) {
        Err(error) => Err(error),
        Ok((handle, token, ciphertext)) => match encoding::base64_value(handle) {
            None => Err(error::encryption("invalid AEAD handle encoding"@)),
            Some(handle_bytes) => match token_value(token) {
                Err(error) => Err(error),
                Ok(token) => match encoding::base64_value(ciphertext) {
                    None => Err(error::encryption("invalid AEAD ciphertext encoding"@)),
                    Some(ciphertext) => match encoding::utf8_value(handle_bytes) {
                        None => Err(error::encryption("AEAD handle is not valid UTF-8"@)),
                        Some(handle) => Ok((handle, token, ciphertext)),
                    },
                },
            },
        },
    }
}

/// What a result of decoding holds.
pub open spec fn decoded(res: DbResult<(String, Option<String>, Vec<u8>)>) -> Result<
    (Seq<char>, Option<Seq<char>>, Seq<u8>),
    error::ErrorView,
> {
    match res {
        Ok((handle, token, ciphertext)) => Ok((handle@, text::optional(token), ciphertext@)),
        Err(error) => Err(error@),
    }
}

/// Encode an AEAD ciphertext together with its backing broker handle and
/// canonical v2 redeem token.
pub fn encode_aead_payload(handle: &str, redeem_token_b64: &str, ciphertext: &[u8]) -> (res: String)
    ensures
        res@ == payload(handle@, redeem_token_b64@, ciphertext@),
{
    let handle_b64 = encoding::base64_encode(handle.as_bytes());
    let token_b64 = encoding::base64_encode(redeem_token_b64.as_bytes());
    let ciphertext_b64 = encoding::base64_encode(ciphertext);
    let res = text::concat5(
        "aead:v2:",
        handle_b64.as_str(),
        ":",
        token_b64.as_str(),
        ":",
    ).concat(ciphertext_b64.as_str());
    proof {
        reveal_strlit(":");
        assert(":"@ =~= seq![':']);
    }
    res
}

/// Decode an encoded AEAD payload into the broker handle, optional redeem
/// token, and ciphertext bytes. v1 payloads decode with `None` redeem token so
/// callers can force explicit migration to the canonical v2 format.
pub fn decode_aead_payload(encoded: &str) -> (res: DbResult<(String, Option<String>, Vec<u8>)>)
    ensures
        decoded(res) == decoding(encoded@),
{
    let (handle_b64, token_b64, ciphertext_b64) = if let Some(remainder) = text::strip_prefix(
        encoded,
        "aead:v2:",
    ) {
        let (handle, rest) = match text::split_once(remainder, ':') {
            Some(pair) => pair,
            None => return Err(encryption_error("invalid AEAD v2 payload format")),
        };
        let (token, ciphertext) = match text::split_once(rest, ':') {
            Some(pair) => pair,
            None => return Err(encryption_error("invalid AEAD v2 payload format")),
        };
        (handle, Some(token), ciphertext)
    } else if let Some(remainder) = text::strip_prefix(encoded, "aead:v1:") {
        let (handle, ciphertext) = match text::split_once(remainder, ':') {
            Some(pair) => pair,
            None => return Err(encryption_error("invalid AEAD v1 payload format")),
        };
        (handle, None, ciphertext)
    } else {
        return Err(encryption_error("value missing aead:v1/v2 prefix"));
    };

    let handle_bytes = match encoding::base64_decode(handle_b64) {
        Some(bytes) => bytes,
        None => return Err(encryption_error("invalid AEAD handle encoding")),
    };
    let redeem_token = match token_b64 {
        Some(token_b64) => {
            let token_bytes = match encoding::base64_decode(token_b64) {
                Some(bytes) => bytes,
                None => return Err(encryption_error("invalid AEAD redeem token encoding")),
            };
            match encoding::utf8_decode(token_bytes) {
                Some(token) => Some(token),
                None => return Err(encryption_error("AEAD redeem token is not valid UTF-8")),
            }
        },
        None => None,
    };
    let ciphertext = match encoding::base64_decode(ciphertext_b64) {
        Some(bytes) => bytes,
        None => return Err(encryption_error("invalid AEAD ciphertext encoding")),
    };
    let handle = match encoding::utf8_decode(handle_bytes) {
        Some(handle) => handle,
        None => return Err(encryption_error("AEAD handle is not valid UTF-8")),
    };
    Ok((handle, redeem_token, ciphertext))
}

/// Returns true if the provided value appears to be an encoded AEAD payload.
pub fn is_aead_payload(value: &str) -> (res: bool)
    ensures
        res == looks_encrypted(value@),
{
    text::starts_with(value, "aead:v1:") || text::starts_with(value, "aead:v2:")
}

/// Returns true if the provided value appears to be a canonical AEAD payload.
pub fn is_aead_payload_v2(value: &str) -> (res: bool)
    ensures
        res == looks_canonical(value@),
{
    text::starts_with(value, "aead:v2:")
}

proof fn lemma_after_prefix(prefix: Seq<char>, rest: Seq<char>)
    ensures
        text::after_prefix(prefix + rest, prefix) == Some(rest),
{
    let whole = prefix + rest;
    assert(whole.subrange(0, prefix.len() as int) =~= prefix);
    assert(whole.skip(prefix.len() as int) =~= rest);
}

proof fn lemma_halves(first: Seq<char>, rest: Seq<char>)
    requires
        forall|i: int| 0 <= i < first.len() ==> #[trigger] first[i] != ':',
    ensures
        text::halves(first + seq![':'] + rest, ':') == Some((first, rest)),
{
    let whole = first + seq![':'] + rest;
    assert forall|i: int| 0 <= i < first.len() implies #[trigger] whole[i] != ':' by {
        assert(whole[i] == first[i]);
    }
    text::lemma_first_position_is(whole, ':', first.len() as int);
    assert(whole.take(first.len() as int) =~= first);
    assert(whole.skip((first.len() + 1) as int) =~= rest);
}

/// Decoding what was encoded gives back handle, redeem token and ciphertext.
pub proof fn payload_round_trip(handle: Seq<char>, redeem_token: Seq<char>, ciphertext: Seq<u8>)
    ensures
        decoding(payload(handle, redeem_token, ciphertext)) == Ok::<_, error::ErrorView>(
            (handle, Some(redeem_token), ciphertext),
        ),
{
    let h = encoding::base64_text(vstd::utf8::encode_utf8(handle));
    let t = encoding::base64_text(vstd::utf8::encode_utf8(redeem_token));
    let c = encoding::base64_text(ciphertext);
    let rest = t + seq![':'] + c;
    let remainder = h + seq![':'] + rest;
    assert(payload(handle, redeem_token, ciphertext) =~= prefix_v2() + remainder);
    lemma_after_prefix(prefix_v2(), remainder);
    encoding::base64_has_no_colon(vstd::utf8::encode_utf8(handle));
    encoding::base64_has_no_colon(vstd::utf8::encode_utf8(redeem_token));
    lemma_halves(h, rest);
    lemma_halves(t, c);
    encoding::base64_round_trip(vstd::utf8::encode_utf8(handle));
    encoding::base64_round_trip(vstd::utf8::encode_utf8(redeem_token));
    encoding::base64_round_trip(ciphertext);
    encoding::utf8_round_trip(handle);
    encoding::utf8_round_trip(redeem_token);
}

/// What is encoded is recognised as a payload, and as a canonical one.
pub proof fn payload_is_recognised(
    handle: Seq<char>,
    redeem_token: Seq<char>,
    ciphertext: Seq<u8>,
)
    ensures
        looks_encrypted(payload(handle, redeem_token, ciphertext)),
        looks_canonical(payload(handle, redeem_token, ciphertext)),
{
    let whole = payload(handle, redeem_token, ciphertext);
    assert(whole.subrange(0, prefix_v2().len() as int) =~= prefix_v2());
}

/// A value never begins like both versions of a payload.
pub proof fn versions_are_apart(value: Seq<char>)
    ensures
        !(text::begins_with(value, prefix_v1()) && text::begins_with(value, prefix_v2())),
{
    reveal_strlit("aead:v1:");
    reveal_strlit("aead:v2:");
    if text::begins_with(value, prefix_v1()) && text::begins_with(value, prefix_v2()) {
        assert(value.subrange(0, 8)[6] == prefix_v1()[6]);
        assert(value.subrange(0, 8)[6] == prefix_v2()[6]);
    }
}

/// A payload of the older version decodes without a redeem token, so that a
/// caller can insist on the canonical form.
pub proof fn legacy_payload_decodes_without_token(handle: Seq<char>, ciphertext: Seq<u8>)
    ensures
        decoding(legacy_payload(handle, ciphertext)) == Ok::<_, error::ErrorView>(
            (handle, None::<Seq<char>>, ciphertext),
        ),
        looks_encrypted(legacy_payload(handle, ciphertext)),
        !looks_canonical(legacy_payload(handle, ciphertext)),
{
    let h = encoding::base64_text(vstd::utf8::encode_utf8(handle));
    let c = encoding::base64_text(ciphertext);
    let remainder = h + seq![':'] + c;
    let whole = legacy_payload(handle, ciphertext);
    assert(whole =~= prefix_v1() + remainder);
    lemma_after_prefix(prefix_v1(), remainder);
    versions_are_apart(whole);
    encoding::base64_has_no_colon(vstd::utf8::encode_utf8(handle));
    lemma_halves(h, c);
    encoding::base64_round_trip(vstd::utf8::encode_utf8(handle));
    encoding::base64_round_trip(ciphertext);
    encoding::utf8_round_trip(handle);
}

/// Only what begins like a payload decodes, and a redeem token comes out
/// exactly of the canonical ones.
pub proof fn decoding_needs_a_prefix(value: Seq<char>)
    ensures
        decoding(value) matches Ok((handle, token, ciphertext)) ==> {
            &&& looks_encrypted(value)
            &&& token is Some <==> looks_canonical(value)
        },
{
}

/// The version of a payload stands at its beginning: a value is taken for a
/// canonical payload or for one of either version by those letters alone.
pub proof fn versions_stand_in_front(value: Seq<char>, rest: Seq<char>)
    ensures
        looks_canonical("aead:v2:"@ + rest),
        looks_encrypted("aead:v2:"@ + rest),
        looks_encrypted("aead:v1:"@ + rest),
        !looks_canonical("aead:v1:"@ + rest),
        looks_canonical(value) ==> value.len() >= 8 && value.take(8) == "aead:v2:"@,
        looks_encrypted(value) && !looks_canonical(value) ==> value.len() >= 8 && value.take(8)
            == "aead:v1:"@,
{
    reveal_strlit("aead:v1:");
    reveal_strlit("aead:v2:");
    text::parts_of_a_text_are_found("aead:v2:"@, Seq::empty(), rest);
    text::parts_of_a_text_are_found("aead:v1:"@, Seq::empty(), rest);
    assert("aead:v2:"@ + Seq::empty() + rest =~= "aead:v2:"@ + rest);
    assert("aead:v1:"@ + Seq::empty() + rest =~= "aead:v1:"@ + rest);
    versions_are_apart("aead:v1:"@ + rest);
    if looks_encrypted(value) {
        assert(value.take(8) =~= value.subrange(0, 8));
    }
}

/// Two payloads are the same only where handle, redeem token and ciphertext
/// are.
pub proof fn payloads_are_apart(
    handle1: Seq<char>,
    token1: Seq<char>,
    ciphertext1: Seq<u8>,
    handle2: Seq<char>,
    token2: Seq<char>,
    ciphertext2: Seq<u8>,
)
    requires
        payload(handle1, token1, ciphertext1) == payload(handle2, token2, ciphertext2),
    ensures
        handle1 == handle2,
        token1 == token2,
        ciphertext1 == ciphertext2,
{
    payload_round_trip(handle1, token1, ciphertext1);
    payload_round_trip(handle2, token2, ciphertext2);
}

} // verus!
