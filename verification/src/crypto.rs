//! Digests, message authentication and AES-256-GCM.

use crate::encoding;
use crate::error;
use crate::error::{encryption_error, DbResult};
use hmac::Mac;
use ring::rand::SecureRandom;
use sha2::Digest;
use vstd::prelude::*;
use zeroize::Zeroize;

verus! {

/// Length of the nonce in front of a sealed message.
pub const NONCE_LENGTH: usize = 12;

/// Authentication tag length emitted by [`aes_encrypt`].
pub const TAG_LENGTH: usize = 16;

/// The SHA-256 digest of some bytes.
pub uninterp spec fn sha256(data: Seq<u8>) -> Seq<u8>;

/// `Sha256::digest` of the crate `sha2`: thirty-two bytes that depend on the
/// data alone.
#[verifier::external_body]
pub(crate) fn sha256_digest(data: &[u8]) -> (res: Vec<u8>)
    ensures
        res@ == sha256(data@),
        res@.len() == 32,
{
    sha2::Sha256::digest(data).to_vec()
}

/// The SHA-512 digest of some bytes.
pub uninterp spec fn sha512(data: Seq<u8>) -> Seq<u8>;

/// `Sha512::digest` of the crate `sha2`: sixty-four bytes that depend on the
/// data alone.
#[verifier::external_body]
pub(crate) fn sha512_digest(data: &[u8]) -> (res: Vec<u8>)
    ensures
        res@ == sha512(data@),
        res@.len() == 64,
{
    sha2::Sha512::digest(data).to_vec()
}

/// The HMAC-SHA256 tag of a payload under a key.
pub uninterp spec fn hmac_sha256(key: Seq<u8>, payload: Seq<u8>) -> Seq<u8>;

/// `Hmac<Sha256>` of the crate `hmac`, keyed by `new_from_slice`, which takes
/// keys of every length: thirty-two bytes that depend on key and payload alone.
#[verifier::external_body]
fn hmac_sha256_tag(key: &[u8], payload: &[u8]) -> (res: Option<Vec<u8>>)
    ensures
        res is Some,
        res matches Some(tag) ==> tag@ == hmac_sha256(key@, payload@) && tag@.len() == 32,
{
    let mut mac = <hmac::Hmac<sha2::Sha256> as Mac>::new_from_slice(key).ok()?;
    mac.update(payload);
    Some(mac.finalize().into_bytes().to_vec())
}

/// AES-256-GCM ciphertext and tag of a plaintext under key, nonce and
/// associated data.
pub uninterp spec fn aes256_gcm_seal(
    key: Seq<u8>,
    nonce: Seq<u8>,
    aad: Seq<u8>,
    plaintext: Seq<u8>,
) -> Seq<u8>;

/// The plaintext behind an AES-256-GCM ciphertext and tag, where the tag is
/// right for key, nonce and associated data.
pub uninterp spec fn aes256_gcm_open(
    key: Seq<u8>,
    nonce: Seq<u8>,
    aad: Seq<u8>,
    sealed: Seq<u8>,
) -> Option<Seq<u8>>;

/// The lengths that AES-256-GCM seals: a 32-byte key, at most 2^36 - 32 bytes
/// of plaintext and at most 2^61 - 1 bytes of associated data.
pub open spec fn seal_accepts(key: Seq<u8>, plaintext: Seq<u8>, aad: Seq<u8>) -> bool {
    &&& key.len() == 32
    &&& plaintext.len() <= 68_719_476_704
    &&& aad.len() <= 2_305_843_009_213_693_951
}

/// `LessSafeKey::seal_in_place_append_tag` of the crate `ring` with
/// `AES_256_GCM`. It refuses only by lengths. The sealed bytes are named; they
/// are sixteen bytes longer than the plaintext and open to it again.
#[verifier::external_body]
fn aead_seal(key: &[u8], nonce: &[u8], plaintext: &[u8], aad: &[u8]) -> (res: Option<Vec<u8>>)
    requires
        nonce@.len() == 12,
    ensures
        res is Some <==> seal_accepts(key@, plaintext@, aad@),
        res matches Some(sealed) ==> sealed@ == aes256_gcm_seal(key@, nonce@, aad@, plaintext@),
        res matches Some(sealed) ==> sealed@.len() == plaintext@.len() + 16,
        res matches Some(sealed) ==> aes256_gcm_open(key@, nonce@, aad@, sealed@) == Some(
            plaintext@,
        ),
{
    let unbound = ring::aead::UnboundKey::new(&ring::aead::AES_256_GCM, key).ok()?;
    let nonce = ring::aead::Nonce::try_assume_unique_for_key(nonce).ok()?;
    let mut in_out = plaintext.to_vec();
    ring::aead::LessSafeKey::new(unbound)
        .seal_in_place_append_tag(nonce, ring::aead::Aad::from(aad), &mut in_out)
        .ok()?;
    Some(in_out)
}

/// `LessSafeKey::open_in_place` of the crate `ring` with `AES_256_GCM`. What
/// opens is sixteen bytes longer than its plaintext, and is what sealing that
/// plaintext in the same context gives.
#[verifier::external_body]
fn aead_open(key: &[u8], nonce: &[u8], sealed: &[u8], aad: &[u8]) -> (res: Option<Vec<u8>>)
    requires
        nonce@.len() == 12,
    ensures
        res is Some <==> aes256_gcm_open(key@, nonce@, aad@, sealed@) is Some,
        res matches Some(plain) ==> aes256_gcm_open(key@, nonce@, aad@, sealed@) == Some(plain@),
        res matches Some(plain) ==> sealed@.len() == plain@.len() + 16,
        res matches Some(plain) ==> sealed@ == aes256_gcm_seal(key@, nonce@, aad@, plain@),
{
    let unbound = ring::aead::UnboundKey::new(&ring::aead::AES_256_GCM, key).ok()?;
    let nonce = ring::aead::Nonce::try_assume_unique_for_key(nonce).ok()?;
    let mut in_out = sealed.to_vec();
    ring::aead::LessSafeKey::new(unbound)
        .open_in_place(nonce, ring::aead::Aad::from(aad), &mut in_out)
        .ok()
        .map(|plain| plain.to_vec())
}

/// `UnboundKey::new` of the crate `ring` for `AES_256_GCM` takes keys of
/// thirty-two bytes only.
#[verifier::external_body]
fn aead_key_fits(key: &[u8]) -> (res: bool)
    ensures
        res == (key@.len() == 32),
{
    ring::aead::UnboundKey::new(&ring::aead::AES_256_GCM, key).is_ok()
}

/// `SystemRandom::fill` of the crate `ring` draws a nonce from the operating
/// system, which may fail. Nothing is promised of the bytes but their number.
#[verifier::external_body]
pub(crate) fn random_nonce() -> (res: Option<Vec<u8>>)
    ensures
        drawn(nonce_view(res)),
{
    let mut nonce = vec![0u8; ring::aead::NONCE_LEN];
    ring::rand::SystemRandom::new().fill(&mut nonce).ok()?;
    Some(nonce)
}

/// `zeroize` of the crate of that name overwrites the bytes and leaves the
/// vector empty.
#[verifier::external_body]
pub(crate) fn wipe(secret: &mut Vec<u8>)
    ensures
        final(secret)@.len() == 0,
{
    secret.zeroize();
}

/// Compute an HMAC-SHA256 tag for the supplied payload.
pub fn hmac_sign(key: &[u8], payload: &[u8]) -> (res: DbResult<Vec<u8>>)
    ensures
        error::outcome(res) == Ok::<_, error::ErrorView>(hmac_sha256(key@, payload@)),
        res matches Ok(tag) ==> tag@.len() == 32,
{
    match hmac_sha256_tag(key, payload) {
        Some(tag) => Ok(tag),
        None => Err(encryption_error("invalid HMAC key")),
    }
}

/// What sealing gives: the nonce, then ciphertext and tag; or the refusal of a
/// length.
pub open spec fn sealing(
    key: Seq<u8>,
    nonce: Seq<u8>,
    plaintext: Seq<u8>,
    aad: Seq<u8>,
) -> Result<Seq<u8>, error::ErrorView> {
    if seal_accepts(key, plaintext, aad) {
        Ok(nonce + aes256_gcm_seal(key, nonce, aad, plaintext))
    } else {
        Err(error::encryption("ring::error::Unspecified"@))
    }
}

/// What opening a message of nonce, ciphertext and tag gives.
pub open spec fn opening(key: Seq<u8>, message: Seq<u8>, aad: Seq<u8>) -> Result<
    Seq<u8>,
    error::ErrorView,
> {
    if message.len() < NONCE_LENGTH + TAG_LENGTH {
        Err(error::encryption("ciphertext too short"@))
    } else if key.len() != 32 {
        Err(error::encryption("ring::error::Unspecified"@))
    } else {
        match aes256_gcm_open(key, message.take(12), aad, message.skip(12)) {
            Some(plaintext) => Ok(plaintext),
            None => Err(error::encryption("decryption failed"@)),
        }
    }
}

/// Whether a message is what sealing this plaintext under this associated data
/// gives, with the nonce that the message begins with.
pub open spec fn sealed_in(
    message: Seq<u8>,
    key: Seq<u8>,
    aad: Seq<u8>,
    plaintext: Seq<u8>,
) -> bool {
    message == message.take(12) + aes256_gcm_seal(key, message.take(12), aad, plaintext)
}

/// A message that was sealed in one context and opens in another has the same
/// ciphertext and tag in both: carrying it over takes a collision of the cipher.
pub proof fn moving_a_message_takes_a_collision(
    message: Seq<u8>,
    key: Seq<u8>,
    aad1: Seq<u8>,
    plaintext1: Seq<u8>,
    aad2: Seq<u8>,
    plaintext2: Seq<u8>,
)
    requires
        message.len() >= 12,
        sealed_in(message, key, aad1, plaintext1),
        sealed_in(message, key, aad2, plaintext2),
    ensures
        aes256_gcm_seal(key, message.take(12), aad1, plaintext1) == aes256_gcm_seal(
            key,
            message.take(12),
            aad2,
            plaintext2,
        ),
{
    let sealed1 = aes256_gcm_seal(key, message.take(12), aad1, plaintext1);
    let sealed2 = aes256_gcm_seal(key, message.take(12), aad2, plaintext2);
    assert(sealed1 =~= message.skip(12));
    assert(sealed2 =~= message.skip(12));
}

/// Seal a plaintext under a given nonce, returning nonce||ciphertext||tag.
/// What was sealed opens again under the same key and associated data.
pub fn aes_seal_with_nonce(key: &[u8], nonce: &[u8], plaintext: &[u8], aad: &[u8]) -> (res:
    DbResult<Vec<u8>>)
    requires
        nonce@.len() == NONCE_LENGTH,
    ensures
        error::outcome(res) == sealing(key@, nonce@, plaintext@, aad@),
        res matches Ok(message) ==> message@.len() == NONCE_LENGTH + plaintext@.len() + TAG_LENGTH,
        res matches Ok(message) ==> opening(key@, message@, aad@) == Ok::<_, error::ErrorView>(
            plaintext@,
        ),
{
    let sealed = match aead_seal(key, nonce, plaintext, aad) {
        Some(sealed) => sealed,
        None => return Err(encryption_error("ring::error::Unspecified")),
    };
    let mut output: Vec<u8> = Vec::new();
    output.extend_from_slice(nonce);
    output.extend_from_slice(sealed.as_slice());
    proof {
        assert(output@ =~= nonce@ + sealed@);
        assert(output@.take(12) =~= nonce@);
        assert(output@.skip(12) =~= sealed@);
    }
    Ok(output)
}

/// What sealing gives with a nonce that was drawn, or could not be drawn.
pub open spec fn sealing_drawn(
    key: Seq<u8>,
    nonce: Option<Seq<u8>>,
    plaintext: Seq<u8>,
    aad: Seq<u8>,
) -> Result<Seq<u8>, error::ErrorView> {
    match nonce {
        Some(nonce) => sealing(key, nonce, plaintext, aad),
        None => Err(error::encryption("rng failure: ring::error::Unspecified"@)),
    }
}

/// Whether this is what drawing a nonce can give.
pub open spec fn drawn(nonce: Option<Seq<u8>>) -> bool {
    nonce matches Some(nonce) ==> nonce.len() == NONCE_LENGTH
}

/// What a drawn nonce holds.
pub open spec fn nonce_view(nonce: Option<Vec<u8>>) -> Option<Seq<u8>> {
    match nonce {
        Some(nonce) => Some(nonce@),
        None => None,
    }
}

/// Whether a result of sealing is one that some nonce, or a failing random
/// number generator, accounts for. That the nonce was not used before is not
/// claimed: it is drawn at random.
pub open spec fn sealed_with_some_nonce(
    res: Result<Seq<u8>, error::ErrorView>,
    key: Seq<u8>,
    plaintext: Seq<u8>,
    aad: Seq<u8>,
) -> bool {
    exists|nonce: Option<Seq<u8>>| #[trigger]
        drawn(nonce) && res == sealing_drawn(key, nonce, plaintext, aad)
}

/// Seal a plaintext under the nonce that was drawn for it.
pub fn aes_seal_drawn(key: &[u8], nonce: Option<Vec<u8>>, plaintext: &[u8], aad: &[u8]) -> (res:
    DbResult<Vec<u8>>)
    requires
        drawn(nonce_view(nonce)),
    ensures
        error::outcome(res) == sealing_drawn(key@, nonce_view(nonce), plaintext@, aad@),
        res matches Ok(message) ==> message@.len() == NONCE_LENGTH + plaintext@.len() + TAG_LENGTH,
        res matches Ok(message) ==> opening(key@, message@, aad@) == Ok::<_, error::ErrorView>(
            plaintext@,
        ),
{
    match nonce {
        Some(nonce) => aes_seal_with_nonce(key, nonce.as_slice(), plaintext, aad),
        None => Err(encryption_error("rng failure: ring::error::Unspecified")),
    }
}

/// Encrypt plaintext with AES-256-GCM, returning nonce||ciphertext||tag.
pub fn aes_encrypt(key: &[u8], plaintext: &[u8]) -> (res: DbResult<Vec<u8>>)
    ensures
        sealed_with_some_nonce(error::outcome(res), key@, plaintext@, Seq::empty()),
        res matches Ok(message) ==> message@.len() == NONCE_LENGTH + plaintext@.len() + TAG_LENGTH,
        res matches Ok(message) ==> opening(key@, message@, Seq::empty()) == Ok::<
            _,
            error::ErrorView,
        >(plaintext@),
{
    let none: [u8; 0] = [];
    assert(none@ =~= Seq::empty());
    aes_encrypt_with_aad(key, plaintext, &none)
}

/// Encrypt plaintext with AES-256-GCM and caller-supplied associated data.
/// Whatever nonce is drawn, the message opens again under the same key and
/// associated data.
pub fn aes_encrypt_with_aad(key: &[u8], plaintext: &[u8], aad: &[u8]) -> (res: DbResult<Vec<u8>>)
    ensures
        sealed_with_some_nonce(error::outcome(res), key@, plaintext@, aad@),
        res matches Ok(message) ==> message@.len() == NONCE_LENGTH + plaintext@.len() + TAG_LENGTH,
        res matches Ok(message) ==> opening(key@, message@, aad@) == Ok::<_, error::ErrorView>(
            plaintext@,
        ),
{
    let nonce = random_nonce();
    assert(drawn(nonce_view(nonce)));
    aes_seal_drawn(key, nonce, plaintext, aad)
}

/// Decrypt bytes produced by [`aes_encrypt`].
pub fn aes_decrypt(key: &[u8], ciphertext: &[u8]) -> (res: DbResult<Vec<u8>>)
    ensures
        error::outcome(res) == opening(key@, ciphertext@, Seq::empty()),
        res matches Ok(plain) ==> ciphertext@.len() == NONCE_LENGTH + plain@.len() + TAG_LENGTH,
{
    let none: [u8; 0] = [];
    assert(none@ =~= Seq::empty());
    aes_decrypt_with_aad(key, ciphertext, &none)
}

/// Decrypt bytes produced by [`aes_encrypt_with_aad`], validating the same associated data.
/// What opens is exactly what sealing its plaintext under that associated data
/// and nonce gives.
pub fn aes_decrypt_with_aad(key: &[u8], ciphertext: &[u8], aad: &[u8]) -> (res: DbResult<Vec<u8>>)
    ensures
        error::outcome(res) == opening(key@, ciphertext@, aad@),
        res matches Ok(plain) ==> ciphertext@.len() == NONCE_LENGTH + plain@.len() + TAG_LENGTH,
        res matches Ok(plain) ==> sealed_in(ciphertext@, key@, aad@, plain@),
{
    if ciphertext.len() < NONCE_LENGTH + TAG_LENGTH {
        return Err(encryption_error("ciphertext too short"));
    }
    let (nonce, body) = ciphertext.split_at(NONCE_LENGTH);
    assert(nonce@ =~= ciphertext@.take(12));
    assert(body@ =~= ciphertext@.skip(12));
    if !aead_key_fits(key) {
        return Err(encryption_error("ring::error::Unspecified"));
    }
    match aead_open(key, nonce, body, aad) {
        Some(plaintext) => {
            assert(ciphertext@ =~= ciphertext@.take(12) + body@);
            Ok(plaintext)
        },
        None => Err(encryption_error("decryption failed")),
    }
}

/// The hexadecimal SHA-256 digest that stands for an audited payload.
pub fn audit_payload_hash(payload: &[u8]) -> (res: String)
    ensures
        res@ == encoding::hex_text(sha256(payload@)),
{
    encoding::hex_encode(sha256_digest(payload).as_slice())
}

/// A message begins with its nonce: what is left of it opens under that nonce,
/// and whatever is too short or meets a key of another length never opens.
pub proof fn messages_begin_with_their_nonce(
    key: Seq<u8>,
    nonce: Seq<u8>,
    sealed: Seq<u8>,
    aad: Seq<u8>,
    plaintext: Seq<u8>,
)
    requires
        nonce.len() == 12,
    ensures
        opening(key, nonce + sealed, aad) == Ok::<_, error::ErrorView>(plaintext)
            <==> sealed.len() >= 16 && key.len() == 32 && aes256_gcm_open(
            key,
            nonce,
            aad,
            sealed,
        ) == Some(plaintext),
        sealing(key, nonce, plaintext, aad) matches Ok(message) ==> message == nonce
            + aes256_gcm_seal(key, nonce, aad, plaintext),
        sealing(key, nonce, plaintext, aad) is Ok ==> key.len() == 32,
        key.len() == 32 && plaintext.len() <= 68_719_476_704 && aad.len()
            <= 2_305_843_009_213_693_951 ==> sealing(key, nonce, plaintext, aad) is Ok,
{
    assert((nonce + sealed).take(12) =~= nonce);
    assert((nonce + sealed).skip(12) =~= sealed);
}

/// Without a nonce nothing is sealed; with one, sealing goes by that nonce.
pub proof fn sealing_takes_a_nonce(
    key: Seq<u8>,
    nonce: Option<Seq<u8>>,
    plaintext: Seq<u8>,
    aad: Seq<u8>,
)
    ensures
        nonce is None ==> sealing_drawn(key, nonce, plaintext, aad) is Err,
        nonce matches Some(drawn) ==> sealing_drawn(key, nonce, plaintext, aad) == sealing(
            key,
            drawn,
            plaintext,
            aad,
        ),
{
}

} // verus!
