//! Attestation bookkeeping: the window of nonces, and what an invalidation
//! names.

use crate::encoding;
use crate::error;
use crate::error::{integrity_error, DbResult};
use crate::text;
use vstd::prelude::*;

verus! {

/// The length of the window of nonces in seconds, which is never negative.
pub open spec fn window_of(ttl_seconds: int) -> int {
    if ttl_seconds < 0 {
        0
    } else {
        ttl_seconds
    }
}

/// The length of the window of nonces in seconds, which is never negative.
pub fn nonce_window(ttl_seconds: i64) -> (res: i64)
    ensures
        res == window_of(ttl_seconds as int),
{
    if ttl_seconds < 0 {
        0
    } else {
        ttl_seconds
    }
}

/// Whether the insertion of a nonce, which leaves an entry that is there as it
/// is, found it new; a nonce that was there before is a replay.
pub open spec fn inserted(rows_affected: nat) -> bool {
    rows_affected > 0
}

/// Whether the insertion of a nonce found it new; a nonce that was there
/// before is a replay.
pub fn nonce_is_new(rows_affected: u64) -> (res: bool)
    ensures
        res == inserted(rows_affected as nat),
{
    rows_affected > 0
}

/// An entry of the nonce log: whose nonce it was, and when it was seen, in
/// seconds.
pub struct NonceEntry {
    pub enclave_id: Seq<char>,
    pub seen_at: int,
}

/// The nonce log: one entry for each nonce digest.
pub type NonceLog = Map<Seq<u8>, NonceEntry>;

/// The entries of a log that lie in the window before a point in time.
pub open spec fn live_nonces(log: NonceLog, now: int, window: int) -> NonceLog {
    log.restrict(Set::new(|digest: Seq<u8>| log[digest].seen_at >= now - window))
}

/// What a registration does to the log, and whether the nonce was new: the
/// entries before the window are deleted, and then the nonce is inserted
/// unless the log holds it.
pub open spec fn registration(
    log: NonceLog,
    digest: Seq<u8>,
    enclave_id: Seq<char>,
    now: int,
    ttl_seconds: int,
) -> (NonceLog, bool) {
    let live = live_nonces(log, now, window_of(ttl_seconds));
    let rows_affected: nat = if live.dom().contains(digest) {
        0
    } else {
        1
    };
    let after = if live.dom().contains(digest) {
        live
    } else {
        live.insert(digest, NonceEntry { enclave_id, seen_at: now })
    };
    (after, inserted(rows_affected))
}

/// A nonce is new exactly where the log holds none of it inside the window.
/// Registering it changes no entry of the window and adds at most its own, and
/// a second registration inside the window is told as a replay and changes no
/// entry of the first.
pub proof fn nonces_are_new_once(
    log: NonceLog,
    digest: Seq<u8>,
    enclave_id: Seq<char>,
    now: int,
    ttl_seconds: int,
    other_enclave_id: Seq<char>,
    later: int,
    later_ttl_seconds: int,
)
    ensures
        ({
            let live = live_nonces(log, now, window_of(ttl_seconds));
            let (after, new) = registration(log, digest, enclave_id, now, ttl_seconds);
            let entry = NonceEntry { enclave_id, seen_at: now };
            let (again, new_again) = registration(
                after,
                digest,
                other_enclave_id,
                later,
                later_ttl_seconds,
            );
            &&& new <==> !live.dom().contains(digest)
            &&& new ==> after == live.insert(digest, entry)
            &&& !new ==> after == live
            &&& after.dom().contains(digest)
            &&& after[digest].seen_at >= later - window_of(later_ttl_seconds) ==> {
                &&& !new_again
                &&& again == live_nonces(after, later, window_of(later_ttl_seconds))
                &&& again.dom().contains(digest) && again[digest] == after[digest]
            }
        }),
{
}

/// The quote hash that an invalidation names.
pub open spec fn quote_hash_of(quote_hash_hex: Seq<char>) -> Result<Seq<u8>, error::ErrorView> {
    match encoding::hex_value(text::trimmed(quote_hash_hex)) {
        Some(bytes) => Ok(bytes),
        None => Err(error::integrity("invalid quote hash provided for attestation invalidation"@)),
    }
}

/// The quote hash that an invalidation names.
pub fn invalidated_quote_hash(quote_hash_hex: &str) -> (res: DbResult<Vec<u8>>)
    ensures
        error::outcome(res) == quote_hash_of(quote_hash_hex@),
{
    match encoding::hex_decode(text::trim(quote_hash_hex)) {
        Some(bytes) => Ok(bytes),
        None => Err(integrity_error("invalid quote hash provided for attestation invalidation")),
    }
}

/// The nonce digest that an invalidation names, where it names one.
pub open spec fn nonce_digest_of(nonce_digest_hex: Option<Seq<char>>) -> Result<
    Option<Seq<u8>>,
    error::ErrorView,
> {
    match nonce_digest_hex {
        None => Ok(None),
        Some(hex) => if text::is_blank(hex) {
            Ok(None)
        } else {
            match encoding::hex_value(text::trimmed(hex)) {
                Some(bytes) => Ok(Some(bytes)),
                None => Err(
                    error::integrity("invalid nonce digest provided for attestation invalidation"@),
                ),
            }
        },
    }
}

/// The nonce digest that an invalidation names, where it names one.
pub fn invalidated_nonce_digest(nonce_digest_hex: Option<&str>) -> (res: DbResult<Option<Vec<u8>>>)
    ensures
        match res {
            Ok(Some(bytes)) => nonce_digest_of(text::optional_str(nonce_digest_hex)) == Ok::<
                _,
                error::ErrorView,
            >(Some(bytes@)),
            Ok(None) => nonce_digest_of(text::optional_str(nonce_digest_hex)) == Ok::<
                Option<Seq<u8>>,
                error::ErrorView,
            >(None),
            Err(error) => nonce_digest_of(text::optional_str(nonce_digest_hex)) == Err::<
                Option<Seq<u8>>,
                _,
            >(error@),
        },
{
    let hex = match nonce_digest_hex {
        Some(hex) => hex,
        None => return Ok(None),
    };
    if text::blank(hex) {
        return Ok(None);
    }
    match encoding::hex_decode(text::trim(hex)) {
        Some(bytes) => Ok(Some(bytes)),
        None => Err(integrity_error("invalid nonce digest provided for attestation invalidation")),
    }
}

/// The window is as long as asked for, and never ends before it begins; a nonce
/// is new exactly where its insertion left a row.
pub proof fn windows_are_as_long_as_asked(ttl_seconds: int, rows_affected: nat)
    ensures
        ttl_seconds >= 0 ==> window_of(ttl_seconds) == ttl_seconds,
        ttl_seconds <= 0 ==> window_of(ttl_seconds) == 0,
        inserted(rows_affected) <==> rows_affected != 0,
{
}

/// A nonce stays in its window up to the last second of it, and leaves it then.
pub proof fn nonces_leave_after_their_window(
    log: NonceLog,
    digest: Seq<u8>,
    now: int,
    window: int,
)
    ensures
        live_nonces(log, now, window).dom().contains(digest) <==> log.dom().contains(digest)
            && log[digest].seen_at + window >= now,
        live_nonces(log, now, window).dom().contains(digest) ==> live_nonces(
            log,
            now,
            window,
        )[digest] == log[digest],
{
}

/// Hashes and digests are read back from their hexadecimal text, with or
/// without white space around it; an invalidation that names no digest, or a
/// blank one, has none, and nothing else is left out.
pub proof fn artifacts_are_read_back(bytes: Seq<u8>, raw: Seq<char>)
    ensures
        text::trimmed(raw) == encoding::hex_text(bytes) ==> quote_hash_of(raw) == Ok::<
            _,
            error::ErrorView,
        >(bytes),
        text::trimmed(raw) == encoding::hex_text(bytes) && bytes.len() > 0 ==> nonce_digest_of(
            Some(raw),
        ) == Ok::<_, error::ErrorView>(Some(bytes)),
        quote_hash_of(raw) matches Ok(read) ==> encoding::hex_value(text::trimmed(raw)) == Some(
            read,
        ),
        nonce_digest_of(None) == Ok::<Option<Seq<u8>>, error::ErrorView>(None),
        nonce_digest_of(Some(raw)) == Ok::<Option<Seq<u8>>, error::ErrorView>(None)
            <==> text::is_blank(raw),
        !text::is_blank(raw) ==> (nonce_digest_of(Some(raw)) is Ok <==> quote_hash_of(raw) is Ok),
{
    encoding::hex_round_trip(bytes);
    if text::trimmed(raw) == encoding::hex_text(bytes) {
        assert(text::trimmed(raw).len() == 2 * bytes.len());
    }
}

} // verus!
