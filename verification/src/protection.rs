//! Protected fields: which record a value is bound to, when it may be stored,
//! and how it is sealed and recovered with keys that the broker leases.

use crate::crypto;
use crate::encoding;
use crate::encoding::RecordId;
use crate::envelope;
use crate::error;
use crate::error::{encryption_error, DbResult};
use crate::text;
use vstd::prelude::*;

verus! {

pub const CLIENT_ONION_AAD: &'static str = "tor-session-client-onion";

pub const REDEEMED_ONION_AAD: &'static str = "tor-ticket-redeemed-onion";

pub const TICKET_CLIENT_PUBLIC_KEY_AAD: &'static str = "tor-ticket-client-auth-public-key";

pub const TICKET_CLIENT_SECRET_PATH_AAD: &'static str = "tor-ticket-client-auth-secret-path";

pub const TICKET_CLIENT_SECRET_REDEEM_TOKEN_AAD: &'static str =
    "tor-ticket-client-auth-secret-redeem-token";

pub const TICKET_ATTESTATION_NONCE_AAD: &'static str = "tor-ticket-attestation-nonce";

pub const TICKET_ATTESTATION_QUOTE_AAD: &'static str = "tor-ticket-attestation-quote";

pub const TICKET_TLS_PUBKEY_DIGEST_AAD: &'static str = "tor-ticket-tls-pubkey-digest";

/// How long the broker leases a key for one protected value.
pub const AEAD_KEY_TTL_SECONDS: u64 = 900;

/// A column that never holds plaintext.
#[derive(Clone, Copy, Debug, PartialEq, Eq, Structural)]
pub enum ProtectedField {
    ClientOnion,
    RedeemedOnion,
    ClientAuthPublicKey,
    ClientAuthSecretPath,
    ClientAuthSecretRedeemToken,
    AttestationNonceDigest,
    AttestationQuoteHash,
    TlsPubkeyDigest,
}

impl ProtectedField {
    /// The table that holds the column.
    pub open spec fn table_name(self) -> Seq<char> {
        match self {
            ProtectedField::ClientOnion => "gateway_secrets.tor_auth_sessions"@,
            _ => "gateway_secrets.tor_access_tickets"@,
        }
    }

    /// The name of the column.
    pub open spec fn column_name(self) -> Seq<char> {
        match self {
            ProtectedField::ClientOnion => "client_onion"@,
            ProtectedField::RedeemedOnion => "redeemed_operational_onion"@,
            ProtectedField::ClientAuthPublicKey => "client_auth_public_key"@,
            ProtectedField::ClientAuthSecretPath => "client_auth_secret_path"@,
            ProtectedField::ClientAuthSecretRedeemToken => "client_auth_secret_redeem_token"@,
            ProtectedField::AttestationNonceDigest => "attestation_nonce_digest"@,
            ProtectedField::AttestationQuoteHash => "attestation_quote_hash"@,
            ProtectedField::TlsPubkeyDigest => "tls_pubkey_digest"@,
        }
    }

    /// The purpose that a value is sealed for; keys and failures carry it as
    /// their label.
    pub open spec fn purpose_text(self) -> Seq<char> {
        match self {
            ProtectedField::ClientOnion => CLIENT_ONION_AAD@,
            ProtectedField::RedeemedOnion => REDEEMED_ONION_AAD@,
            ProtectedField::ClientAuthPublicKey => TICKET_CLIENT_PUBLIC_KEY_AAD@,
            ProtectedField::ClientAuthSecretPath => TICKET_CLIENT_SECRET_PATH_AAD@,
            ProtectedField::ClientAuthSecretRedeemToken => TICKET_CLIENT_SECRET_REDEEM_TOKEN_AAD@,
            ProtectedField::AttestationNonceDigest => TICKET_ATTESTATION_NONCE_AAD@,
            ProtectedField::AttestationQuoteHash => TICKET_ATTESTATION_QUOTE_AAD@,
            ProtectedField::TlsPubkeyDigest => TICKET_TLS_PUBKEY_DIGEST_AAD@,
        }
    }

    /// The table that holds the column.
    pub fn table(self) -> (res: &'static str)
        ensures
            res@ == self.table_name(),
    {
        match self {
            ProtectedField::ClientOnion => "gateway_secrets.tor_auth_sessions",
            _ => "gateway_secrets.tor_access_tickets",
        }
    }

    /// The name of the column.
    pub fn column(self) -> (res: &'static str)
        ensures
            res@ == self.column_name(),
    {
        match self {
            ProtectedField::ClientOnion => "client_onion",
            ProtectedField::RedeemedOnion => "redeemed_operational_onion",
            ProtectedField::ClientAuthPublicKey => "client_auth_public_key",
            ProtectedField::ClientAuthSecretPath => "client_auth_secret_path",
            ProtectedField::ClientAuthSecretRedeemToken => "client_auth_secret_redeem_token",
            ProtectedField::AttestationNonceDigest => "attestation_nonce_digest",
            ProtectedField::AttestationQuoteHash => "attestation_quote_hash",
            ProtectedField::TlsPubkeyDigest => "tls_pubkey_digest",
        }
    }

    /// The purpose that a value is sealed for.
    pub fn purpose(self) -> (res: &'static str)
        ensures
            res@ == self.purpose_text(),
    {
        match self {
            ProtectedField::ClientOnion => CLIENT_ONION_AAD,
            ProtectedField::RedeemedOnion => REDEEMED_ONION_AAD,
            ProtectedField::ClientAuthPublicKey => TICKET_CLIENT_PUBLIC_KEY_AAD,
            ProtectedField::ClientAuthSecretPath => TICKET_CLIENT_SECRET_PATH_AAD,
            ProtectedField::ClientAuthSecretRedeemToken => TICKET_CLIENT_SECRET_REDEEM_TOKEN_AAD,
            ProtectedField::AttestationNonceDigest => TICKET_ATTESTATION_NONCE_AAD,
            ProtectedField::AttestationQuoteHash => TICKET_ATTESTATION_QUOTE_AAD,
            ProtectedField::TlsPubkeyDigest => TICKET_TLS_PUBKEY_DIGEST_AAD,
        }
    }

    /// The associated data of this field in one record.
    pub open spec fn context(self, row_id: Seq<u8>) -> Seq<u8> {
        bound_context(
            self.table_name(),
            self.column_name(),
            row_id,
            vstd::utf8::encode_utf8(self.purpose_text()),
        )
    }

    /// The associated data of this field in one record.
    pub fn aad(self, row_id: RecordId) -> (res: Vec<u8>)
        ensures
            res@ == self.context(row_id.bytes@),
    {
        record_bound_aad(self.table(), self.column(), row_id, self.purpose().as_bytes())
    }
}

/// The text in front of the purpose: schema version, table, field and record,
/// each closed by a NUL.
pub open spec fn context_heading(table: Seq<char>, field: Seq<char>, row_id: Seq<u8>) -> Seq<char> {
    "schema:v2\0table:"@ + table + "\0field:"@ + field + "\0row:"@ + encoding::id_text(row_id)
        + "\0"@
}

/// The associated data that binds a value to its schema version, table, field,
/// record and purpose.
pub open spec fn bound_context(
    table: Seq<char>,
    field: Seq<char>,
    row_id: Seq<u8>,
    purpose: Seq<u8>,
) -> Seq<u8> {
    vstd::utf8::encode_utf8(context_heading(table, field, row_id)) + purpose
}

/// The associated data that binds a value to its schema version, table, field,
/// record and purpose.
pub fn record_bound_aad(table: &str, field: &str, row_id: RecordId, purpose: &[u8]) -> (res: Vec<
    u8,
>)
    ensures
        res@ == bound_context(table@, field@, row_id.bytes@, purpose@),
{
    let row = encoding::id_to_text(&row_id);
    let heading = text::concat5("schema:v2\0table:", table, "\0field:", field, "\0row:").concat(
        row.as_str(),
    ).concat("\0");
    let mut aad: Vec<u8> = Vec::new();
    aad.extend_from_slice(heading.as_str().as_bytes());
    aad.extend_from_slice(purpose);
    assert(aad@ =~= bound_context(table@, field@, row_id.bytes@, purpose@));
    aad
}

proof fn lemma_split_at_zero(a: Seq<u8>, x: Seq<u8>, b: Seq<u8>, y: Seq<u8>)
    requires
        forall|i: int| 0 <= i < a.len() ==> #[trigger] a[i] != 0,
        forall|i: int| 0 <= i < b.len() ==> #[trigger] b[i] != 0,
        a + seq![0u8] + x == b + seq![0u8] + y,
    ensures
        a == b,
        x == y,
{
    let s = a + seq![0u8] + x;
    let t = b + seq![0u8] + y;
    assert(s[a.len() as int] == 0);
    assert(t[b.len() as int] == 0);
    if a.len() < b.len() {
        assert(t[a.len() as int] == b[a.len() as int]);
    }
    if b.len() < a.len() {
        assert(s[b.len() as int] == a[b.len() as int]);
    }
    assert forall|i: int| 0 <= i < a.len() implies a[i] == b[i] by {
        assert(s[i] == a[i]);
        assert(t[i] == b[i]);
    }
    assert(a =~= b);
    let n = a.len() + 1;
    assert(s.skip(n as int) =~= x);
    assert(t.skip(n as int) =~= y);
}

/// Whether a text is free of NUL characters.
pub open spec fn nul_free(s: Seq<char>) -> bool {
    forall|i: int| 0 <= i < s.len() ==> #[trigger] s[i] != '\0'
}

/// The bytes of a context, cut at its four NULs.
proof fn lemma_context_sections(
    table: Seq<char>,
    field: Seq<char>,
    row_id: Seq<u8>,
    purpose: Seq<u8>,
)
    requires
        row_id.len() == 16,
        nul_free(table),
        nul_free(field),
    ensures
        bound_context(table, field, row_id, purpose) == vstd::utf8::encode_utf8("schema:v2"@)
            + seq![0u8] + (vstd::utf8::encode_utf8("table:"@ + table) + seq![0u8] + (
        vstd::utf8::encode_utf8("field:"@ + field) + seq![0u8] + (vstd::utf8::encode_utf8(
            "row:"@ + encoding::id_text(row_id),
        ) + seq![0u8] + purpose))),
        nul_free("schema:v2"@),
        nul_free("table:"@ + table),
        nul_free("field:"@ + field),
        nul_free("row:"@ + encoding::id_text(row_id)),
{
    let schema = "schema:v2"@;
    let t = "table:"@ + table;
    let f = "field:"@ + field;
    let r = "row:"@ + encoding::id_text(row_id);
    let nul = seq!['\0'];
    reveal_strlit("schema:v2\0table:");
    reveal_strlit("schema:v2");
    reveal_strlit("table:");
    reveal_strlit("\0field:");
    reveal_strlit("field:");
    reveal_strlit("\0row:");
    reveal_strlit("row:");
    reveal_strlit("\0");
    encoding::id_text_shape(row_id);
    assert forall|i: int| 0 <= i < r.len() implies #[trigger] r[i] != '\0' by {
        if i >= 4 {
            assert(r[i] == encoding::id_text(row_id)[i - 4]);
        }
    }
    assert forall|i: int| 0 <= i < t.len() implies #[trigger] t[i] != '\0' by {
        if i >= 6 {
            assert(t[i] == table[i - 6]);
        }
    }
    assert forall|i: int| 0 <= i < f.len() implies #[trigger] f[i] != '\0' by {
        if i >= 6 {
            assert(f[i] == field[i - 6]);
        }
    }
    assert("schema:v2\0table:"@ =~= schema + nul + "table:"@);
    assert("\0field:"@ =~= nul + "field:"@);
    assert("\0row:"@ =~= nul + "row:"@);
    assert("\0"@ =~= nul);
    assert(context_heading(table, field, row_id) =~= schema + nul + t + nul + f + nul + r + nul);
    encoding::lemma_utf8_concat(schema + nul + t + nul + f + nul + r, nul);
    encoding::lemma_utf8_concat(schema + nul + t + nul + f + nul, r);
    encoding::lemma_utf8_concat(schema + nul + t + nul + f, nul);
    encoding::lemma_utf8_concat(schema + nul + t + nul, f);
    encoding::lemma_utf8_concat(schema + nul + t, nul);
    encoding::lemma_utf8_concat(schema + nul, t);
    encoding::lemma_utf8_concat(schema, nul);
    assert(vstd::utf8::is_ascii_chars(nul));
    vstd::utf8::is_ascii_chars_encode_utf8(nul);
    assert(vstd::utf8::encode_utf8(nul) =~= seq![0u8]) by {
        assert(nul[0] as u8 == 0);
    }
    assert(bound_context(table, field, row_id, purpose) =~= vstd::utf8::encode_utf8(schema)
        + seq![0u8] + (vstd::utf8::encode_utf8(t) + seq![0u8] + (vstd::utf8::encode_utf8(f)
        + seq![0u8] + (vstd::utf8::encode_utf8(r) + seq![0u8] + purpose))));
}

/// The associated data tells table, field, record and purpose apart: no two
/// of them in different places share it. Table and field are names without a
/// NUL.
pub proof fn context_is_injective(
    table1: Seq<char>,
    field1: Seq<char>,
    row1: Seq<u8>,
    purpose1: Seq<u8>,
    table2: Seq<char>,
    field2: Seq<char>,
    row2: Seq<u8>,
    purpose2: Seq<u8>,
)
    requires
        row1.len() == 16,
        row2.len() == 16,
        nul_free(table1),
        nul_free(field1),
        nul_free(table2),
        nul_free(field2),
        bound_context(table1, field1, row1, purpose1) == bound_context(
            table2,
            field2,
            row2,
            purpose2,
        ),
    ensures
        table1 == table2,
        field1 == field2,
        row1 == row2,
        purpose1 == purpose2,
{
    lemma_context_sections(table1, field1, row1, purpose1);
    lemma_context_sections(table2, field2, row2, purpose2);
    let s = vstd::utf8::encode_utf8("schema:v2"@);
    let t1 = vstd::utf8::encode_utf8("table:"@ + table1);
    let t2 = vstd::utf8::encode_utf8("table:"@ + table2);
    let f1 = vstd::utf8::encode_utf8("field:"@ + field1);
    let f2 = vstd::utf8::encode_utf8("field:"@ + field2);
    let r1 = vstd::utf8::encode_utf8("row:"@ + encoding::id_text(row1));
    let r2 = vstd::utf8::encode_utf8("row:"@ + encoding::id_text(row2));
    encoding::lemma_utf8_without_zero("schema:v2"@);
    encoding::lemma_utf8_without_zero("table:"@ + table1);
    encoding::lemma_utf8_without_zero("table:"@ + table2);
    encoding::lemma_utf8_without_zero("field:"@ + field1);
    encoding::lemma_utf8_without_zero("field:"@ + field2);
    encoding::lemma_utf8_without_zero("row:"@ + encoding::id_text(row1));
    encoding::lemma_utf8_without_zero("row:"@ + encoding::id_text(row2));
    let z = seq![0u8];
    lemma_split_at_zero(
        s,
        t1 + z + (f1 + z + (r1 + z + purpose1)),
        s,
        t2 + z + (f2 + z + (r2 + z + purpose2)),
    );
    lemma_split_at_zero(
        t1,
        f1 + z + (r1 + z + purpose1),
        t2,
        f2 + z + (r2 + z + purpose2),
    );
    lemma_split_at_zero(f1, r1 + z + purpose1, f2, r2 + z + purpose2);
    lemma_split_at_zero(r1, purpose1, r2, purpose2);
    encoding::lemma_utf8_injective("table:"@ + table1, "table:"@ + table2);
    encoding::lemma_utf8_injective("field:"@ + field1, "field:"@ + field2);
    encoding::lemma_utf8_injective(
        "row:"@ + encoding::id_text(row1),
        "row:"@ + encoding::id_text(row2),
    );
    let at_table = "table:"@.len() as int;
    let at_field = "field:"@.len() as int;
    let at_row = "row:"@.len() as int;
    assert(table1 =~= ("table:"@ + table1).skip(at_table));
    assert(table2 =~= ("table:"@ + table2).skip(at_table));
    assert(field1 =~= ("field:"@ + field1).skip(at_field));
    assert(field2 =~= ("field:"@ + field2).skip(at_field));
    assert(encoding::id_text(row1) =~= ("row:"@ + encoding::id_text(row1)).skip(at_row));
    assert(encoding::id_text(row2) =~= ("row:"@ + encoding::id_text(row2)).skip(at_row));
    encoding::id_text_injective(row1, row2);
}

/// No two protected fields, nor one field in two records, share their
/// associated data: a sealed value has one place only where it belongs.
pub proof fn protected_contexts_are_apart(
    field1: ProtectedField,
    row1: Seq<u8>,
    field2: ProtectedField,
    row2: Seq<u8>,
)
    requires
        row1.len() == 16,
        row2.len() == 16,
        field1.context(row1) == field2.context(row2),
    ensures
        field1 == field2,
        row1 == row2,
{
    reveal_strlit("gateway_secrets.tor_auth_sessions");
    reveal_strlit("gateway_secrets.tor_access_tickets");
    reveal_strlit("client_onion");
    reveal_strlit("redeemed_operational_onion");
    reveal_strlit("client_auth_public_key");
    reveal_strlit("client_auth_secret_path");
    reveal_strlit("client_auth_secret_redeem_token");
    reveal_strlit("attestation_nonce_digest");
    reveal_strlit("attestation_quote_hash");
    reveal_strlit("tls_pubkey_digest");
    context_is_injective(
        field1.table_name(),
        field1.column_name(),
        row1,
        vstd::utf8::encode_utf8(field1.purpose_text()),
        field2.table_name(),
        field2.column_name(),
        row2,
        vstd::utf8::encode_utf8(field2.purpose_text()),
    );
    assert(field1.column_name().len() == field2.column_name().len());
    assert("client_auth_public_key"@[0] == 'c');
    assert("attestation_quote_hash"@[0] == 'a');
}

/// How the broker treats a wrapped secret.
#[derive(Clone, Copy, Debug, PartialEq, Eq, Structural)]
pub enum SecretLifecycle {
    SingleUseUnwrap,
    RenewableLease,
    ServiceBootstrap,
}

/// What the broker is asked for when a value has to be sealed.
#[derive(Debug)]
pub struct AeadKeyRequest {
    pub label: String,
    pub lifecycle: SecretLifecycle,
    pub ttl_seconds: u64,
    pub initial_lease_seconds: u64,
}

/// A key on lease from the broker.
pub struct AeadLease {
    pub handle: String,
    pub key: Vec<u8>,
    pub redeem_token: Option<String>,
}

/// What a lease holds.
pub struct LeaseView {
    pub handle: Seq<char>,
    pub key: Seq<u8>,
    pub redeem_token: Option<Seq<char>>,
}

impl View for AeadLease {
    type V = LeaseView;

    open spec fn view(&self) -> LeaseView {
        LeaseView {
            handle: self.handle@,
            key: self.key@,
            redeem_token: text::optional(self.redeem_token),
        }
    }
}

/// What the broker answered: a lease, or the text of its failure.
pub open spec fn reply<T: View>(answer: Result<T, String>) -> Result<T::V, Seq<char>> {
    match answer {
        Ok(value) => Ok(value@),
        Err(failure) => Err(failure@),
    }
}

/// What has to happen to a value before it is stored.
#[derive(Debug)]
pub enum Protection {
    /// Store this.
    Store(Option<String>),
    /// Seal the value with a key that the broker leases for this request.
    Mint(AeadKeyRequest),
}

/// What has to happen to a value before it is stored, over views.
pub enum ProtectionView {
    Store(Option<Seq<char>>),
    Mint { label: Seq<char> },
}

impl View for Protection {
    type V = ProtectionView;

    open spec fn view(&self) -> ProtectionView {
        match self {
            Protection::Store(value) => ProtectionView::Store(text::optional(*value)),
            Protection::Mint(request) => ProtectionView::Mint { label: request.label@ },
        }
    }
}

/// Whether a request asks for a renewable lease of the usual length.
pub open spec fn usual_request(request: AeadKeyRequest) -> bool {
    &&& request.lifecycle == SecretLifecycle::RenewableLease
    &&& request.ttl_seconds == AEAD_KEY_TTL_SECONDS
    &&& request.initial_lease_seconds == AEAD_KEY_TTL_SECONDS
}

/// The refusal of a payload of the older version.
pub open spec fn legacy_refusal(label: Seq<char>) -> error::ErrorView {
    error::encryption(
        "legacy AEAD payload in protected field "@ + label + "; canonical v2 required"@,
    )
}

/// The refusal of stored plaintext.
pub open spec fn plaintext_refusal(label: Seq<char>) -> error::ErrorView {
    error::encryption("plaintext in protected field "@ + label)
}

/// What has to happen to a value before it is stored: nothing to an absent or
/// a canonical one, sealing to plaintext. The older version is refused.
pub open spec fn protection(value: Option<Seq<char>>, label: Seq<char>) -> Result<
    ProtectionView,
    error::ErrorView,
> {
    match value {
        None => Ok(ProtectionView::Store(None)),
        Some(existing) => if envelope::looks_canonical(existing) {
            Ok(ProtectionView::Store(Some(existing)))
        } else if envelope::looks_encrypted(existing) {
            Err(legacy_refusal(label))
        } else {
            Ok(ProtectionView::Mint { label })
        },
    }
}

fn legacy_error(label: &str) -> (res: error::DatabaseError)
    ensures
        res@ == legacy_refusal(label@),
{
    let message = text::concat3(
        "legacy AEAD payload in protected field ",
        label,
        "; canonical v2 required",
    );
    encryption_error(message.as_str())
}

/// Decide what has to happen to a value before it is stored in a protected
/// field.
pub fn ensure_aead_encrypted(value: Option<&str>, label: &str) -> (res: DbResult<Protection>)
    ensures
        error::outcome(res) == protection(text::optional_str(value), label@),
        res matches Ok(Protection::Mint(request)) ==> usual_request(request),
{
    match value {
        Some(existing) => if envelope::is_aead_payload_v2(existing) {
            Ok(Protection::Store(Some(existing.to_owned())))
        } else if envelope::is_aead_payload(existing) {
            Err(legacy_error(label))
        } else {
            Ok(
                Protection::Mint(
                    AeadKeyRequest {
                        label: label.to_owned(),
                        lifecycle: SecretLifecycle::RenewableLease,
                        ttl_seconds: AEAD_KEY_TTL_SECONDS,
                        initial_lease_seconds: AEAD_KEY_TTL_SECONDS,
                    },
                ),
            )
        },
        None => Ok(Protection::Store(None)),
    }
}

/// The payload that sealing a value under a lease gives, or why there is none.
pub open spec fn lease_sealing(
    plaintext: Seq<u8>,
    aad: Seq<u8>,
    lease: Result<LeaseView, Seq<char>>,
    nonce: Option<Seq<u8>>,
) -> Result<Seq<char>, error::ErrorView> {
    match lease {
        Err(failure) => Err(error::encryption(failure)),
        Ok(lease) => match lease.redeem_token {
            None => Err(error::encryption("broker v2 AEAD lease missing redeem token"@)),
            Some(token) => match crypto::sealing_drawn(lease.key, nonce, plaintext, aad) {
                Err(error) => Err(error),
                Ok(message) => Ok(envelope::payload(lease.handle, token, message)),
            },
        },
    }
}

/// Whether a payload holds a value sealed under a lease, so that the key of
/// the lease opens it in the same context.
pub open spec fn holds(
    stored: Seq<char>,
    plaintext: Seq<u8>,
    aad: Seq<u8>,
    handle: Seq<char>,
    redeem_token: Seq<char>,
    key: Seq<u8>,
    message: Seq<u8>,
) -> bool {
    &&& stored == envelope::payload(handle, redeem_token, message)
    &&& crypto::opening(key, message, aad) == Ok::<_, error::ErrorView>(plaintext)
}

/// Whether a payload holds a value sealed with this lease in this context.
pub open spec fn sealed_under(
    stored: Seq<char>,
    plaintext: Seq<u8>,
    aad: Seq<u8>,
    lease: Result<LeaseView, Seq<char>>,
) -> bool {
    lease matches Ok(lease) && lease.redeem_token matches Some(token) && exists|message: Seq<u8>|
        #[trigger] holds(stored, plaintext, aad, lease.handle, token, lease.key, message)
}

/// Whether a payload holds a value sealed with some lease in this context.
pub open spec fn sealed_for(stored: Seq<char>, plaintext: Seq<u8>, aad: Seq<u8>) -> bool {
    exists|lease: Result<LeaseView, Seq<char>>| #[trigger]
        sealed_under(stored, plaintext, aad, lease)
}

/// Seal a value with the key on lease and the nonce that was drawn.
pub fn encrypt_with_lease(
    plaintext: &[u8],
    aad: &[u8],
    lease: Result<AeadLease, String>,
    nonce: Option<Vec<u8>>,
) -> (res: DbResult<String>)
    requires
        crypto::drawn(crypto::nonce_view(nonce)),
    ensures
        error::outcome(res) == lease_sealing(
            plaintext@,
            aad@,
            reply(lease),
            crypto::nonce_view(nonce),
        ),
        res matches Ok(stored) ==> sealed_under(stored@, plaintext@, aad@, reply(lease)),
{
    let lease = match lease {
        Ok(lease) => lease,
        Err(failure) => return Err(encryption_error(failure.as_str())),
    };
    let mut key = lease.key;
    let redeem_token = match lease.redeem_token {
        Some(token) => token,
        None => return Err(encryption_error("broker v2 AEAD lease missing redeem token")),
    };
    let ghost key_bytes = key@;
    let ciphertext = match crypto::aes_seal_drawn(key.as_slice(), nonce, plaintext, aad) {
        Ok(ciphertext) => ciphertext,
        Err(error) => return Err(error),
    };
    crypto::wipe(&mut key);
    let stored = envelope::encode_aead_payload(
        lease.handle.as_str(),
        redeem_token.as_str(),
        ciphertext.as_slice(),
    );
    assert(holds(
        stored@,
        plaintext@,
        aad@,
        lease.handle@,
        redeem_token@,
        key_bytes,
        ciphertext@,
    ));
    Ok(stored)
}

/// Seal a value with a key that was leased for it, under a fresh nonce.
pub fn encrypt_with_new_aead(plaintext: &[u8], aad: &[u8], lease: Result<AeadLease, String>) -> (res:
    DbResult<String>)
    ensures
        exists|nonce: Option<Seq<u8>>| #[trigger]
            crypto::drawn(nonce) && error::outcome(res) == lease_sealing(
                plaintext@,
                aad@,
                reply(lease),
                nonce,
            ),
        res matches Ok(stored) ==> sealed_under(stored@, plaintext@, aad@, reply(lease)),
{
    let nonce = crypto::random_nonce();
    assert(crypto::drawn(crypto::nonce_view(nonce)));
    encrypt_with_lease(plaintext, aad, lease, nonce)
}

/// What is needed to recover a protected value: the key behind handle and
/// token, whose lease is then renewed, and the sealed message.
#[derive(Debug)]
pub struct KeyRequest {
    pub handle: String,
    pub redeem_token: String,
    pub renew_seconds: u64,
    pub ciphertext: Vec<u8>,
}

/// What a request for a key holds.
pub struct KeyRequestView {
    pub handle: Seq<char>,
    pub redeem_token: Seq<char>,
    pub renew_seconds: u64,
    pub ciphertext: Seq<u8>,
}

impl View for KeyRequest {
    type V = KeyRequestView;

    open spec fn view(&self) -> KeyRequestView {
        KeyRequestView {
            handle: self.handle@,
            redeem_token: self.redeem_token@,
            renew_seconds: self.renew_seconds,
            ciphertext: self.ciphertext@,
        }
    }
}

/// What is needed to recover the value behind a payload.
pub open spec fn payload_request(encoded: Seq<char>) -> Result<KeyRequestView, error::ErrorView> {
    match envelope::decoding(encoded) {
        Err(error) => Err(error),
        Ok((handle, None, ciphertext)) => Err(
            error::encryption(
                "legacy AEAD v1 payload encountered during decrypt; backfill to canonical v2 first"@,
            ),
        ),
        Ok((handle, Some(redeem_token), ciphertext)) => Ok(
            KeyRequestView {
                handle,
                redeem_token,
                renew_seconds: AEAD_KEY_TTL_SECONDS,
                ciphertext,
            },
        ),
    }
}

/// What is needed to recover a stored value. Plaintext and the older version
/// are refused; only an absent value needs nothing.
pub open spec fn recovery(value: Option<Seq<char>>, label: Seq<char>) -> Result<
    Option<KeyRequestView>,
    error::ErrorView,
> {
    match value {
        None => Ok(None),
        Some(stored) => if envelope::looks_canonical(stored) {
            match payload_request(stored) {
                Ok(request) => Ok(Some(request)),
                Err(error) => Err(error),
            }
        } else if envelope::looks_encrypted(stored) {
            Err(legacy_refusal(label))
        } else {
            Err(plaintext_refusal(label))
        },
    }
}

/// What a request that may be absent holds.
pub open spec fn optional_request(res: DbResult<Option<KeyRequest>>) -> Result<
    Option<KeyRequestView>,
    error::ErrorView,
> {
    match res {
        Ok(Some(request)) => Ok(Some(request@)),
        Ok(None) => Ok(None),
        Err(error) => Err(error@),
    }
}

/// The key that a payload needs.
pub fn request_key(encoded: &str) -> (res: DbResult<KeyRequest>)
    ensures
        error::outcome(res) == payload_request(encoded@),
{
    match envelope::decode_aead_payload(encoded) {
        Ok((handle, redeem_token, ciphertext)) => match redeem_token {
            Some(redeem_token) => Ok(
                KeyRequest {
                    handle,
                    redeem_token,
                    renew_seconds: AEAD_KEY_TTL_SECONDS,
                    ciphertext,
                },
            ),
            None => Err(
                encryption_error(
                    "legacy AEAD v1 payload encountered during decrypt; backfill to canonical v2 first",
                ),
            ),
        },
        Err(error) => Err(error),
    }
}

/// What is needed to decrypt an optional AEAD-encrypted string value.
/// `None` only for an absent database value. Present values must be
/// canonical v2 payloads; plaintext and legacy v1 payloads are corruption.
pub fn decrypt_aead_optional(value: Option<&str>, label: &str) -> (res: DbResult<
    Option<KeyRequest>,
>)
    ensures
        optional_request(res) == recovery(text::optional_str(value), label@),
{
    match value {
        Some(stored) => if envelope::is_aead_payload_v2(stored) {
            match request_key(stored) {
                Ok(request) => Ok(Some(request)),
                Err(error) => Err(error),
            }
        } else if envelope::is_aead_payload(stored) {
            Err(legacy_error(label))
        } else {
            let message = text::concat2("plaintext in protected field ", label);
            Err(encryption_error(message.as_str()))
        },
        None => Ok(None),
    }
}

/// The value that a key, or the failure to get one, recovers.
pub open spec fn recovered(key: Result<Seq<u8>, Seq<char>>, ciphertext: Seq<u8>, aad: Seq<u8>) -> Result<
    Seq<char>,
    error::ErrorView,
> {
    match key {
        Err(failure) => Err(error::encryption(failure)),
        Ok(key) => match crypto::opening(key, ciphertext, aad) {
            Err(error) => Err(error),
            Ok(plaintext) => match encoding::utf8_value(plaintext) {
                None => Err(error::encryption("decrypted AEAD payload is not valid UTF-8"@)),
                Some(text) => Ok(text),
            },
        },
    }
}

/// Open a sealed message with the key that the broker handed out. What comes
/// out was sealed under that key in this very context.
pub fn decrypt_with_broker(key: Result<Vec<u8>, String>, ciphertext: &[u8], aad: &[u8]) -> (res:
    DbResult<String>)
    ensures
        error::outcome(res) == recovered(reply(key), ciphertext@, aad@),
        res matches Ok(text) ==> (key matches Ok(key) && crypto::sealed_in(
            ciphertext@,
            key@,
            aad@,
            vstd::utf8::encode_utf8(text@),
        )),
{
    let mut key = match key {
        Ok(key) => key,
        Err(failure) => return Err(encryption_error(failure.as_str())),
    };
    let plaintext = match crypto::aes_decrypt_with_aad(key.as_slice(), ciphertext, aad) {
        Ok(plaintext) => plaintext,
        Err(error) => return Err(error),
    };
    crypto::wipe(&mut key);
    proof {
        if vstd::utf8::valid_utf8(plaintext@) {
            vstd::utf8::decode_utf8_encode_utf8(plaintext@);
        }
    }
    match encoding::utf8_decode(plaintext) {
        Some(text) => Ok(text),
        None => Err(encryption_error("decrypted AEAD payload is not valid UTF-8")),
    }
}

/// What was sealed for a field of a record is asked for by its own handle and
/// token, and its own key recovers the value in that field of that record.
pub proof fn sealed_value_is_recovered(
    stored: Seq<char>,
    value: Seq<char>,
    aad: Seq<u8>,
    label: Seq<char>,
    lease: LeaseView,
)
    requires
        sealed_under(stored, vstd::utf8::encode_utf8(value), aad, Ok(lease)),
    ensures
        recovery(Some(stored), label) matches Ok(Some(request)) && {
            &&& request.handle == lease.handle
            &&& lease.redeem_token == Some(request.redeem_token)
            &&& recovered(Ok(lease.key), request.ciphertext, aad) == Ok::<_, error::ErrorView>(
                value,
            )
        },
{
    let token = lease.redeem_token->0;
    let message = choose|message: Seq<u8>| #[trigger]
        holds(
            stored,
            vstd::utf8::encode_utf8(value),
            aad,
            lease.handle,
            token,
            lease.key,
            message,
        );
    envelope::payload_round_trip(lease.handle, token, message);
    envelope::payload_is_recognised(lease.handle, token, message);
    encoding::utf8_round_trip(value);
}

/// Plaintext and the older version never count as a stored protected value.
pub proof fn only_canonical_values_are_read(value: Seq<char>, label: Seq<char>)
    requires
        !envelope::looks_canonical(value),
    ensures
        recovery(Some(value), label) == Err::<Option<KeyRequestView>, _>(
            if envelope::looks_encrypted(value) {
                legacy_refusal(label)
            } else {
                plaintext_refusal(label)
            },
        ),
{
}

/// Whatever is let into a protected field without sealing is absent or
/// canonical, and it is the value itself.
pub proof fn only_canonical_values_are_stored(value: Option<Seq<char>>, label: Seq<char>)
    ensures
        protection(value, label) matches Ok(ProtectionView::Store(stored)) ==> {
            &&& stored == value
            &&& stored matches Some(payload) ==> envelope::looks_canonical(payload)
        },
{
}

/// A message that was sealed for one field of one record, and that comes out
/// for another field or another record, has the same ciphertext and tag under
/// two different contexts: carrying it over takes a collision of the cipher.
pub proof fn transplanted_values_take_a_collision(
    message: Seq<u8>,
    key: Seq<u8>,
    field1: ProtectedField,
    row1: Seq<u8>,
    value1: Seq<char>,
    field2: ProtectedField,
    row2: Seq<u8>,
    value2: Seq<char>,
)
    requires
        row1.len() == 16,
        row2.len() == 16,
        field1 != field2 || row1 != row2,
        message.len() >= 12,
        crypto::sealed_in(
            message,
            key,
            field1.context(row1),
            vstd::utf8::encode_utf8(value1),
        ),
        crypto::sealed_in(
            message,
            key,
            field2.context(row2),
            vstd::utf8::encode_utf8(value2),
        ),
    ensures
        field1.context(row1) != field2.context(row2),
        crypto::aes256_gcm_seal(
            key,
            message.take(12),
            field1.context(row1),
            vstd::utf8::encode_utf8(value1),
        ) == crypto::aes256_gcm_seal(
            key,
            message.take(12),
            field2.context(row2),
            vstd::utf8::encode_utf8(value2),
        ),
{
    if field1.context(row1) == field2.context(row2) {
        protected_contexts_are_apart(field1, row1, field2, row2);
    }
    crypto::moving_a_message_takes_a_collision(
        message,
        key,
        field1.context(row1),
        vstd::utf8::encode_utf8(value1),
        field2.context(row2),
        vstd::utf8::encode_utf8(value2),
    );
}

/// Every protected field has its table, its column and its purpose.
pub proof fn fields_have_their_names(field: ProtectedField)
    ensures
        (field.table_name(), field.column_name(), field.purpose_text()) == (match field {
            ProtectedField::ClientOnion => (
                "gateway_secrets.tor_auth_sessions"@,
                "client_onion"@,
                "tor-session-client-onion"@,
            ),
            ProtectedField::RedeemedOnion => (
                "gateway_secrets.tor_access_tickets"@,
                "redeemed_operational_onion"@,
                "tor-ticket-redeemed-onion"@,
            ),
            ProtectedField::ClientAuthPublicKey => (
                "gateway_secrets.tor_access_tickets"@,
                "client_auth_public_key"@,
                "tor-ticket-client-auth-public-key"@,
            ),
            ProtectedField::ClientAuthSecretPath => (
                "gateway_secrets.tor_access_tickets"@,
                "client_auth_secret_path"@,
                "tor-ticket-client-auth-secret-path"@,
            ),
            ProtectedField::ClientAuthSecretRedeemToken => (
                "gateway_secrets.tor_access_tickets"@,
                "client_auth_secret_redeem_token"@,
                "tor-ticket-client-auth-secret-redeem-token"@,
            ),
            ProtectedField::AttestationNonceDigest => (
                "gateway_secrets.tor_access_tickets"@,
                "attestation_nonce_digest"@,
                "tor-ticket-attestation-nonce"@,
            ),
            ProtectedField::AttestationQuoteHash => (
                "gateway_secrets.tor_access_tickets"@,
                "attestation_quote_hash"@,
                "tor-ticket-attestation-quote"@,
            ),
            ProtectedField::TlsPubkeyDigest => (
                "gateway_secrets.tor_access_tickets"@,
                "tls_pubkey_digest"@,
                "tor-ticket-tls-pubkey-digest"@,
            ),
        }),
{
}

/// The associated data of a field spell out where the value belongs: the
/// schema version, the table, the field and the record, each closed by a NUL,
/// and then the purpose.
pub proof fn contexts_spell_their_place(field: ProtectedField, row_id: Seq<u8>)
    ensures
        field.context(row_id) == vstd::utf8::encode_utf8(
            "schema:v2\0table:"@ + field.table_name() + "\0field:"@ + field.column_name()
                + "\0row:"@ + encoding::id_text(row_id) + "\0"@,
        ) + vstd::utf8::encode_utf8(field.purpose_text()),
{
}

/// Plaintext is never stored as it is: a key is asked for under the label of
/// its field. An absent value and a canonical payload are stored as they are,
/// and a payload of the older version is refused.
pub proof fn plaintext_is_always_sealed(value: Seq<char>, rest: Seq<char>, label: Seq<char>)
    ensures
        protection(None, label) == Ok::<_, error::ErrorView>(ProtectionView::Store(None)),
        protection(Some("aead:v2:"@ + rest), label) == Ok::<_, error::ErrorView>(
            ProtectionView::Store(Some("aead:v2:"@ + rest)),
        ),
        protection(Some("aead:v1:"@ + rest), label) == Err::<ProtectionView, _>(
            error::encryption(
                "legacy AEAD payload in protected field "@ + label + "; canonical v2 required"@,
            ),
        ),
        !text::begins_with(value, "aead:v1:"@) && !text::begins_with(value, "aead:v2:"@)
            ==> protection(Some(value), label) == Ok::<_, error::ErrorView>(
            ProtectionView::Mint { label },
        ),
{
    envelope::versions_stand_in_front(value, rest);
}

/// A key for a protected value is leased for a quarter of an hour, which can be
/// renewed.
pub proof fn keys_are_leased_for_a_quarter_hour(request: AeadKeyRequest)
    ensures
        usual_request(request) <==> request.lifecycle is RenewableLease && request.ttl_seconds
            == 15 * 60 && request.initial_lease_seconds == 15 * 60,
{
}

/// A value is sealed wherever the broker leases a key with a redeem token, a
/// nonce can be drawn and the lengths are in order; the payload then carries
/// the handle and the token of the lease, and the message under its nonce.
pub proof fn leases_are_sealed_with(
    plaintext: Seq<u8>,
    aad: Seq<u8>,
    lease: Result<LeaseView, Seq<char>>,
    nonce: Option<Seq<u8>>,
)
    ensures
        lease_sealing(plaintext, aad, lease, nonce) is Ok <==> lease is Ok
            && lease->Ok_0.redeem_token is Some && nonce is Some && crypto::seal_accepts(
            lease->Ok_0.key,
            plaintext,
            aad,
        ),
        lease_sealing(plaintext, aad, lease, nonce) matches Ok(stored) ==> envelope::decoding(
            stored,
        ) == Ok::<_, error::ErrorView>(
            (
                lease->Ok_0.handle,
                lease->Ok_0.redeem_token,
                nonce->0 + crypto::aes256_gcm_seal(lease->Ok_0.key, nonce->0, aad, plaintext),
            ),
        ),
        lease matches Err(failure) ==> lease_sealing(plaintext, aad, lease, nonce) == Err::<
            Seq<char>,
            _,
        >(error::encryption(failure)),
{
    if lease_sealing(plaintext, aad, lease, nonce) is Ok {
        envelope::payload_round_trip(
            lease->Ok_0.handle,
            lease->Ok_0.redeem_token->0,
            nonce->0 + crypto::aes256_gcm_seal(lease->Ok_0.key, nonce->0, aad, plaintext),
        );
    }
}

/// The key of a payload is asked for by the handle and the token in it, and
/// its lease renewed for a quarter of an hour; a payload of the older version
/// is refused.
pub proof fn keys_are_asked_for_by_handle(
    handle: Seq<char>,
    redeem_token: Seq<char>,
    ciphertext: Seq<u8>,
    label: Seq<char>,
)
    ensures
        payload_request(envelope::payload(handle, redeem_token, ciphertext)) == Ok::<
            _,
            error::ErrorView,
        >((KeyRequestView { handle, redeem_token, renew_seconds: 900, ciphertext })),
        recovery(Some(envelope::payload(handle, redeem_token, ciphertext)), label) == Ok::<
            _,
            error::ErrorView,
        >(Some((KeyRequestView { handle, redeem_token, renew_seconds: 900, ciphertext }))),
        payload_request(envelope::legacy_payload(handle, ciphertext)) is Err,
        recovery(Some(envelope::legacy_payload(handle, ciphertext)), label) == Err::<
            Option<KeyRequestView>,
            _,
        >(
            error::encryption(
                "legacy AEAD payload in protected field "@ + label + "; canonical v2 required"@,
            ),
        ),
        recovery(None, label) == Ok::<Option<KeyRequestView>, error::ErrorView>(None),
{
    envelope::payload_round_trip(handle, redeem_token, ciphertext);
    envelope::payload_is_recognised(handle, redeem_token, ciphertext);
    envelope::legacy_payload_decodes_without_token(handle, ciphertext);
}

/// A text is recovered exactly where the key opens the message, in this
/// context, to the UTF-8 of that text.
pub proof fn recovered_texts_were_sealed(
    key: Result<Seq<u8>, Seq<char>>,
    ciphertext: Seq<u8>,
    aad: Seq<u8>,
    value: Seq<char>,
)
    ensures
        recovered(key, ciphertext, aad) == Ok::<_, error::ErrorView>(value) <==> key is Ok
            && crypto::opening(key->Ok_0, ciphertext, aad) == Ok::<_, error::ErrorView>(
            vstd::utf8::encode_utf8(value),
        ),
        key matches Err(failure) ==> recovered(key, ciphertext, aad) == Err::<Seq<char>, _>(
            error::encryption(failure),
        ),
{
    encoding::utf8_round_trip(value);
    if let Ok(key) = key {
        if let Ok(plaintext) = crypto::opening(key, ciphertext, aad) {
            if vstd::utf8::valid_utf8(plaintext) {
                vstd::utf8::decode_utf8_encode_utf8(plaintext);
            }
        }
    }
}

/// A request for the key of a payload holds the handle, the token and the
/// message of it, each in its own place.
pub proof fn key_requests_hold_their_payload(
    request: KeyRequest,
    handle: Seq<char>,
    redeem_token: Seq<char>,
    ciphertext: Seq<u8>,
)
    requires
        payload_request(envelope::payload(handle, redeem_token, ciphertext)) == Ok::<
            _,
            error::ErrorView,
        >(request@),
    ensures
        request.handle@ == handle,
        request.redeem_token@ == redeem_token,
        request.ciphertext@ == ciphertext,
        request.renew_seconds == 900,
{
    keys_are_asked_for_by_handle(handle, redeem_token, ciphertext, Seq::empty());
}

/// What is sealed with a lease carries the handle and the token of that lease,
/// and is sealed with its key.
pub proof fn leases_are_used_by_their_parts(
    lease: AeadLease,
    plaintext: Seq<u8>,
    aad: Seq<u8>,
    nonce: Option<Seq<u8>>,
    stored: Seq<char>,
)
    requires
        lease_sealing(plaintext, aad, reply(Ok::<AeadLease, String>(lease)), nonce) == Ok::<
            _,
            error::ErrorView,
        >(stored),
    ensures
        nonce is Some,
        lease.redeem_token is Some,
        envelope::decoding(stored) == Ok::<_, error::ErrorView>(
            (
                lease.handle@,
                Some(lease.redeem_token->0@),
                nonce->0 + crypto::aes256_gcm_seal(lease.key@, nonce->0, aad, plaintext),
            ),
        ),
{
    leases_are_sealed_with(plaintext, aad, reply(Ok::<AeadLease, String>(lease)), nonce);
}

} // verus!
