//! Tor credentials, sessions and access tickets: the records, and the order in
//! which their protected fields are sealed before storage and recovered after.

use crate::encoding;
use crate::encoding::RecordId;
use crate::envelope;
use crate::error;
use crate::error::DbResult;
use crate::protection;
use crate::protection::{
    AeadKeyRequest, AeadLease, KeyRequest, KeyRequestView, LeaseView, ProtectedField, Protection,
    ProtectionView,
};
use crate::text;
use crate::time::Timestamp;
use vstd::prelude::*;

verus! {

/// Representation of a stored Tor credential.
#[derive(Debug, Clone)]
pub struct TorCredential {
    pub id: RecordId,
    pub onion_entry: String,
    pub tier: String,
    pub credential_hash: String,
    pub operational_onion: Option<String>,
    pub guard_nodes: Vec<String>,
    pub created_at: Timestamp,
    pub updated_at: Timestamp,
    pub expires_at: Option<Timestamp>,
    pub disabled: bool,
    pub rate_limit_per_minute: i32,
    pub last_rotated_at: Option<Timestamp>,
}

/// Session record used to persist successful authentications.
#[derive(Debug, Clone)]
pub struct TorSessionRecord {
    pub id: RecordId,
    pub credential_id: RecordId,
    pub circuit_id: Option<String>,
    pub fingerprint: Option<String>,
    pub guard_nodes: Vec<String>,
    pub client_onion: Option<String>,
    pub expires_at: Option<Timestamp>,
}

/// A credential as its table holds it.
#[derive(Debug)]
pub struct TorCredentialRow {
    pub id: RecordId,
    pub onion_entry: String,
    pub tier: String,
    pub credential_hash: String,
    pub operational_onion: Option<String>,
    pub guard_nodes: Option<Vec<String>>,
    pub created_at: Timestamp,
    pub updated_at: Timestamp,
    pub expires_at: Option<Timestamp>,
    pub disabled: bool,
    pub rate_limit_per_minute: i32,
    pub last_rotated_at: Option<Timestamp>,
}

/// A session as its table holds it.
#[derive(Debug)]
pub struct TorSessionRow {
    pub id: RecordId,
    pub credential_id: RecordId,
    pub circuit_id: Option<String>,
    pub fingerprint: Option<String>,
    pub guard_nodes: Option<Vec<String>>,
    pub client_onion: Option<String>,
    pub expires_at: Option<Timestamp>,
}

/// A session as it is inserted.
#[derive(Debug)]
pub struct TorSessionInsert {
    pub id: RecordId,
    pub credential_id: RecordId,
    pub session_key: RecordId,
    pub circuit_id: Option<String>,
    pub fingerprint: Option<String>,
    pub guard_nodes: Vec<String>,
    pub client_onion: Option<String>,
    pub expires_at: Option<Timestamp>,
}

/// A ticket as its holder gets it.
#[derive(Debug, Clone)]
pub struct IssuedTorAccessTicket {
    pub id: RecordId,
    pub credential_id: RecordId,
    pub entry_onion: String,
    pub client_fingerprint: Option<String>,
    pub created_at: Timestamp,
    pub expires_at: Timestamp,
    pub redeemed_at: Option<Timestamp>,
    pub redeemed_operational_onion: Option<String>,
    pub client_auth_public_key: String,
    pub client_auth_secret_path: String,
    pub client_auth_secret_redeem_token: Option<String>,
    pub attestation_session_id: RecordId,
    pub attestation_nonce_digest: String,
    pub attestation_quote_hash: String,
    pub attested_at: Timestamp,
    pub tee_kind: String,
    pub tee_label: Option<String>,
    pub tee_policy: Option<String>,
    pub tls_pubkey_digest: String,
}

/// A ticket with its sensitive material recovered, for verification.
#[derive(Debug, Clone)]
pub struct TicketVerificationRecord {
    pub id: RecordId,
    pub credential_id: RecordId,
    pub token_hash: String,
    pub client_fingerprint: Option<String>,
    pub expires_at: Timestamp,
    pub redeemed_at: Option<Timestamp>,
    pub client_auth_public_key: String,
    pub client_auth_secret_path: String,
    pub client_auth_secret_redeem_token: Option<String>,
    pub attestation_session_id: RecordId,
    pub attestation_nonce_digest: String,
    pub attestation_quote_hash: String,
    pub attested_at: Timestamp,
    pub tee_kind: String,
    pub tee_label: Option<String>,
    pub tee_policy: Option<String>,
    pub tls_pubkey_digest: String,
}

/// The lifecycle state of a ticket, without its sensitive material.
#[derive(Debug, Clone)]
pub struct TicketStatusRecord {
    pub id: RecordId,
    pub credential_id: RecordId,
    pub expires_at: Timestamp,
    pub redeemed_at: Option<Timestamp>,
}

/// A ticket that is to be issued.
#[derive(Debug)]
pub struct NewTorAccessTicket {
    pub id: RecordId,
    pub credential_id: RecordId,
    pub entry_onion: String,
    pub token_hash: String,
    pub expires_at: Timestamp,
    pub client_fingerprint: Option<String>,
    pub client_auth_public_key: String,
    pub client_auth_secret_path: String,
    pub client_auth_secret_redeem_token: Option<String>,
    pub attestation_session_id: RecordId,
    pub attestation_nonce_digest: String,
    pub attestation_quote_hash: String,
    pub attested_at: Timestamp,
    pub tee_kind: String,
    pub tee_label: Option<String>,
    pub tee_policy: Option<String>,
    pub tls_pubkey_digest: String,
}

/// What the insertion of a ticket returns.
#[derive(Debug)]
pub struct IssuedTorAccessTicketRow {
    pub id: RecordId,
    pub created_at: Timestamp,
    pub expires_at: Timestamp,
}

/// A ticket as it is inserted, with its protected columns sealed.
#[derive(Debug)]
pub struct TicketInsert {
    pub id: RecordId,
    pub credential_id: RecordId,
    pub token_hash: String,
    pub entry_onion: String,
    pub client_fingerprint: Option<String>,
    pub expires_at: Timestamp,
    pub client_auth_public_key: String,
    pub client_auth_secret_path: String,
    pub attestation_session_id: RecordId,
    pub client_auth_secret_redeem_token: Option<String>,
    pub attestation_nonce_digest: String,
    pub attestation_quote_hash: String,
    pub attested_at: Timestamp,
    pub tee_kind: String,
    pub tee_label: Option<String>,
    pub tee_policy: Option<String>,
    pub tls_pubkey_digest: String,
}

/// A ticket as it is read for verification.
#[derive(Debug)]
pub struct TicketVerificationRow {
    pub id: RecordId,
    pub credential_id: RecordId,
    pub token_hash: String,
    pub client_fingerprint: Option<String>,
    pub expires_at: Timestamp,
    pub redeemed_at: Option<Timestamp>,
    pub client_auth_public_key: String,
    pub client_auth_secret_path: String,
    pub client_auth_secret_redeem_token: Option<String>,
    pub attestation_session_id: RecordId,
    pub attestation_nonce_digest: String,
    pub attestation_quote_hash: String,
    pub attested_at: Timestamp,
    pub tee_kind: String,
    pub tee_label: Option<String>,
    pub tee_policy: Option<String>,
    pub tls_pubkey_digest: String,
}

/// The lifecycle columns of a ticket.
#[derive(Debug)]
pub struct TicketStatusRow {
    pub id: RecordId,
    pub credential_id: RecordId,
    pub expires_at: Timestamp,
    pub redeemed_at: Option<Timestamp>,
}

impl NewTorAccessTicket {
    /// The plaintext of a protected field.
    pub open spec fn secret(self, field: ProtectedField) -> Option<Seq<char>> {
        match field {
            ProtectedField::ClientAuthPublicKey => Some(self.client_auth_public_key@),
            ProtectedField::ClientAuthSecretPath => Some(self.client_auth_secret_path@),
            ProtectedField::ClientAuthSecretRedeemToken => text::optional(
                self.client_auth_secret_redeem_token,
            ),
            ProtectedField::AttestationNonceDigest => Some(self.attestation_nonce_digest@),
            ProtectedField::AttestationQuoteHash => Some(self.attestation_quote_hash@),
            ProtectedField::TlsPubkeyDigest => Some(self.tls_pubkey_digest@),
            _ => None,
        }
    }

    fn secret_text(&self, field: ProtectedField) -> (res: Option<&str>)
        ensures
            text::optional_str(res) == self.secret(field),
    {
        match field {
            ProtectedField::ClientAuthPublicKey => Some(self.client_auth_public_key.as_str()),
            ProtectedField::ClientAuthSecretPath => Some(self.client_auth_secret_path.as_str()),
            ProtectedField::ClientAuthSecretRedeemToken => match &self.client_auth_secret_redeem_token {
                Some(token) => Some(token.as_str()),
                None => None,
            },
            ProtectedField::AttestationNonceDigest => Some(self.attestation_nonce_digest.as_str()),
            ProtectedField::AttestationQuoteHash => Some(self.attestation_quote_hash.as_str()),
            ProtectedField::TlsPubkeyDigest => Some(self.tls_pubkey_digest.as_str()),
            _ => None,
        }
    }
}

/// The order in which the fields of a new ticket are protected.
pub open spec fn issue_order() -> Seq<ProtectedField> {
    seq![
        ProtectedField::ClientAuthPublicKey,
        ProtectedField::ClientAuthSecretPath,
        ProtectedField::AttestationNonceDigest,
        ProtectedField::AttestationQuoteHash,
        ProtectedField::ClientAuthSecretRedeemToken,
        ProtectedField::TlsPubkeyDigest,
    ]
}

fn issue_field(i: usize) -> (res: ProtectedField)
    requires
        i < 6,
    ensures
        res == issue_order()[i as int],
{
    match i {
        0 => ProtectedField::ClientAuthPublicKey,
        1 => ProtectedField::ClientAuthSecretPath,
        2 => ProtectedField::AttestationNonceDigest,
        3 => ProtectedField::AttestationQuoteHash,
        4 => ProtectedField::ClientAuthSecretRedeemToken,
        _ => ProtectedField::TlsPubkeyDigest,
    }
}

/// Whether a stored value is the right one for a secret: nothing for nothing, a
/// canonical payload as it was given, and a payload sealed in this context for
/// plaintext.
pub open spec fn protects(
    stored: Option<Seq<char>>,
    secret: Option<Seq<char>>,
    context: Seq<u8>,
) -> bool {
    match secret {
        None => stored is None,
        Some(value) => if envelope::looks_canonical(value) {
            stored == Some(value)
        } else {
            &&& !envelope::looks_encrypted(value)
            &&& stored matches Some(payload) && protection::sealed_for(
                payload,
                vstd::utf8::encode_utf8(value),
                context,
            )
        },
    }
}

/// What is stored in a protected field is absent or a canonical payload; it is
/// never plaintext.
pub proof fn protected_values_are_canonical(
    stored: Option<Seq<char>>,
    secret: Option<Seq<char>>,
    context: Seq<u8>,
)
    requires
        protects(stored, secret, context),
    ensures
        stored is None <==> secret is None,
        stored matches Some(payload) ==> envelope::looks_canonical(payload),
{
    if let Some(value) = secret {
        if !envelope::looks_canonical(value) {
            let payload = stored->0;
            let plaintext = vstd::utf8::encode_utf8(value);
            let lease = (choose|lease: Result<LeaseView, Seq<char>>| #[trigger]
                protection::sealed_under(payload, plaintext, context, lease))->Ok_0;
            let token = lease.redeem_token->0;
            let message = choose|message: Seq<u8>| #[trigger]
                protection::holds(
                    payload,
                    plaintext,
                    context,
                    lease.handle,
                    token,
                    lease.key,
                    message,
                );
            envelope::payload_is_recognised(lease.handle, token, message);
        }
    }
}

/// What the issuing of a ticket has to do next.
#[derive(Debug)]
pub enum IssuanceStep {
    /// Have the broker lease a key, and hand it to `TicketIssuance::supply`.
    Mint(AeadKeyRequest),
    /// Insert this row, and hand what comes back to `TicketIssuance::complete`.
    Insert(TicketInsert),
}

/// What the issuing of a ticket has to do next, over views.
pub enum IssuanceStepView {
    Mint { label: Seq<char> },
    Insert,
}

impl View for IssuanceStep {
    type V = IssuanceStepView;

    open spec fn view(&self) -> IssuanceStepView {
        match self {
            IssuanceStep::Mint(request) => IssuanceStepView::Mint { label: request.label@ },
            IssuanceStep::Insert(row) => IssuanceStepView::Insert,
        }
    }
}

/// The issuing of one ticket: its fields are protected one after the other.
#[derive(Debug)]
pub struct TicketIssuance {
    ticket: NewTorAccessTicket,
    stored: Vec<Option<String>>,
}

/// A ticket and the protected values of its first fields.
pub struct IssuanceView {
    pub ticket: NewTorAccessTicket,
    pub stored: Seq<Option<Seq<char>>>,
}

impl View for TicketIssuance {
    type V = IssuanceView;

    closed spec fn view(&self) -> IssuanceView {
        IssuanceView {
            ticket: self.ticket,
            stored: self.stored@.map_values(|value: Option<String>| text::optional(value)),
        }
    }
}

impl IssuanceView {
    /// Each field that is done holds the right value.
    pub open spec fn wf(self) -> bool {
        &&& self.stored.len() <= 6
        &&& forall|i: int|
            0 <= i < self.stored.len() ==> protects(
                #[trigger] self.stored[i],
                self.ticket.secret(issue_order()[i]),
                issue_order()[i].context(self.ticket.id.bytes@),
            )
    }

    /// Whether the next field is plaintext that waits for a key.
    pub open spec fn awaits_key(self) -> bool {
        self.stored.len() < 6 && protection::protection(
            self.ticket.secret(issue_order()[self.stored.len() as int]),
            issue_order()[self.stored.len() as int].purpose_text(),
        ) matches Ok(ProtectionView::Mint { label })
    }
}

/// The values that are stored without a key from here on, and what comes then.
pub open spec fn settle(ticket: NewTorAccessTicket, stored: Seq<Option<Seq<char>>>) -> (
    Seq<Option<Seq<char>>>,
    Result<IssuanceStepView, error::ErrorView>,
)
    decreases 6 - stored.len(),
{
    if stored.len() >= 6 {
        (stored, Ok(IssuanceStepView::Insert))
    } else {
        let field = issue_order()[stored.len() as int];
        match protection::protection(ticket.secret(field), field.purpose_text()) {
            Err(error) => (stored, Err(error)),
            Ok(ProtectionView::Mint { label }) => (stored, Ok(IssuanceStepView::Mint { label })),
            Ok(ProtectionView::Store(value)) => settle(ticket, stored.push(value)),
        }
    }
}

/// Whether a row is the ticket with these values in its protected columns.
pub open spec fn row_of(
    row: TicketInsert,
    ticket: NewTorAccessTicket,
    stored: Seq<Option<Seq<char>>>,
) -> bool {
    &&& row.id == ticket.id
    &&& row.credential_id == ticket.credential_id
    &&& row.token_hash == ticket.token_hash
    &&& row.entry_onion == ticket.entry_onion
    &&& text::optional(row.client_fingerprint) == text::optional(ticket.client_fingerprint)
    &&& row.expires_at == ticket.expires_at
    &&& Some(row.client_auth_public_key@) == stored[0]
    &&& Some(row.client_auth_secret_path@) == stored[1]
    &&& row.attestation_session_id == ticket.attestation_session_id
    &&& text::optional(row.client_auth_secret_redeem_token) == stored[4]
    &&& Some(row.attestation_nonce_digest@) == stored[2]
    &&& Some(row.attestation_quote_hash@) == stored[3]
    &&& row.attested_at == ticket.attested_at
    &&& row.tee_kind == ticket.tee_kind
    &&& text::optional(row.tee_label) == text::optional(ticket.tee_label)
    &&& text::optional(row.tee_policy) == text::optional(ticket.tee_policy)
    &&& Some(row.tls_pubkey_digest@) == stored[5]
}

/// Whether an issued ticket shows the new ticket's own values, before any
/// protection, with what the insertion returned.
pub open spec fn issued_from(
    issued: IssuedTorAccessTicket,
    ticket: NewTorAccessTicket,
    record: IssuedTorAccessTicketRow,
) -> bool {
    &&& issued.id == record.id
    &&& issued.credential_id == ticket.credential_id
    &&& issued.entry_onion == ticket.entry_onion
    &&& issued.client_fingerprint == ticket.client_fingerprint
    &&& issued.created_at == record.created_at
    &&& issued.expires_at == record.expires_at
    &&& issued.redeemed_at is None
    &&& issued.redeemed_operational_onion is None
    &&& issued.client_auth_public_key == ticket.client_auth_public_key
    &&& issued.client_auth_secret_path == ticket.client_auth_secret_path
    &&& issued.client_auth_secret_redeem_token == ticket.client_auth_secret_redeem_token
    &&& issued.attestation_session_id == ticket.attestation_session_id
    &&& issued.attestation_nonce_digest == ticket.attestation_nonce_digest
    &&& issued.attestation_quote_hash == ticket.attestation_quote_hash
    &&& issued.attested_at == ticket.attested_at
    &&& issued.tee_kind == ticket.tee_kind
    &&& issued.tee_label == ticket.tee_label
    &&& issued.tee_policy == ticket.tee_policy
    &&& issued.tls_pubkey_digest == ticket.tls_pubkey_digest
}

impl TicketIssuance {
    /// Begin to issue a ticket.
    pub fn new(ticket: NewTorAccessTicket) -> (res: Self)
        ensures
            res@ == (IssuanceView { ticket, stored: Seq::empty() }),
            res@.wf(),
    {
        let res = TicketIssuance { ticket, stored: Vec::new() };
        assert(res@.stored =~= Seq::empty());
        res
    }

    /// Go on as far as no key is needed.
    pub fn advance(&mut self) -> (res: DbResult<IssuanceStep>)
        requires
            old(self)@.wf(),
        ensures
            final(self)@.wf(),
            final(self)@.ticket == old(self)@.ticket,
            (final(self)@.stored, error::outcome(res)) == settle(
                old(self)@.ticket,
                old(self)@.stored,
            ),
            res matches Ok(IssuanceStep::Mint(request)) ==> {
                &&& final(self)@.awaits_key()
                &&& protection::usual_request(request)
            },
            res matches Ok(IssuanceStep::Insert(row)) ==> {
                &&& final(self)@.stored.len() == 6
                &&& row_of(row, final(self)@.ticket, final(self)@.stored)
            },
    {
        let ghost ticket = self.ticket;
        let ghost begun = self@.stored;
        while self.stored.len() < 6
            invariant
                self@.wf(),
                self.ticket == ticket,
                old(self)@.ticket == ticket,
                old(self)@.stored == begun,
                settle(ticket, self@.stored) == settle(ticket, begun),
            decreases 6 - self.stored.len(),
        {
            let field = issue_field(self.stored.len());
            let ghost before = self@.stored;
            let value = self.ticket.secret_text(field);
            match protection::ensure_aead_encrypted(value, field.purpose()) {
                Err(error) => return Err(error),
                Ok(Protection::Mint(request)) => return Ok(IssuanceStep::Mint(request)),
                Ok(Protection::Store(value)) => {
                    self.stored.push(value);
                    assert(self@.stored =~= before.push(text::optional(value)));
                },
            }
        }
        let row = self.row();
        Ok(IssuanceStep::Insert(row))
    }

    fn row(&self) -> (res: TicketInsert)
        requires
            self@.wf(),
            self@.stored.len() == 6,
        ensures
            row_of(res, self@.ticket, self@.stored),
    {
        proof {
            let s = self@.stored;
            assert(forall|i: int| 0 <= i < 6 ==> #[trigger] s[i] == text::optional(self.stored@[i]));
            assert(s[0] is Some && s[1] is Some && s[2] is Some && s[3] is Some && s[5] is Some);
        }
        TicketInsert {
            id: self.ticket.id,
            credential_id: self.ticket.credential_id,
            token_hash: self.ticket.token_hash.clone(),
            entry_onion: self.ticket.entry_onion.clone(),
            client_fingerprint: text::copy_optional(&self.ticket.client_fingerprint),
            expires_at: self.ticket.expires_at,
            client_auth_public_key: text::copy_optional(&self.stored[0]).unwrap(),
            client_auth_secret_path: text::copy_optional(&self.stored[1]).unwrap(),
            attestation_session_id: self.ticket.attestation_session_id,
            client_auth_secret_redeem_token: text::copy_optional(&self.stored[4]),
            attestation_nonce_digest: text::copy_optional(&self.stored[2]).unwrap(),
            attestation_quote_hash: text::copy_optional(&self.stored[3]).unwrap(),
            attested_at: self.ticket.attested_at,
            tee_kind: self.ticket.tee_kind.clone(),
            tee_label: text::copy_optional(&self.ticket.tee_label),
            tee_policy: text::copy_optional(&self.ticket.tee_policy),
            tls_pubkey_digest: text::copy_optional(&self.stored[5]).unwrap(),
        }
    }

    /// Seal the field that waits with the key that the broker leased for it.
    pub fn supply(&mut self, lease: Result<AeadLease, String>) -> (res: DbResult<()>)
        requires
            old(self)@.wf(),
            old(self)@.awaits_key(),
        ensures
            final(self)@.wf(),
            final(self)@.ticket == old(self)@.ticket,
            ({
                let field = issue_order()[old(self)@.stored.len() as int];
                exists|nonce: Option<Seq<u8>>| #[trigger]
                    crate::crypto::drawn(nonce) && protection::lease_sealing(
                        vstd::utf8::encode_utf8(old(self)@.ticket.secret(field)->0),
                        field.context(old(self)@.ticket.id.bytes@),
                        protection::reply(lease),
                        nonce,
                    ) == (match res {
                        Ok(()) => Ok(final(self)@.stored.last()->0),
                        Err(error) => Err(error@),
                    })
            }),
            match res {
                Ok(()) => {
                    &&& final(self)@.stored.len() == old(self)@.stored.len() + 1
                    &&& final(self)@.stored.drop_last() == old(self)@.stored
                    &&& final(self)@.stored.last() is Some
                },
                Err(error) => final(self)@.stored == old(self)@.stored,
            },
    {
        let field = issue_field(self.stored.len());
        let ghost before = self@.stored;
        let aad = field.aad(self.ticket.id);
        let plaintext = self.ticket.secret_text(field).unwrap();
        let ghost leased = protection::reply(lease);
        match protection::encrypt_with_new_aead(plaintext.as_bytes(), aad.as_slice(), lease) {
            Ok(payload) => {
                self.stored.push(Some(payload));
                assert(self@.stored =~= before.push(Some(payload@)));
                assert(protection::sealed_under(
                    payload@,
                    vstd::utf8::encode_utf8(plaintext@),
                    aad@,
                    leased,
                ));
                assert(self@.stored.drop_last() =~= before);
                Ok(())
            },
            Err(error) => Err(error),
        }
    }

    /// The ticket for its holder, once the row is inserted. It shows the
    /// values as they were given: reading the row back would use up the redeem
    /// tokens that verification needs.
    pub fn complete(self, record: IssuedTorAccessTicketRow) -> (res: IssuedTorAccessTicket)
        ensures
            issued_from(res, self@.ticket, record),
    {
        let ticket = self.ticket;
        IssuedTorAccessTicket {
            id: record.id,
            credential_id: ticket.credential_id,
            entry_onion: ticket.entry_onion,
            client_fingerprint: ticket.client_fingerprint,
            created_at: record.created_at,
            expires_at: record.expires_at,
            redeemed_at: None,
            redeemed_operational_onion: None,
            client_auth_public_key: ticket.client_auth_public_key,
            client_auth_secret_path: ticket.client_auth_secret_path,
            client_auth_secret_redeem_token: ticket.client_auth_secret_redeem_token,
            attestation_session_id: ticket.attestation_session_id,
            attestation_nonce_digest: ticket.attestation_nonce_digest,
            attestation_quote_hash: ticket.attestation_quote_hash,
            attested_at: ticket.attested_at,
            tee_kind: ticket.tee_kind,
            tee_label: ticket.tee_label,
            tee_policy: ticket.tee_policy,
            tls_pubkey_digest: ticket.tls_pubkey_digest,
        }
    }
}

/// What was stored for a secret of a new ticket is recovered from its column by
/// the key that it was sealed with, which the broker hands out for the handle
/// and the token in the payload. A secret that came in as a payload is not of
/// this kind: it is stored as it came.
pub proof fn issued_secret_is_recovered(
    stored: Option<Seq<char>>,
    secret: Option<Seq<char>>,
    field: ProtectedField,
    row_id: Seq<u8>,
)
    requires
        protects(stored, secret, field.context(row_id)),
        secret matches Some(value) ==> !envelope::looks_canonical(value),
    ensures
        secret is None ==> protection::recovery(stored, field.purpose_text()) == Ok::<
            Option<KeyRequestView>,
            error::ErrorView,
        >(None),
        secret matches Some(value) ==> exists|lease: LeaseView|
            {
                &&& #[trigger] protection::sealed_under(
                    stored->0,
                    vstd::utf8::encode_utf8(value),
                    field.context(row_id),
                    Ok(lease),
                )
                &&& protection::recovery(stored, field.purpose_text()) matches Ok(Some(request)) && {
                    &&& request.handle == lease.handle
                    &&& lease.redeem_token == Some(request.redeem_token)
                    &&& protection::recovered(
                        Ok(lease.key),
                        request.ciphertext,
                        field.context(row_id),
                    ) == Ok::<_, error::ErrorView>(value)
                }
            },
{
    if let Some(value) = secret {
        let plaintext = vstd::utf8::encode_utf8(value);
        let answer = choose|lease: Result<LeaseView, Seq<char>>| #[trigger]
            protection::sealed_under(stored->0, plaintext, field.context(row_id), lease);
        let lease = answer->Ok_0;
        assert(protection::sealed_under(stored->0, plaintext, field.context(row_id), Ok(lease)));
        protection::sealed_value_is_recovered(
            stored->0,
            value,
            field.context(row_id),
            field.purpose_text(),
            lease,
        );
    }
}

impl TicketVerificationRow {
    /// The stored value of a protected field.
    pub open spec fn stored(self, field: ProtectedField) -> Option<Seq<char>> {
        match field {
            ProtectedField::ClientAuthPublicKey => Some(self.client_auth_public_key@),
            ProtectedField::ClientAuthSecretPath => Some(self.client_auth_secret_path@),
            ProtectedField::ClientAuthSecretRedeemToken => text::optional(
                self.client_auth_secret_redeem_token,
            ),
            ProtectedField::AttestationNonceDigest => Some(self.attestation_nonce_digest@),
            ProtectedField::AttestationQuoteHash => Some(self.attestation_quote_hash@),
            ProtectedField::TlsPubkeyDigest => Some(self.tls_pubkey_digest@),
            _ => None,
        }
    }

    fn stored_text(&self, field: ProtectedField) -> (res: Option<&str>)
        ensures
            text::optional_str(res) == self.stored(field),
    {
        match field {
            ProtectedField::ClientAuthPublicKey => Some(self.client_auth_public_key.as_str()),
            ProtectedField::ClientAuthSecretPath => Some(self.client_auth_secret_path.as_str()),
            ProtectedField::ClientAuthSecretRedeemToken => match &self.client_auth_secret_redeem_token {
                Some(token) => Some(token.as_str()),
                None => None,
            },
            ProtectedField::AttestationNonceDigest => Some(self.attestation_nonce_digest.as_str()),
            ProtectedField::AttestationQuoteHash => Some(self.attestation_quote_hash.as_str()),
            ProtectedField::TlsPubkeyDigest => Some(self.tls_pubkey_digest.as_str()),
            _ => None,
        }
    }
}

/// The order in which the fields of a stored ticket are recovered.
pub open spec fn read_order() -> Seq<ProtectedField> {
    seq![
        ProtectedField::ClientAuthPublicKey,
        ProtectedField::ClientAuthSecretPath,
        ProtectedField::ClientAuthSecretRedeemToken,
        ProtectedField::AttestationNonceDigest,
        ProtectedField::AttestationQuoteHash,
        ProtectedField::TlsPubkeyDigest,
    ]
}

fn read_field(i: usize) -> (res: ProtectedField)
    requires
        i < 6,
    ensures
        res == read_order()[i as int],
{
    match i {
        0 => ProtectedField::ClientAuthPublicKey,
        1 => ProtectedField::ClientAuthSecretPath,
        2 => ProtectedField::ClientAuthSecretRedeemToken,
        3 => ProtectedField::AttestationNonceDigest,
        4 => ProtectedField::AttestationQuoteHash,
        _ => ProtectedField::TlsPubkeyDigest,
    }
}

/// Whether a key recovers a value from a sealed message in this context.
pub open spec fn opens_to(
    key: Seq<u8>,
    ciphertext: Seq<u8>,
    context: Seq<u8>,
    value: Seq<char>,
) -> bool {
    protection::recovered(Ok(key), ciphertext, context) == Ok::<_, error::ErrorView>(value)
}

/// Whether a recovered value is what some key opens the stored one to, in its
/// own context; nothing is recovered from nothing.
#[verifier::opaque]
pub open spec fn reveals(
    opened: Option<Seq<char>>,
    stored: Option<Seq<char>>,
    label: Seq<char>,
    context: Seq<u8>,
) -> bool {
    match stored {
        None => opened is None,
        Some(payload) => {
            &&& protection::recovery(stored, label) matches Ok(Some(request))
            &&& opened matches Some(value)
            &&& exists|key: Seq<u8>| #[trigger] opens_to(key, request.ciphertext, context, value)
        },
    }
}

/// What the reading of a ticket has to do next.
#[derive(Debug)]
pub enum ReadingStep {
    /// Have the broker unwrap a key, renew its lease where that succeeds, and
    /// hand the key to `TicketReading::supply`.
    Unwrap { handle: String, redeem_token: String, renew_seconds: u64 },
    /// All fields are recovered; `TicketReading::complete` has the record.
    Finished,
}

/// What the reading of a ticket has to do next, over views.
pub enum ReadingStepView {
    Unwrap { handle: Seq<char>, redeem_token: Seq<char>, renew_seconds: u64 },
    Finished,
}

impl View for ReadingStep {
    type V = ReadingStepView;

    open spec fn view(&self) -> ReadingStepView {
        match self {
            ReadingStep::Unwrap { handle, redeem_token, renew_seconds } => ReadingStepView::Unwrap {
                handle: handle@,
                redeem_token: redeem_token@,
                renew_seconds: *renew_seconds,
            },
            ReadingStep::Finished => ReadingStepView::Finished,
        }
    }
}

/// The reading of one ticket: its fields are recovered one after the other.
#[derive(Debug)]
pub struct TicketReading {
    row: TicketVerificationRow,
    opened: Vec<Option<String>>,
    pending: Option<Vec<u8>>,
}

/// A stored ticket, the recovered values of its first fields, and the sealed
/// message that waits for its key.
pub struct ReadingView {
    pub row: TicketVerificationRow,
    pub opened: Seq<Option<Seq<char>>>,
    pub pending: Option<Seq<u8>>,
}

impl View for TicketReading {
    type V = ReadingView;

    closed spec fn view(&self) -> ReadingView {
        ReadingView {
            row: self.row,
            opened: self.opened@.map_values(|value: Option<String>| text::optional(value)),
            pending: match self.pending {
                Some(ciphertext) => Some(ciphertext@),
                None => None,
            },
        }
    }
}

impl ReadingView {
    /// Each field that is done holds what its stored value reveals.
    pub open spec fn wf(self) -> bool {
        &&& self.opened.len() <= 6
        &&& forall|i: int|
            0 <= i < self.opened.len() ==> reveals(
                #[trigger] self.opened[i],
                self.row.stored(read_order()[i]),
                read_order()[i].purpose_text(),
                read_order()[i].context(self.row.id.bytes@),
            )
        &&& self.pending matches Some(ciphertext) ==> {
            &&& self.opened.len() < 6
            &&& self.request() matches Ok(Some(request))
            &&& request.ciphertext == ciphertext
        }
    }

    /// What the next field needs.
    pub open spec fn request(self) -> Result<Option<KeyRequestView>, error::ErrorView> {
        let field = read_order()[self.opened.len() as int];
        protection::recovery(self.row.stored(field), field.purpose_text())
    }
}

/// The values that are recovered without a key from here on, and what comes
/// then.
pub open spec fn peruse(row: TicketVerificationRow, opened: Seq<Option<Seq<char>>>) -> (
    Seq<Option<Seq<char>>>,
    Result<ReadingStepView, error::ErrorView>,
)
    decreases 6 - opened.len(),
{
    if opened.len() >= 6 {
        (opened, Ok(ReadingStepView::Finished))
    } else {
        let field = read_order()[opened.len() as int];
        match protection::recovery(row.stored(field), field.purpose_text()) {
            Err(error) => (opened, Err(error)),
            Ok(Some(request)) => (
                opened,
                Ok(
                    ReadingStepView::Unwrap {
                        handle: request.handle,
                        redeem_token: request.redeem_token,
                        renew_seconds: request.renew_seconds,
                    },
                ),
            ),
            Ok(None) => peruse(row, opened.push(None)),
        }
    }
}

/// Whether a record is the stored ticket with these recovered values.
pub open spec fn record_of(
    record: TicketVerificationRecord,
    row: TicketVerificationRow,
    opened: Seq<Option<Seq<char>>>,
) -> bool {
    &&& record.id == row.id
    &&& record.credential_id == row.credential_id
    &&& record.token_hash == row.token_hash
    &&& record.client_fingerprint == row.client_fingerprint
    &&& record.expires_at == row.expires_at
    &&& record.redeemed_at == row.redeemed_at
    &&& Some(record.client_auth_public_key@) == opened[0]
    &&& Some(record.client_auth_secret_path@) == opened[1]
    &&& text::optional(record.client_auth_secret_redeem_token) == opened[2]
    &&& record.attestation_session_id == row.attestation_session_id
    &&& Some(record.attestation_nonce_digest@) == opened[3]
    &&& Some(record.attestation_quote_hash@) == opened[4]
    &&& record.attested_at == row.attested_at
    &&& record.tee_kind == row.tee_kind
    &&& record.tee_label == row.tee_label
    &&& record.tee_policy == row.tee_policy
    &&& Some(record.tls_pubkey_digest@) == opened[5]
}

impl TicketReading {
    /// Begin to read a stored ticket.
    pub fn new(row: TicketVerificationRow) -> (res: Self)
        ensures
            res@ == (ReadingView { row, opened: Seq::empty(), pending: None }),
            res@.wf(),
    {
        let res = TicketReading { row, opened: Vec::new(), pending: None };
        assert(res@.opened =~= Seq::empty());
        res
    }

    /// Go on as far as no key is needed.
    pub fn advance(&mut self) -> (res: DbResult<ReadingStep>)
        requires
            old(self)@.wf(),
        ensures
            final(self)@.wf(),
            final(self)@.row == old(self)@.row,
            (final(self)@.opened, error::outcome(res)) == peruse(old(self)@.row, old(self)@.opened),
            error::outcome(res) is Ok && error::outcome(res)->Ok_0 is Unwrap ==> final(self)@.pending is Some,
            res matches Ok(ReadingStep::Finished) ==> final(self)@.opened.len() == 6,
    {
        self.pending = None;
        let ghost row = self.row;
        let ghost begun = self@.opened;
        while self.opened.len() < 6
            invariant
                self@.wf(),
                self.row == row,
                old(self)@.row == row,
                old(self)@.opened == begun,
                peruse(row, self@.opened) == peruse(row, begun),
            decreases 6 - self.opened.len(),
        {
            let field = read_field(self.opened.len());
            let ghost before = self@.opened;
            let value = self.row.stored_text(field);
            match protection::decrypt_aead_optional(value, field.purpose()) {
                Err(error) => return Err(error),
                Ok(Some(request)) => {
                    let step = ReadingStep::Unwrap {
                        handle: request.handle,
                        redeem_token: request.redeem_token,
                        renew_seconds: request.renew_seconds,
                    };
                    self.pending = Some(request.ciphertext);
                    return Ok(step);
                },
                Ok(None) => {
                    assert(reveals(
                        None,
                        self@.row.stored(field),
                        field.purpose_text(),
                        field.context(self@.row.id.bytes@),
                    )) by {
                        reveal(reveals);
                    }
                    self.opened.push(None);
                    assert(self@.opened =~= before.push(None));
                },
            }
        }
        Ok(ReadingStep::Finished)
    }

    /// Open the field that waits with the key that the broker handed out.
    pub fn supply(&mut self, key: Result<Vec<u8>, String>) -> (res: DbResult<()>)
        requires
            old(self)@.wf(),
            old(self)@.pending is Some,
        ensures
            final(self)@.wf(),
            final(self)@.row == old(self)@.row,
            final(self)@.pending is None,
            ({
                let field = read_order()[old(self)@.opened.len() as int];
                let value = protection::recovered(
                    protection::reply(key),
                    old(self)@.pending->0,
                    field.context(old(self)@.row.id.bytes@),
                );
                match res {
                    Ok(()) => value is Ok && final(self)@.opened == old(self)@.opened.push(
                        Some(value->Ok_0),
                    ),
                    Err(error) => {
                        &&& value == Err::<Seq<char>, _>(error@)
                        &&& final(self)@.opened == old(self)@.opened
                    },
                }
            }),
    {
        let field = read_field(self.opened.len());
        let ghost before = self@.opened;
        let ghost answer = protection::reply(key);
        let ciphertext = self.pending.take().unwrap();
        let aad = field.aad(self.row.id);
        match protection::decrypt_with_broker(key, ciphertext.as_slice(), aad.as_slice()) {
            Ok(value) => {
                assert(reveals(
                    Some(value@),
                    self@.row.stored(field),
                    field.purpose_text(),
                    field.context(self@.row.id.bytes@),
                )) by {
                    reveal(reveals);
                    assert(opens_to(answer->Ok_0, ciphertext@, aad@, value@));
                }
                self.opened.push(Some(value));
                assert(self@.opened =~= before.push(Some(value@)));
                Ok(())
            },
            Err(error) => Err(error),
        }
    }

    /// The ticket with its sensitive material, once all fields are recovered.
    pub fn complete(self) -> (res: TicketVerificationRecord)
        requires
            self@.wf(),
            self@.opened.len() == 6,
        ensures
            record_of(res, self@.row, self@.opened),
    {
        proof {
            let s = self@.opened;
            assert(forall|i: int| 0 <= i < 6 ==> #[trigger] s[i] == text::optional(self.opened@[i]));
            assert(s[0] is Some && s[1] is Some && s[3] is Some && s[4] is Some && s[5] is Some)
                by {
                reveal(reveals);
            }
        }
        let row = self.row;
        TicketVerificationRecord {
            id: row.id,
            credential_id: row.credential_id,
            token_hash: row.token_hash,
            client_fingerprint: row.client_fingerprint,
            expires_at: row.expires_at,
            redeemed_at: row.redeemed_at,
            client_auth_public_key: text::copy_optional(&self.opened[0]).unwrap(),
            client_auth_secret_path: text::copy_optional(&self.opened[1]).unwrap(),
            client_auth_secret_redeem_token: text::copy_optional(&self.opened[2]),
            attestation_session_id: row.attestation_session_id,
            attestation_nonce_digest: text::copy_optional(&self.opened[3]).unwrap(),
            attestation_quote_hash: text::copy_optional(&self.opened[4]).unwrap(),
            attested_at: row.attested_at,
            tee_kind: row.tee_kind,
            tee_label: row.tee_label,
            tee_policy: row.tee_policy,
            tls_pubkey_digest: text::copy_optional(&self.opened[5]).unwrap(),
        }
    }
}

/// Whether a stored ticket is the row that was inserted, in all columns that
/// both have.
pub open spec fn stored_as(insert: TicketInsert, row: TicketVerificationRow) -> bool {
    &&& row.id == insert.id
    &&& row.credential_id == insert.credential_id
    &&& row.token_hash@ == insert.token_hash@
    &&& text::optional(row.client_fingerprint) == text::optional(insert.client_fingerprint)
    &&& row.expires_at == insert.expires_at
    &&& row.attestation_session_id == insert.attestation_session_id
    &&& row.attested_at == insert.attested_at
    &&& row.tee_kind@ == insert.tee_kind@
    &&& text::optional(row.tee_label) == text::optional(insert.tee_label)
    &&& text::optional(row.tee_policy) == text::optional(insert.tee_policy)
    &&& row.client_auth_public_key@ == insert.client_auth_public_key@
    &&& row.client_auth_secret_path@ == insert.client_auth_secret_path@
    &&& text::optional(row.client_auth_secret_redeem_token) == text::optional(
        insert.client_auth_secret_redeem_token,
    )
    &&& row.attestation_nonce_digest@ == insert.attestation_nonce_digest@
    &&& row.attestation_quote_hash@ == insert.attestation_quote_hash@
    &&& row.tls_pubkey_digest@ == insert.tls_pubkey_digest@
}

/// Whether a value was recovered from a payload by the key that the payload
/// was sealed with.
pub open spec fn opened_with_its_key(
    opened: Seq<char>,
    stored: Seq<char>,
    value: Seq<char>,
    field: ProtectedField,
    row_id: Seq<u8>,
) -> bool {
    exists|lease: LeaseView|
        {
            &&& #[trigger] protection::sealed_under(
                stored,
                vstd::utf8::encode_utf8(value),
                field.context(row_id),
                Ok(lease),
            )
            &&& protection::recovery(Some(stored), field.purpose_text()) matches Ok(Some(request))
            &&& opens_to(lease.key, request.ciphertext, field.context(row_id), opened)
        }
}

proof fn lemma_own_key_opens_to_value(
    opened: Seq<char>,
    stored: Seq<char>,
    value: Seq<char>,
    field: ProtectedField,
    row_id: Seq<u8>,
)
    requires
        opened_with_its_key(opened, stored, value, field, row_id),
    ensures
        opened == value,
{
    let context = field.context(row_id);
    let lease = choose|lease: LeaseView|
        {
            &&& #[trigger] protection::sealed_under(
                stored,
                vstd::utf8::encode_utf8(value),
                context,
                Ok(lease),
            )
            &&& protection::recovery(Some(stored), field.purpose_text()) matches Ok(Some(request))
            &&& opens_to(lease.key, request.ciphertext, context, opened)
        };
    protection::sealed_value_is_recovered(stored, value, context, field.purpose_text(), lease);
}

/// Whether a field of a stored ticket was recovered with the key that it was
/// sealed with; an absent one has nothing to recover. A secret that came in as
/// a payload does not count here: it is stored as it came.
pub open spec fn recovered_with_its_key(
    opened: Option<Seq<char>>,
    row: TicketVerificationRow,
    ticket: NewTorAccessTicket,
    field: ProtectedField,
) -> bool {
    match ticket.secret(field) {
        None => opened is None,
        Some(value) => {
            &&& !envelope::looks_canonical(value)
            &&& opened matches Some(recovered) && opened_with_its_key(
                recovered,
                row.stored(field)->0,
                value,
                field,
                row.id.bytes@,
            )
        },
    }
}

proof fn lemma_field_is_read_back(
    opened: Option<Seq<char>>,
    row: TicketVerificationRow,
    ticket: NewTorAccessTicket,
    field: ProtectedField,
)
    requires
        recovered_with_its_key(opened, row, ticket, field),
    ensures
        opened == ticket.secret(field),
{
    if let Some(value) = ticket.secret(field) {
        lemma_own_key_opens_to_value(
            opened->0,
            row.stored(field)->0,
            value,
            field,
            row.id.bytes@,
        );
    }
}

/// Where a field that is recovered at one place is protected.
spec fn issue_place(i: int) -> int {
    if i == 2 {
        4
    } else if i == 3 || i == 4 {
        i - 1
    } else {
        i
    }
}

proof fn lemma_row_holds_the_value(
    ticket: NewTorAccessTicket,
    stored: Seq<Option<Seq<char>>>,
    insert: TicketInsert,
    row: TicketVerificationRow,
    i: int,
)
    requires
        stored.len() == 6,
        row_of(insert, ticket, stored),
        stored_as(insert, row),
        0 <= i < 6,
    ensures
        0 <= issue_place(i) < 6,
        issue_order()[issue_place(i)] == read_order()[i],
        row.stored(read_order()[i]) == stored[issue_place(i)],
        row.id == ticket.id,
{
}

proof fn lemma_field_is_protected(
    issuance: IssuanceView,
    insert: TicketInsert,
    row: TicketVerificationRow,
    i: int,
)
    requires
        issuance.wf(),
        issuance.stored.len() == 6,
        row_of(insert, issuance.ticket, issuance.stored),
        stored_as(insert, row),
        0 <= i < 6,
    ensures
        protects(
            row.stored(read_order()[i]),
            issuance.ticket.secret(read_order()[i]),
            read_order()[i].context(row.id.bytes@),
        ),
{
    lemma_row_holds_the_value(issuance.ticket, issuance.stored, insert, row, i);
    lemma_done_field_is_protected(issuance, issue_place(i));
}

proof fn lemma_done_field_is_protected(issuance: IssuanceView, j: int)
    requires
        issuance.wf(),
        0 <= j < issuance.stored.len(),
    ensures
        protects(
            issuance.stored[j],
            issuance.ticket.secret(issue_order()[j]),
            issue_order()[j].context(issuance.ticket.id.bytes@),
        ),
{
}

/// An authorized read of an issued ticket recovers its secrets as they were
/// given: where each field is opened with the key that it was sealed with, what
/// comes out of the stored row is what went into the issuing. The columns that
/// are not protected hold what was issued as it is.
pub proof fn issued_ticket_is_read_back(
    issuance: IssuanceView,
    insert: TicketInsert,
    row: TicketVerificationRow,
    opened: Seq<Option<Seq<char>>>,
)
    requires
        issuance.wf(),
        issuance.stored.len() == 6,
        row_of(insert, issuance.ticket, issuance.stored),
        stored_as(insert, row),
        opened.len() == 6,
        forall|i: int|
            0 <= i < 6 ==> recovered_with_its_key(
                #[trigger] opened[i],
                row,
                issuance.ticket,
                read_order()[i],
            ),
    ensures
        row.id == issuance.ticket.id,
        row.credential_id == issuance.ticket.credential_id,
        row.token_hash@ == issuance.ticket.token_hash@,
        text::optional(row.client_fingerprint) == text::optional(
            issuance.ticket.client_fingerprint,
        ),
        row.expires_at == issuance.ticket.expires_at,
        row.attestation_session_id == issuance.ticket.attestation_session_id,
        row.attested_at == issuance.ticket.attested_at,
        row.tee_kind@ == issuance.ticket.tee_kind@,
        text::optional(row.tee_label) == text::optional(issuance.ticket.tee_label),
        text::optional(row.tee_policy) == text::optional(issuance.ticket.tee_policy),
        forall|i: int|
            0 <= i < 6 ==> #[trigger] opened[i] == issuance.ticket.secret(read_order()[i]),
        forall|i: int|
            0 <= i < 6 ==> protects(
                row.stored(#[trigger] read_order()[i]),
                issuance.ticket.secret(read_order()[i]),
                read_order()[i].context(row.id.bytes@),
            ),
{
    assert forall|i: int| 0 <= i < 6 implies #[trigger] opened[i] == issuance.ticket.secret(
        read_order()[i],
    ) by {
        lemma_field_is_read_back(opened[i], row, issuance.ticket, read_order()[i]);
    }
    assert forall|i: int| 0 <= i < 6 implies protects(
        row.stored(#[trigger] read_order()[i]),
        issuance.ticket.secret(read_order()[i]),
        read_order()[i].context(row.id.bytes@),
    ) by {
        lemma_field_is_protected(issuance, insert, row, i);
    }
}

/// The columns of a ticket that are not protected are read as they are: the
/// identifiers, the lifecycle and what is said of the attestation.
pub proof fn plain_columns_are_read_as_they_are(
    record: TicketVerificationRecord,
    row: TicketVerificationRow,
    opened: Seq<Option<Seq<char>>>,
)
    requires
        record_of(record, row, opened),
    ensures
        record.id == row.id,
        record.credential_id == row.credential_id,
        record.token_hash@ == row.token_hash@,
        text::optional(record.client_fingerprint) == text::optional(row.client_fingerprint),
        record.expires_at == row.expires_at,
        record.redeemed_at == row.redeemed_at,
        record.attestation_session_id == row.attestation_session_id,
        record.attested_at == row.attested_at,
        record.tee_kind@ == row.tee_kind@,
        text::optional(record.tee_label) == text::optional(row.tee_label),
        text::optional(record.tee_policy) == text::optional(row.tee_policy),
{
}

/// A ticket that is read to its end shows its row: the lifecycle and the other
/// columns that are not protected as they are, and in each protected place what
/// a key opens the stored value of that very column to.
pub proof fn read_tickets_show_their_row(
    reading: ReadingView,
    record: TicketVerificationRecord,
)
    requires
        reading.wf(),
        reading.opened.len() == 6,
        record_of(record, reading.row, reading.opened),
    ensures
        record.id == reading.row.id,
        record.credential_id == reading.row.credential_id,
        record.token_hash@ == reading.row.token_hash@,
        text::optional(record.client_fingerprint) == text::optional(
            reading.row.client_fingerprint,
        ),
        record.expires_at == reading.row.expires_at,
        record.redeemed_at == reading.row.redeemed_at,
        record.attestation_session_id == reading.row.attestation_session_id,
        record.attested_at == reading.row.attested_at,
        record.tee_kind@ == reading.row.tee_kind@,
        text::optional(record.tee_label) == text::optional(reading.row.tee_label),
        text::optional(record.tee_policy) == text::optional(reading.row.tee_policy),
        reveals(
            Some(record.client_auth_public_key@),
            Some(reading.row.client_auth_public_key@),
            "tor-ticket-client-auth-public-key"@,
            ProtectedField::ClientAuthPublicKey.context(reading.row.id.bytes@),
        ),
        reveals(
            Some(record.client_auth_secret_path@),
            Some(reading.row.client_auth_secret_path@),
            "tor-ticket-client-auth-secret-path"@,
            ProtectedField::ClientAuthSecretPath.context(reading.row.id.bytes@),
        ),
        reveals(
            text::optional(record.client_auth_secret_redeem_token),
            text::optional(reading.row.client_auth_secret_redeem_token),
            "tor-ticket-client-auth-secret-redeem-token"@,
            ProtectedField::ClientAuthSecretRedeemToken.context(reading.row.id.bytes@),
        ),
        reveals(
            Some(record.attestation_nonce_digest@),
            Some(reading.row.attestation_nonce_digest@),
            "tor-ticket-attestation-nonce"@,
            ProtectedField::AttestationNonceDigest.context(reading.row.id.bytes@),
        ),
        reveals(
            Some(record.attestation_quote_hash@),
            Some(reading.row.attestation_quote_hash@),
            "tor-ticket-attestation-quote"@,
            ProtectedField::AttestationQuoteHash.context(reading.row.id.bytes@),
        ),
        reveals(
            Some(record.tls_pubkey_digest@),
            Some(reading.row.tls_pubkey_digest@),
            "tor-ticket-tls-pubkey-digest"@,
            ProtectedField::TlsPubkeyDigest.context(reading.row.id.bytes@),
        ),
{
    plain_columns_are_read_as_they_are(record, reading.row, reading.opened);
    lemma_recovered_client_auth_public_key(reading, record);
    lemma_recovered_client_auth_secret_path(reading, record);
    lemma_recovered_client_auth_secret_redeem_token(reading, record);
    lemma_recovered_attestation_nonce_digest(reading, record);
    lemma_recovered_attestation_quote_hash(reading, record);
    lemma_recovered_tls_pubkey_digest(reading, record);
}

proof fn lemma_recovered_field(reading: ReadingView, i: int)
    requires
        reading.wf(),
        0 <= i < reading.opened.len(),
    ensures
        reveals(
            reading.opened[i],
            reading.row.stored(read_order()[i]),
            read_order()[i].purpose_text(),
            read_order()[i].context(reading.row.id.bytes@),
        ),
{
}

proof fn lemma_recovered_client_auth_public_key(reading: ReadingView, record: TicketVerificationRecord)
    requires
        reading.wf(),
        reading.opened.len() == 6,
        record_of(record, reading.row, reading.opened),
    ensures
        reveals(
            Some(record.client_auth_public_key@),
            Some(reading.row.client_auth_public_key@),
            "tor-ticket-client-auth-public-key"@,
            ProtectedField::ClientAuthPublicKey.context(reading.row.id.bytes@),
        ),
{
    lemma_recovered_field(reading, 0);
    assert(read_order()[0] == ProtectedField::ClientAuthPublicKey);
}

proof fn lemma_recovered_client_auth_secret_path(reading: ReadingView, record: TicketVerificationRecord)
    requires
        reading.wf(),
        reading.opened.len() == 6,
        record_of(record, reading.row, reading.opened),
    ensures
        reveals(
            Some(record.client_auth_secret_path@),
            Some(reading.row.client_auth_secret_path@),
            "tor-ticket-client-auth-secret-path"@,
            ProtectedField::ClientAuthSecretPath.context(reading.row.id.bytes@),
        ),
{
    lemma_recovered_field(reading, 1);
    assert(read_order()[1] == ProtectedField::ClientAuthSecretPath);
}

proof fn lemma_recovered_client_auth_secret_redeem_token(reading: ReadingView, record: TicketVerificationRecord)
    requires
        reading.wf(),
        reading.opened.len() == 6,
        record_of(record, reading.row, reading.opened),
    ensures
        reveals(
            text::optional(record.client_auth_secret_redeem_token),
            text::optional(reading.row.client_auth_secret_redeem_token),
            "tor-ticket-client-auth-secret-redeem-token"@,
            ProtectedField::ClientAuthSecretRedeemToken.context(reading.row.id.bytes@),
        ),
{
    lemma_recovered_field(reading, 2);
    assert(read_order()[2] == ProtectedField::ClientAuthSecretRedeemToken);
}

proof fn lemma_recovered_attestation_nonce_digest(reading: ReadingView, record: TicketVerificationRecord)
    requires
        reading.wf(),
        reading.opened.len() == 6,
        record_of(record, reading.row, reading.opened),
    ensures
        reveals(
            Some(record.attestation_nonce_digest@),
            Some(reading.row.attestation_nonce_digest@),
            "tor-ticket-attestation-nonce"@,
            ProtectedField::AttestationNonceDigest.context(reading.row.id.bytes@),
        ),
{
    lemma_recovered_field(reading, 3);
    assert(read_order()[3] == ProtectedField::AttestationNonceDigest);
}

proof fn lemma_recovered_attestation_quote_hash(reading: ReadingView, record: TicketVerificationRecord)
    requires
        reading.wf(),
        reading.opened.len() == 6,
        record_of(record, reading.row, reading.opened),
    ensures
        reveals(
            Some(record.attestation_quote_hash@),
            Some(reading.row.attestation_quote_hash@),
            "tor-ticket-attestation-quote"@,
            ProtectedField::AttestationQuoteHash.context(reading.row.id.bytes@),
        ),
{
    lemma_recovered_field(reading, 4);
    assert(read_order()[4] == ProtectedField::AttestationQuoteHash);
}

proof fn lemma_recovered_tls_pubkey_digest(reading: ReadingView, record: TicketVerificationRecord)
    requires
        reading.wf(),
        reading.opened.len() == 6,
        record_of(record, reading.row, reading.opened),
    ensures
        reveals(
            Some(record.tls_pubkey_digest@),
            Some(reading.row.tls_pubkey_digest@),
            "tor-ticket-tls-pubkey-digest"@,
            ProtectedField::TlsPubkeyDigest.context(reading.row.id.bytes@),
        ),
{
    lemma_recovered_field(reading, 5);
    assert(read_order()[5] == ProtectedField::TlsPubkeyDigest);
}

/// The row of a new ticket has in its plain columns what was asked for.
pub proof fn plain_columns_are_stored_as_asked(
    row: TicketInsert,
    ticket: NewTorAccessTicket,
    stored: Seq<Option<Seq<char>>>,
)
    requires
        row_of(row, ticket, stored),
    ensures
        row.id == ticket.id,
        row.credential_id == ticket.credential_id,
        row.token_hash@ == ticket.token_hash@,
        row.entry_onion@ == ticket.entry_onion@,
        text::optional(row.client_fingerprint) == text::optional(ticket.client_fingerprint),
        row.expires_at == ticket.expires_at,
        row.attestation_session_id == ticket.attestation_session_id,
        row.attested_at == ticket.attested_at,
        row.tee_kind@ == ticket.tee_kind@,
        text::optional(row.tee_label) == text::optional(ticket.tee_label),
        text::optional(row.tee_policy) == text::optional(ticket.tee_policy),
{
}

/// The holder of a new ticket gets what was asked for, each value in its own
/// place and none of it protected, with what the insertion returned. The ticket
/// is not redeemed.
pub proof fn holders_get_what_was_asked_for(
    issued: IssuedTorAccessTicket,
    ticket: NewTorAccessTicket,
    record: IssuedTorAccessTicketRow,
)
    requires
        issued_from(issued, ticket, record),
    ensures
        issued.id == record.id,
        issued.created_at == record.created_at,
        issued.expires_at == record.expires_at,
        issued.redeemed_at is None,
        issued.redeemed_operational_onion is None,
        issued.credential_id == ticket.credential_id,
        issued.entry_onion@ == ticket.entry_onion@,
        text::optional(issued.client_fingerprint) == text::optional(ticket.client_fingerprint),
        issued.attestation_session_id == ticket.attestation_session_id,
        issued.attested_at == ticket.attested_at,
        issued.tee_kind@ == ticket.tee_kind@,
        text::optional(issued.tee_label) == text::optional(ticket.tee_label),
        text::optional(issued.tee_policy) == text::optional(ticket.tee_policy),
        issued.client_auth_public_key@ == ticket.client_auth_public_key@,
        issued.client_auth_secret_path@ == ticket.client_auth_secret_path@,
        text::optional(issued.client_auth_secret_redeem_token) == text::optional(
            ticket.client_auth_secret_redeem_token,
        ),
        issued.attestation_nonce_digest@ == ticket.attestation_nonce_digest@,
        issued.attestation_quote_hash@ == ticket.attestation_quote_hash@,
        issued.tls_pubkey_digest@ == ticket.tls_pubkey_digest@,
{
}

/// The ticket that its holder gets and the row that is stored for it agree: in
/// the columns that are not protected both have what was asked for, and each
/// protected column holds what protects the very value that the holder gets.
/// A new ticket is not redeemed.
pub proof fn issued_tickets_agree_with_their_row(
    issuance: IssuanceView,
    row: TicketInsert,
    issued: IssuedTorAccessTicket,
    record: IssuedTorAccessTicketRow,
)
    requires
        issuance.wf(),
        issuance.stored.len() == 6,
        row_of(row, issuance.ticket, issuance.stored),
        issued_from(issued, issuance.ticket, record),
    ensures
        issued.id == record.id,
        issued.created_at == record.created_at,
        issued.expires_at == record.expires_at,
        issued.redeemed_at is None,
        issued.redeemed_operational_onion is None,
        row.id == issuance.ticket.id,
        row.expires_at == issuance.ticket.expires_at,
        row.token_hash@ == issuance.ticket.token_hash@,
        issued.credential_id == row.credential_id && row.credential_id
            == issuance.ticket.credential_id,
        issued.entry_onion@ == row.entry_onion@ && row.entry_onion@
            == issuance.ticket.entry_onion@,
        text::optional(issued.client_fingerprint) == text::optional(row.client_fingerprint)
            && text::optional(row.client_fingerprint) == text::optional(
            issuance.ticket.client_fingerprint,
        ),
        issued.attestation_session_id == row.attestation_session_id && row.attestation_session_id
            == issuance.ticket.attestation_session_id,
        issued.attested_at == row.attested_at && row.attested_at == issuance.ticket.attested_at,
        issued.tee_kind@ == row.tee_kind@ && row.tee_kind@ == issuance.ticket.tee_kind@,
        text::optional(issued.tee_label) == text::optional(row.tee_label) && text::optional(
            row.tee_label,
        ) == text::optional(issuance.ticket.tee_label),
        text::optional(issued.tee_policy) == text::optional(row.tee_policy) && text::optional(
            row.tee_policy,
        ) == text::optional(issuance.ticket.tee_policy),
        issued.client_auth_public_key@ == issuance.ticket.client_auth_public_key@,
        issued.client_auth_secret_path@ == issuance.ticket.client_auth_secret_path@,
        text::optional(issued.client_auth_secret_redeem_token) == text::optional(
            issuance.ticket.client_auth_secret_redeem_token,
        ),
        issued.attestation_nonce_digest@ == issuance.ticket.attestation_nonce_digest@,
        issued.attestation_quote_hash@ == issuance.ticket.attestation_quote_hash@,
        issued.tls_pubkey_digest@ == issuance.ticket.tls_pubkey_digest@,
        protects(
            Some(row.client_auth_public_key@),
            Some(issued.client_auth_public_key@),
            ProtectedField::ClientAuthPublicKey.context(row.id.bytes@),
        ),
        protects(
            Some(row.client_auth_secret_path@),
            Some(issued.client_auth_secret_path@),
            ProtectedField::ClientAuthSecretPath.context(row.id.bytes@),
        ),
        protects(
            text::optional(row.client_auth_secret_redeem_token),
            text::optional(issued.client_auth_secret_redeem_token),
            ProtectedField::ClientAuthSecretRedeemToken.context(row.id.bytes@),
        ),
        protects(
            Some(row.attestation_nonce_digest@),
            Some(issued.attestation_nonce_digest@),
            ProtectedField::AttestationNonceDigest.context(row.id.bytes@),
        ),
        protects(
            Some(row.attestation_quote_hash@),
            Some(issued.attestation_quote_hash@),
            ProtectedField::AttestationQuoteHash.context(row.id.bytes@),
        ),
        protects(
            Some(row.tls_pubkey_digest@),
            Some(issued.tls_pubkey_digest@),
            ProtectedField::TlsPubkeyDigest.context(row.id.bytes@),
        ),
{
    plain_columns_are_stored_as_asked(row, issuance.ticket, issuance.stored);
    holders_get_what_was_asked_for(issued, issuance.ticket, record);
    lemma_done_field_is_protected(issuance, 0);
    lemma_done_field_is_protected(issuance, 1);
    lemma_done_field_is_protected(issuance, 2);
    lemma_done_field_is_protected(issuance, 3);
    lemma_done_field_is_protected(issuance, 4);
    lemma_done_field_is_protected(issuance, 5);
}

/// What has to happen to the client onion of a session before it is stored.
pub open spec fn session_onion_plan(session: TorSessionRecord) -> Result<
    protection::ProtectionView,
    error::ErrorView,
> {
    protection::protection(
        text::optional(session.client_onion),
        ProtectedField::ClientOnion.purpose_text(),
    )
}

/// Decide what has to happen to the client onion of a session before it is
/// stored.
pub fn session_onion_protection(session: &TorSessionRecord) -> (res: DbResult<Protection>)
    ensures
        error::outcome(res) == session_onion_plan(*session),
        res matches Ok(Protection::Mint(request)) ==> protection::usual_request(request),
{
    let value = match &session.client_onion {
        Some(onion) => Some(onion.as_str()),
        None => None,
    };
    protection::ensure_aead_encrypted(value, ProtectedField::ClientOnion.purpose())
}

/// Whether this is what sealing a value for a protected field of a record
/// gives, under some nonce.
pub open spec fn sealed_for_field(
    res: Result<Seq<char>, error::ErrorView>,
    field: ProtectedField,
    row_id: Seq<u8>,
    value: Seq<char>,
    lease: Result<LeaseView, Seq<char>>,
) -> bool {
    &&& exists|nonce: Option<Seq<u8>>| #[trigger]
        crate::crypto::drawn(nonce) && res == protection::lease_sealing(
            vstd::utf8::encode_utf8(value),
            field.context(row_id),
            lease,
            nonce,
        )
    &&& res matches Ok(stored) ==> protection::sealed_under(
        stored,
        vstd::utf8::encode_utf8(value),
        field.context(row_id),
        lease,
    )
}

/// A value that is sealed for a field of a record is recovered from there: it is
/// asked for by the handle and the token of its lease, and the key of the lease
/// opens it in that field of that record. Nothing is sealed without a lease.
pub proof fn sealed_fields_are_recovered(
    res: Result<Seq<char>, error::ErrorView>,
    field: ProtectedField,
    row_id: Seq<u8>,
    value: Seq<char>,
    lease: Result<LeaseView, Seq<char>>,
)
    requires
        sealed_for_field(res, field, row_id, value, lease),
    ensures
        res matches Ok(stored) ==> (protection::recovery(
            Some(stored),
            field.purpose_text(),
        ) matches Ok(Some(request)) && {
            &&& lease is Ok
            &&& request.handle == lease->Ok_0.handle
            &&& lease->Ok_0.redeem_token == Some(request.redeem_token)
            &&& protection::recovered(
                Ok(lease->Ok_0.key),
                request.ciphertext,
                field.context(row_id),
            ) == Ok::<_, error::ErrorView>(value)
        }),
        lease matches Err(failure) ==> res == Err::<Seq<char>, _>(error::encryption(failure)),
{
    if let Ok(stored) = res {
        protection::sealed_value_is_recovered(
            stored,
            value,
            field.context(row_id),
            field.purpose_text(),
            lease->Ok_0,
        );
    }
}

/// Seal a value for a protected field of a record with a key that was leased
/// for it.
pub fn seal_field(
    field: ProtectedField,
    row_id: RecordId,
    value: &str,
    lease: Result<AeadLease, String>,
) -> (res: DbResult<String>)
    ensures
        sealed_for_field(
            error::outcome(res),
            field,
            row_id.bytes@,
            value@,
            protection::reply(lease),
        ),
{
    let aad = field.aad(row_id);
    protection::encrypt_with_new_aead(value.as_bytes(), aad.as_slice(), lease)
}

/// Whether a row is the session with this protected value in its column.
pub open spec fn session_row_of(
    row: TorSessionInsert,
    session: TorSessionRecord,
    client_onion: Option<String>,
) -> bool {
    &&& row.id == session.id
    &&& row.credential_id == session.credential_id
    &&& row.circuit_id == session.circuit_id
    &&& row.fingerprint == session.fingerprint
    &&& row.guard_nodes == session.guard_nodes
    &&& row.client_onion == client_onion
    &&& row.expires_at == session.expires_at
}

/// The row for a session whose client onion is protected. Its session key is
/// drawn at random.
pub fn session_row(session: TorSessionRecord, client_onion: Option<String>) -> (res: TorSessionInsert)
    ensures
        session_row_of(res, session, client_onion),
{
    TorSessionInsert {
        id: session.id,
        credential_id: session.credential_id,
        session_key: encoding::random_id(),
        circuit_id: session.circuit_id,
        fingerprint: session.fingerprint,
        guard_nodes: session.guard_nodes,
        client_onion,
        expires_at: session.expires_at,
    }
}

/// The nodes of a column, where an absent list is an empty one.
pub open spec fn listed(nodes: Option<Vec<String>>) -> Seq<String> {
    match nodes {
        Some(nodes) => nodes@,
        None => Seq::empty(),
    }
}

fn node_list(nodes: Option<Vec<String>>) -> (res: Vec<String>)
    ensures
        res@ == listed(nodes),
{
    match nodes {
        Some(nodes) => nodes,
        None => Vec::new(),
    }
}

/// Whether a record is the stored session with this recovered client onion.
pub open spec fn session_record_of(
    record: TorSessionRecord,
    row: TorSessionRow,
    client_onion: Option<String>,
) -> bool {
    &&& record.id == row.id
    &&& record.credential_id == row.credential_id
    &&& record.circuit_id == row.circuit_id
    &&& record.fingerprint == row.fingerprint
    &&& record.guard_nodes@ == listed(row.guard_nodes)
    &&& record.client_onion == client_onion
    &&& record.expires_at == row.expires_at
}

/// A session is read as it was stored: from the row that it was inserted as,
/// with its client onion recovered, comes the session itself.
pub proof fn stored_sessions_are_read_back(
    session: TorSessionRecord,
    insert: TorSessionInsert,
    row: TorSessionRow,
    record: TorSessionRecord,
    protected: Option<String>,
    recovered: Option<String>,
)
    requires
        session_row_of(insert, session, protected),
        row.id == insert.id,
        row.credential_id == insert.credential_id,
        row.circuit_id == insert.circuit_id,
        row.fingerprint == insert.fingerprint,
        row.guard_nodes == Some(insert.guard_nodes),
        row.client_onion == insert.client_onion,
        row.expires_at == insert.expires_at,
        session_record_of(record, row, recovered),
    ensures
        record.id == session.id,
        record.credential_id == session.credential_id,
        record.circuit_id == session.circuit_id,
        record.fingerprint == session.fingerprint,
        record.guard_nodes@ == session.guard_nodes@,
        record.expires_at == session.expires_at,
        record.client_onion == recovered,
        insert.client_onion == protected,
        insert.id == session.id,
        insert.credential_id == session.credential_id,
        insert.circuit_id == session.circuit_id,
        insert.fingerprint == session.fingerprint,
        insert.guard_nodes@ == session.guard_nodes@,
        insert.expires_at == session.expires_at,
{
}

/// A session without a list of guard nodes is read with an empty one.
pub proof fn absent_nodes_are_none(record: TorSessionRecord, row: TorSessionRow, onion: Option<String>)
    requires
        session_record_of(record, row, onion),
        row.guard_nodes is None,
    ensures
        record.guard_nodes@.len() == 0,
        record.id == row.id,
        record.expires_at == row.expires_at,
{
}

/// What is needed to recover the client onion of a stored session.
pub open spec fn onion_recovery(row: TorSessionRow) -> Result<
    Option<protection::KeyRequestView>,
    error::ErrorView,
> {
    protection::recovery(
        text::optional(row.client_onion),
        ProtectedField::ClientOnion.purpose_text(),
    )
}

/// The client onion of a stored session, by the key that was handed out.
pub open spec fn opened_onion(
    row: TorSessionRow,
    ciphertext: Seq<u8>,
    key: Result<Seq<u8>, Seq<char>>,
) -> Result<Seq<char>, error::ErrorView> {
    protection::recovered(key, ciphertext, ProtectedField::ClientOnion.context(row.id.bytes@))
}

impl TorSessionRow {
    /// What is needed to recover the client onion of a stored session.
    pub fn onion_request(&self) -> (res: DbResult<Option<KeyRequest>>)
        ensures
            protection::optional_request(res) == onion_recovery(*self),
    {
        let value = match &self.client_onion {
            Some(onion) => Some(onion.as_str()),
            None => None,
        };
        protection::decrypt_aead_optional(value, ProtectedField::ClientOnion.purpose())
    }

    /// Open the client onion of a stored session.
    pub fn open_onion(&self, request: &KeyRequest, key: Result<Vec<u8>, String>) -> (res: DbResult<
        String,
    >)
        ensures
            error::outcome(res) == opened_onion(
                *self,
                request@.ciphertext,
                protection::reply(key),
            ),
    {
        let aad = ProtectedField::ClientOnion.aad(self.id);
        protection::decrypt_with_broker(key, request.ciphertext.as_slice(), aad.as_slice())
    }

    /// The session with its client onion recovered.
    pub fn into_record(self, client_onion: Option<String>) -> (res: TorSessionRecord)
        ensures
            session_record_of(res, self, client_onion),
    {
        TorSessionRecord {
            id: self.id,
            credential_id: self.credential_id,
            circuit_id: self.circuit_id,
            fingerprint: self.fingerprint,
            guard_nodes: node_list(self.guard_nodes),
            client_onion,
            expires_at: self.expires_at,
        }
    }
}

/// What has to happen to the operational onion of a redeemed ticket before it
/// is stored.
pub open spec fn redeemed_onion_plan(operational_onion: Seq<char>) -> Result<
    protection::ProtectionView,
    error::ErrorView,
> {
    protection::protection(
        Some(operational_onion),
        ProtectedField::RedeemedOnion.purpose_text(),
    )
}

/// Decide what has to happen to the operational onion of a redeemed ticket
/// before it is stored.
pub fn redeemed_onion_protection(operational_onion: &str) -> (res: DbResult<Protection>)
    ensures
        error::outcome(res) == redeemed_onion_plan(operational_onion@),
        res matches Ok(Protection::Mint(request)) ==> protection::usual_request(request),
{
    protection::ensure_aead_encrypted(
        Some(operational_onion),
        ProtectedField::RedeemedOnion.purpose(),
    )
}

/// Whether a credential is the one that a row holds.
pub open spec fn credential_of(credential: TorCredential, row: TorCredentialRow) -> bool {
    &&& credential.id == row.id
    &&& credential.onion_entry == row.onion_entry
    &&& credential.tier == row.tier
    &&& credential.credential_hash == row.credential_hash
    &&& credential.operational_onion == row.operational_onion
    &&& credential.guard_nodes@ == listed(row.guard_nodes)
    &&& credential.created_at == row.created_at
    &&& credential.updated_at == row.updated_at
    &&& credential.expires_at == row.expires_at
    &&& credential.disabled == row.disabled
    &&& credential.rate_limit_per_minute == row.rate_limit_per_minute
    &&& credential.last_rotated_at == row.last_rotated_at
}

/// Two rows that differ in a column are read as credentials that differ in it,
/// and a row with the columns of a credential is read as that credential.
pub proof fn credentials_are_read_as_stored(
    first: TorCredential,
    row: TorCredentialRow,
    second: TorCredential,
    other: TorCredentialRow,
)
    requires
        credential_of(first, row),
        credential_of(second, other),
    ensures
        first.id == second.id <==> row.id == other.id,
        first.onion_entry == second.onion_entry <==> row.onion_entry == other.onion_entry,
        first.tier == second.tier <==> row.tier == other.tier,
        first.credential_hash == second.credential_hash <==> row.credential_hash
            == other.credential_hash,
        first.operational_onion == second.operational_onion <==> row.operational_onion
            == other.operational_onion,
        first.created_at == second.created_at <==> row.created_at == other.created_at,
        first.updated_at == second.updated_at <==> row.updated_at == other.updated_at,
        first.expires_at == second.expires_at <==> row.expires_at == other.expires_at,
        first.disabled == second.disabled <==> row.disabled == other.disabled,
        first.rate_limit_per_minute == second.rate_limit_per_minute
            <==> row.rate_limit_per_minute == other.rate_limit_per_minute,
        first.last_rotated_at == second.last_rotated_at <==> row.last_rotated_at
            == other.last_rotated_at,
        row.id == second.id ==> first.id == second.id,
        row.onion_entry == second.onion_entry ==> first.onion_entry == second.onion_entry,
        row.tier == second.tier ==> first.tier == second.tier,
        row.credential_hash == second.credential_hash ==> first.credential_hash
            == second.credential_hash,
        row.operational_onion == second.operational_onion ==> first.operational_onion
            == second.operational_onion,
        row.guard_nodes matches Some(nodes) ==> first.guard_nodes@ == nodes@,
        row.guard_nodes is None ==> first.guard_nodes@.len() == 0,
        row.created_at == second.created_at ==> first.created_at == second.created_at,
        row.updated_at == second.updated_at ==> first.updated_at == second.updated_at,
        row.expires_at == second.expires_at ==> first.expires_at == second.expires_at,
        row.disabled == second.disabled ==> first.disabled == second.disabled,
        row.rate_limit_per_minute == second.rate_limit_per_minute ==> first.rate_limit_per_minute
            == second.rate_limit_per_minute,
        row.last_rotated_at == second.last_rotated_at ==> first.last_rotated_at
            == second.last_rotated_at,
{
}

impl TorCredentialRow {
    /// The credential that a row holds.
    pub fn into_credential(self) -> (res: TorCredential)
        ensures
            credential_of(res, self),
    {
        TorCredential {
            id: self.id,
            onion_entry: self.onion_entry,
            tier: self.tier,
            credential_hash: self.credential_hash,
            operational_onion: self.operational_onion,
            guard_nodes: node_list(self.guard_nodes),
            created_at: self.created_at,
            updated_at: self.updated_at,
            expires_at: self.expires_at,
            disabled: self.disabled,
            rate_limit_per_minute: self.rate_limit_per_minute,
            last_rotated_at: self.last_rotated_at,
        }
    }
}

/// Whether a credential is a new one with these values: enabled, not rotated,
/// and with its entry onion trimmed.
pub open spec fn fresh_credential(
    credential: TorCredential,
    entry_onion: Seq<char>,
    credential_hash: Seq<char>,
    tier: Seq<char>,
    rate_limit_per_minute: i32,
    expires_at: Option<Timestamp>,
    guard_nodes: Seq<String>,
    now: Timestamp,
) -> bool {
    &&& credential.onion_entry@ == text::trimmed(entry_onion)
    &&& credential.tier@ == tier
    &&& credential.credential_hash@ == credential_hash
    &&& credential.operational_onion is None
    &&& credential.guard_nodes@ == guard_nodes
    &&& credential.created_at == now
    &&& credential.updated_at == now
    &&& credential.expires_at == expires_at
    &&& !credential.disabled
    &&& credential.rate_limit_per_minute == rate_limit_per_minute
    &&& credential.last_rotated_at is None
}

/// A new credential that is stored and read again is the one that was asked
/// for: usable at once, never rotated, created and updated at the same time,
/// and found under an entry onion without blanks around it.
pub proof fn new_credentials_are_read_back(
    credential: TorCredential,
    entry_onion: Seq<char>,
    credential_hash: Seq<char>,
    tier: Seq<char>,
    rate_limit_per_minute: i32,
    expires_at: Option<Timestamp>,
    guard_nodes: Seq<String>,
    now: Timestamp,
    row: TorCredentialRow,
    read: TorCredential,
)
    requires
        fresh_credential(
            credential,
            entry_onion,
            credential_hash,
            tier,
            rate_limit_per_minute,
            expires_at,
            guard_nodes,
            now,
        ),
        row.id == credential.id,
        row.onion_entry == credential.onion_entry,
        row.tier == credential.tier,
        row.credential_hash == credential.credential_hash,
        row.operational_onion == credential.operational_onion,
        row.guard_nodes == Some(credential.guard_nodes),
        row.created_at == credential.created_at,
        row.updated_at == credential.updated_at,
        row.expires_at == credential.expires_at,
        row.disabled == credential.disabled,
        row.rate_limit_per_minute == credential.rate_limit_per_minute,
        row.last_rotated_at == credential.last_rotated_at,
        credential_of(read, row),
    ensures
        read.id == credential.id,
        read.onion_entry@ == text::trimmed(entry_onion),
        read.tier@ == tier,
        read.credential_hash@ == credential_hash,
        read.operational_onion is None,
        read.guard_nodes@ == guard_nodes,
        read.created_at == now,
        read.updated_at == now,
        read.expires_at == expires_at,
        read.disabled == false,
        read.rate_limit_per_minute == rate_limit_per_minute,
        read.last_rotated_at is None,
{
}

/// The credential that the bootstrap import stores under a given identifier.
pub fn import_bootstrap_tor_credential(
    credential_id: RecordId,
    entry_onion: &str,
    credential_hash: &str,
    tier: &str,
    rate_limit_per_minute: i32,
    expires_at: Option<Timestamp>,
    guard_nodes: Vec<String>,
    now: Timestamp,
) -> (res: TorCredential)
    ensures
        res.id == credential_id,
        fresh_credential(
            res,
            entry_onion@,
            credential_hash@,
            tier@,
            rate_limit_per_minute,
            expires_at,
            guard_nodes@,
            now,
        ),
{
    TorCredential {
        id: credential_id,
        onion_entry: text::trim(entry_onion).to_owned(),
        tier: tier.to_owned(),
        credential_hash: credential_hash.to_owned(),
        operational_onion: None,
        guard_nodes,
        created_at: now,
        updated_at: now,
        expires_at,
        disabled: false,
        rate_limit_per_minute,
        last_rotated_at: None,
    }
}

/// A new credential with a pre-hashed key, under an identifier drawn at
/// random.
pub fn create_tor_credential(
    entry_onion: &str,
    credential_hash: &str,
    tier: &str,
    rate_limit_per_minute: i32,
    expires_at: Option<Timestamp>,
    guard_nodes: Vec<String>,
    now: Timestamp,
) -> (res: TorCredential)
    ensures
        fresh_credential(
            res,
            entry_onion@,
            credential_hash@,
            tier@,
            rate_limit_per_minute,
            expires_at,
            guard_nodes@,
            now,
        ),
{
    import_bootstrap_tor_credential(
        encoding::random_id(),
        entry_onion,
        credential_hash,
        tier,
        rate_limit_per_minute,
        expires_at,
        guard_nodes,
        now,
    )
}

/// How many days expired tickets are kept.
pub open spec fn retention_of(retention_days: int) -> int {
    if retention_days < 0 {
        0
    } else {
        retention_days
    }
}

/// How many credentials a listing asks for.
pub open spec fn list_limit_of(limit: int) -> int {
    if limit <= 0 {
        100
    } else if limit < 1_000 {
        limit
    } else {
        1_000
    }
}

/// Retention is the wish where that is not negative, and the least one
/// otherwise; a longer wish never keeps tickets shorter. A listing is never
/// empty or above a thousand, grows with a positive wish, and is that wish
/// where it is allowed.
pub proof fn wishes_are_kept_in_bounds(wish: int, larger: int)
    requires
        wish <= larger,
    ensures
        retention_of(wish) >= 0,
        retention_of(wish) >= wish,
        wish >= 0 ==> retention_of(wish) == wish,
        wish < 0 ==> retention_of(wish) == retention_of(0),
        retention_of(wish) <= retention_of(larger),
        1 <= list_limit_of(wish) <= 1_000,
        1 <= wish <= 1_000 ==> list_limit_of(wish) == wish,
        wish > 1_000 ==> list_limit_of(wish) == list_limit_of(1_000),
        wish < 1 ==> list_limit_of(wish) == list_limit_of(100),
        0 < wish ==> list_limit_of(wish) <= list_limit_of(larger),
{
}

/// How many days expired tickets are kept, which is never negative: a ticket
/// that is not expired is not deleted.
pub fn ticket_retention_days(retention_days: i32) -> (res: i32)
    ensures
        res == retention_of(retention_days as int),
{
    if retention_days < 0 {
        0
    } else {
        retention_days
    }
}

/// How many credentials a listing asks for: a hundred where the caller names
/// no positive number, and never more than a thousand.
pub fn credential_list_limit(limit: i64) -> (res: i64)
    ensures
        res == list_limit_of(limit as int),
{
    if limit <= 0 {
        100
    } else if limit < 1_000 {
        limit
    } else {
        1_000
    }
}

/// Whether a lifecycle state is the one that a row holds.
pub open spec fn status_of(status: TicketStatusRecord, row: TicketStatusRow) -> bool {
    &&& status.id == row.id
    &&& status.credential_id == row.credential_id
    &&& status.expires_at == row.expires_at
    &&& status.redeemed_at == row.redeemed_at
}

/// The status of a ticket and the record for its verification agree on what
/// they both show: a ticket that is redeemed is redeemed in both.
pub proof fn status_and_verification_agree(
    status: TicketStatusRecord,
    status_row: TicketStatusRow,
    record: TicketVerificationRecord,
    row: TicketVerificationRow,
    opened: Seq<Option<Seq<char>>>,
)
    requires
        status_of(status, status_row),
        record_of(record, row, opened),
        status_row.id == row.id,
        status_row.credential_id == row.credential_id,
        status_row.expires_at == row.expires_at,
        status_row.redeemed_at == row.redeemed_at,
    ensures
        status.id == record.id && record.id == row.id,
        status.credential_id == record.credential_id && record.credential_id == row.credential_id,
        status.expires_at == record.expires_at && record.expires_at == row.expires_at,
        status.redeemed_at == record.redeemed_at && record.redeemed_at == row.redeemed_at,
{
}

/// The lifecycle state that a row holds.
pub fn map_ticket_status_row(row: TicketStatusRow) -> (res: TicketStatusRecord)
    ensures
        status_of(res, row),
{
    TicketStatusRecord {
        id: row.id,
        credential_id: row.credential_id,
        expires_at: row.expires_at,
        redeemed_at: row.redeemed_at,
    }
}

/// An onion that is stored for the first time is sealed, each kind of onion
/// under its own label; one that is sealed already is stored as it is, and a
/// session without one stores none.
pub proof fn onions_are_sealed_under_their_label(session: TorSessionRecord, onion: Seq<char>)
    requires
        !text::begins_with(onion, "aead:v1:"@),
        !text::begins_with(onion, "aead:v2:"@),
    ensures
        redeemed_onion_plan(onion) == Ok::<_, error::ErrorView>(
            (protection::ProtectionView::Mint { label: "tor-ticket-redeemed-onion"@ }),
        ),
        session.client_onion is None ==> session_onion_plan(session) == Ok::<_, error::ErrorView>(
            protection::ProtectionView::Store(None),
        ),
        session.client_onion is Some && session.client_onion->0@ == onion ==> session_onion_plan(
            session,
        ) == Ok::<_, error::ErrorView>(
            (protection::ProtectionView::Mint { label: "tor-session-client-onion"@ }),
        ),
        redeemed_onion_plan("aead:v2:"@ + onion) == Ok::<_, error::ErrorView>(
            protection::ProtectionView::Store(Some("aead:v2:"@ + onion)),
        ),
        session.client_onion is Some && session.client_onion->0@ == "aead:v2:"@ + onion
            ==> session_onion_plan(session) == Ok::<_, error::ErrorView>(
            protection::ProtectionView::Store(Some("aead:v2:"@ + onion)),
        ),
{
    protection::plaintext_is_always_sealed(onion, onion, "tor-ticket-redeemed-onion"@);
    protection::plaintext_is_always_sealed(onion, onion, "tor-session-client-onion"@);
    protection::fields_have_their_names(ProtectedField::ClientOnion);
    protection::fields_have_their_names(ProtectedField::RedeemedOnion);
}

/// The client onion of a session is recovered from the row that it was sealed
/// for, by the handle and the token of its lease and with the key of it; a
/// session that stores none needs no key.
pub proof fn sealed_onions_are_recovered(
    row: TorSessionRow,
    stored: Seq<char>,
    onion: Seq<char>,
    lease: protection::LeaseView,
)
    ensures
        row.client_onion is None ==> onion_recovery(row) == Ok::<
            Option<protection::KeyRequestView>,
            error::ErrorView,
        >(None),
        row.client_onion is Some && row.client_onion->0@ == stored && protection::sealed_under(
            stored,
            vstd::utf8::encode_utf8(onion),
            ProtectedField::ClientOnion.context(row.id.bytes@),
            Ok(lease),
        ) ==> (onion_recovery(row) matches Ok(Some(request)) && {
            &&& request.handle == lease.handle
            &&& lease.redeem_token == Some(request.redeem_token)
            &&& opened_onion(row, request.ciphertext, Ok(lease.key)) == Ok::<_, error::ErrorView>(
                onion,
            )
        }),
{
    let aad = ProtectedField::ClientOnion.context(row.id.bytes@);
    if protection::sealed_under(stored, vstd::utf8::encode_utf8(onion), aad, Ok(lease)) {
        protection::sealed_value_is_recovered(
            stored,
            onion,
            aad,
            ProtectedField::ClientOnion.purpose_text(),
            lease,
        );
    }
}

/// A recovered value was sealed: a key opens the message in its stored payload
/// to it, in its own context. Where nothing is stored nothing is recovered, and
/// whatever is stored and recovered is canonical.
pub proof fn revealed_values_were_sealed(
    opened: Option<Seq<char>>,
    stored: Option<Seq<char>>,
    label: Seq<char>,
    context: Seq<u8>,
)
    requires
        reveals(opened, stored, label, context),
    ensures
        opened is Some <==> stored is Some,
        stored matches Some(payload) ==> envelope::looks_canonical(payload),
        stored matches Some(payload) ==> exists|key: Seq<u8>|
            #[trigger] opens_to(
                key,
                protection::payload_request(payload)->Ok_0.ciphertext,
                context,
                opened->0,
            ),
{
    reveal(reveals);
}

/// The issuing of a ticket passes over a field only where nothing has to be
/// sealed, and asks for a key in the name of the field that is next. It comes
/// to the insertion only with every field in place.
pub proof fn issuing_stops_at_the_next_plaintext(
    ticket: NewTorAccessTicket,
    stored: Seq<Option<Seq<char>>>,
)
    requires
        stored.len() <= 6,
    ensures
        ({
            let (done, step) = settle(ticket, stored);
            &&& stored.len() <= done.len() <= 6
            &&& done.take(stored.len() as int) == stored
            &&& forall|i: int|
                stored.len() <= i < done.len() ==> (#[trigger] done[i]) == ticket.secret(
                    issue_order()[i],
                ) && (done[i] is None || envelope::looks_canonical(done[i]->0))
            &&& match step {
                Ok(IssuanceStepView::Insert) => done.len() == 6,
                Ok(IssuanceStepView::Mint { label }) => {
                    &&& done.len() < 6
                    &&& label == issue_order()[done.len() as int].purpose_text()
                    &&& ticket.secret(issue_order()[done.len() as int]) matches Some(value)
                    &&& !envelope::looks_encrypted(value)
                },
                Err(_) => {
                    &&& done.len() < 6
                    &&& ticket.secret(issue_order()[done.len() as int]) matches Some(value)
                    &&& envelope::looks_encrypted(value) && !envelope::looks_canonical(value)
                },
            }
        }),
    decreases 6 - stored.len(),
{
    if stored.len() < 6 {
        let field = issue_order()[stored.len() as int];
        protection::only_canonical_values_are_stored(ticket.secret(field), field.purpose_text());
        if let Ok(ProtectionView::Store(value)) = protection::protection(
            ticket.secret(field),
            field.purpose_text(),
        ) {
            let more = stored.push(value);
            issuing_stops_at_the_next_plaintext(ticket, more);
            let done = settle(ticket, more).0;
            assert(done.take(stored.len() as int) =~= done.take(more.len() as int).take(
                stored.len() as int,
            ));
            assert(more.take(stored.len() as int) =~= stored);
            assert(done[stored.len() as int] == done.take(more.len() as int)[stored.len() as int]);
        } else {
            assert(stored.take(stored.len() as int) =~= stored);
        }
    } else {
        assert(stored.take(stored.len() as int) =~= stored);
    }
}

/// The reading of a ticket passes over a field only where nothing is stored,
/// and asks for the key by the handle and the token of the field that is next.
/// It is finished only with every field in place, and stops at whatever is not
/// canonical.
pub proof fn reading_stops_at_the_next_payload(
    row: TicketVerificationRow,
    opened: Seq<Option<Seq<char>>>,
)
    requires
        opened.len() <= 6,
    ensures
        ({
            let (done, step) = peruse(row, opened);
            &&& opened.len() <= done.len() <= 6
            &&& done.take(opened.len() as int) == opened
            &&& forall|i: int|
                opened.len() <= i < done.len() ==> (#[trigger] done[i]) is None && row.stored(
                    read_order()[i],
                ) is None
            &&& match step {
                Ok(ReadingStepView::Finished) => done.len() == 6,
                Ok(ReadingStepView::Unwrap { handle, redeem_token, renew_seconds }) => {
                    &&& done.len() < 6
                    &&& row.stored(read_order()[done.len() as int]) matches Some(payload)
                    &&& envelope::looks_canonical(payload)
                    &&& envelope::decoding(payload) matches Ok((named, token, ciphertext))
                    &&& named == handle
                    &&& token == Some(redeem_token)
                    &&& renew_seconds == 900
                },
                Err(_) => done.len() < 6 && row.stored(read_order()[done.len() as int]) is Some,
            }
        }),
    decreases 6 - opened.len(),
{
    if opened.len() < 6 {
        let field = read_order()[opened.len() as int];
        if protection::recovery(row.stored(field), field.purpose_text()) == Ok::<
            Option<KeyRequestView>,
            error::ErrorView,
        >(None) {
            let more = opened.push(None);
            reading_stops_at_the_next_payload(row, more);
            let done = peruse(row, more).0;
            assert(done.take(opened.len() as int) =~= done.take(more.len() as int).take(
                opened.len() as int,
            ));
            assert(more.take(opened.len() as int) =~= opened);
            assert(done[opened.len() as int] == done.take(more.len() as int)[opened.len() as int]);
        } else {
            assert(opened.take(opened.len() as int) =~= opened);
        }
    } else {
        assert(opened.take(opened.len() as int) =~= opened);
    }
}

/// A step of the reading asks for the key of the next field by the handle and
/// the token in its payload, each in its own place.
pub proof fn reading_steps_name_their_payload(
    step: ReadingStep,
    row: TicketVerificationRow,
    opened: Seq<Option<Seq<char>>>,
    handle: Seq<char>,
    redeem_token: Seq<char>,
    ciphertext: Seq<u8>,
)
    requires
        opened.len() < 6,
        row.stored(read_order()[opened.len() as int]) == Some(
            envelope::payload(handle, redeem_token, ciphertext),
        ),
        peruse(row, opened).1 == Ok::<_, error::ErrorView>(step@),
    ensures
        step matches ReadingStep::Unwrap { handle: named, redeem_token: token, renew_seconds } && {
            &&& named@ == handle
            &&& token@ == redeem_token
            &&& renew_seconds == 900
        },
{
    let field = read_order()[opened.len() as int];
    protection::keys_are_asked_for_by_handle(
        handle,
        redeem_token,
        ciphertext,
        field.purpose_text(),
    );
}

} // verus!
