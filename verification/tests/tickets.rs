use secure_database::encoding::RecordId;
use secure_database::envelope::{decode_aead_payload, encode_aead_payload, is_aead_payload_v2};
use secure_database::protection::{
    decrypt_aead_optional, decrypt_with_broker, encrypt_with_lease, encrypt_with_new_aead,
    ensure_aead_encrypted, record_bound_aad, request_key, AeadLease, ProtectedField, Protection,
    SecretLifecycle,
};
use secure_database::time::Timestamp;
use secure_database::tor_auth::{
    create_tor_credential, credential_list_limit, import_bootstrap_tor_credential,
    map_ticket_status_row, redeemed_onion_protection, seal_field, session_onion_protection,
    session_row, ticket_retention_days, IssuanceStep, IssuedTorAccessTicketRow, NewTorAccessTicket, ReadingStep,
    TicketInsert, TicketIssuance, TicketReading, TicketStatusRow, TicketVerificationRow,
    TorCredentialRow, TorSessionRecord, TorSessionRow,
};

fn id(n: u8) -> RecordId {
    RecordId { bytes: [n; 16] }
}

fn at(seconds: i64) -> Timestamp {
    Timestamp { seconds, nanos: 0 }
}

fn text(value: &str) -> String {
    value.to_string()
}

fn lease(n: u8) -> AeadLease {
    AeadLease {
        handle: format!("handle-{}", n),
        key: vec![n; 32],
        redeem_token: Some(format!("token-{}", n)),
    }
}

fn ticket(redeem_token: Option<&str>) -> NewTorAccessTicket {
    NewTorAccessTicket {
        id: id(1),
        credential_id: id(2),
        entry_onion: text("entry.onion"),
        token_hash: text("hash"),
        expires_at: at(100),
        client_fingerprint: Some(text("print")),
        client_auth_public_key: text("public"),
        client_auth_secret_path: text("path"),
        client_auth_secret_redeem_token: redeem_token.map(text),
        attestation_session_id: id(3),
        attestation_nonce_digest: text("nonce"),
        attestation_quote_hash: text("quote"),
        attested_at: at(50),
        tee_kind: text("tdx"),
        tee_label: None,
        tee_policy: Some(text("policy")),
        tls_pubkey_digest: text("tls"),
    }
}

fn issue(ticket: NewTorAccessTicket) -> (TicketInsert, Vec<String>, TicketIssuance) {
    let mut issuance = TicketIssuance::new(ticket);
    let mut labels = Vec::new();
    loop {
        match issuance.advance().expect("advance") {
            IssuanceStep::Mint(request) => {
                assert_eq!(request.ttl_seconds, 900);
                assert_eq!(request.initial_lease_seconds, 900);
                assert_eq!(request.lifecycle, SecretLifecycle::RenewableLease);
                labels.push(request.label);
                issuance.supply(Ok(lease(labels.len() as u8))).expect("supply");
            }
            IssuanceStep::Insert(row) => return (row, labels, issuance),
        }
    }
}

fn stored(row: TicketInsert) -> TicketVerificationRow {
    TicketVerificationRow {
        id: row.id,
        credential_id: row.credential_id,
        token_hash: row.token_hash,
        client_fingerprint: row.client_fingerprint,
        expires_at: row.expires_at,
        redeemed_at: None,
        client_auth_public_key: row.client_auth_public_key,
        client_auth_secret_path: row.client_auth_secret_path,
        client_auth_secret_redeem_token: row.client_auth_secret_redeem_token,
        attestation_session_id: row.attestation_session_id,
        attestation_nonce_digest: row.attestation_nonce_digest,
        attestation_quote_hash: row.attestation_quote_hash,
        attested_at: row.attested_at,
        tee_kind: row.tee_kind,
        tee_label: row.tee_label,
        tee_policy: row.tee_policy,
        tls_pubkey_digest: row.tls_pubkey_digest,
    }
}

fn key_for(handle: &str) -> Vec<u8> {
    let n: u8 = handle.trim_start_matches("handle-").parse().expect("handle");
    vec![n; 32]
}

#[test]
fn associated_data_name_the_record() {
    assert_eq!(
        record_bound_aad("t", "f", id(0xab), b"p"),
        b"schema:v2\0table:t\0field:f\0row:abababab-abab-abab-abab-abababababab\0p".to_vec()
    );
    assert_eq!(
        ProtectedField::ClientAuthPublicKey.aad(id(0)),
        b"schema:v2\0table:gateway_secrets.tor_access_tickets\0field:client_auth_public_key\0row:00000000-0000-0000-0000-000000000000\0tor-ticket-client-auth-public-key"
            .to_vec()
    );
    assert_eq!(
        ProtectedField::ClientOnion.aad(id(0)),
        b"schema:v2\0table:gateway_secrets.tor_auth_sessions\0field:client_onion\0row:00000000-0000-0000-0000-000000000000\0tor-session-client-onion"
            .to_vec()
    );
}

#[test]
fn contexts_of_fields_and_records_are_apart() {
    let fields = [
        ProtectedField::ClientOnion,
        ProtectedField::RedeemedOnion,
        ProtectedField::ClientAuthPublicKey,
        ProtectedField::ClientAuthSecretPath,
        ProtectedField::ClientAuthSecretRedeemToken,
        ProtectedField::AttestationNonceDigest,
        ProtectedField::AttestationQuoteHash,
        ProtectedField::TlsPubkeyDigest,
    ];
    let mut contexts = Vec::new();
    for field in fields {
        for n in 0..3u8 {
            contexts.push(field.aad(id(n)));
        }
    }
    let count = contexts.len();
    contexts.sort();
    contexts.dedup();
    assert_eq!(contexts.len(), count);
}

#[test]
fn only_plaintext_has_to_be_sealed() {
    assert!(matches!(
        ensure_aead_encrypted(None, "label").expect("absent"),
        Protection::Store(None)
    ));
    let canonical = "aead:v2:x";
    match ensure_aead_encrypted(Some(canonical), "label").expect("canonical") {
        Protection::Store(Some(value)) => assert_eq!(value, canonical),
        other => panic!("unexpected {:?}", other),
    }
    match ensure_aead_encrypted(Some("plain"), "label").expect("plain") {
        Protection::Mint(request) => assert_eq!(request.label, "label"),
        other => panic!("unexpected {:?}", other),
    }
    let error = ensure_aead_encrypted(Some("aead:v1:x"), "label").expect_err("older");
    assert_eq!(
        error.message(),
        "encryption error: legacy AEAD payload in protected field label; canonical v2 required"
    );
}

#[test]
fn only_canonical_values_are_recovered() {
    assert!(decrypt_aead_optional(None, "label").expect("absent").is_none());
    let error = decrypt_aead_optional(Some("plain"), "label").expect_err("plain");
    assert_eq!(error.message(), "encryption error: plaintext in protected field label");
    let error = decrypt_aead_optional(Some("aead:v1:x"), "label").expect_err("older");
    assert_eq!(
        error.message(),
        "encryption error: legacy AEAD payload in protected field label; canonical v2 required"
    );
    let error = decrypt_aead_optional(Some("aead:v2:x"), "label").expect_err("malformed");
    assert_eq!(error.message(), "encryption error: invalid AEAD v2 payload format");
    let encoded = encode_aead_payload("h", "t", &[1, 2]);
    let request = decrypt_aead_optional(Some(&encoded), "label")
        .expect("canonical")
        .expect("request");
    assert_eq!(request.handle, "h");
    assert_eq!(request.redeem_token, "t");
    assert_eq!(request.renew_seconds, 900);
    assert_eq!(request.ciphertext, vec![1, 2]);
    let error = request_key("aead:v1:dA==:dA==").expect_err("older");
    assert_eq!(
        error.message(),
        "encryption error: legacy AEAD v1 payload encountered during decrypt; backfill to canonical v2 first"
    );
}

#[test]
fn leases_without_a_token_seal_nothing() {
    let broken = AeadLease { handle: text("h"), key: vec![0; 32], redeem_token: None };
    let error = encrypt_with_new_aead(b"x", b"a", Ok(broken)).expect_err("no token");
    assert_eq!(
        error.message(),
        "encryption error: broker v2 AEAD lease missing redeem token"
    );
    let error = encrypt_with_new_aead(b"x", b"a", Err(text("broker down"))).expect_err("no lease");
    assert_eq!(error.message(), "encryption error: broker down");
    let short = AeadLease { handle: text("h"), key: vec![0; 5], redeem_token: Some(text("t")) };
    let error = encrypt_with_new_aead(b"x", b"a", Ok(short)).expect_err("short key");
    assert_eq!(error.message(), "encryption error: ring::error::Unspecified");
    let error = encrypt_with_lease(b"x", b"a", Ok(lease(1)), None).expect_err("no nonce");
    assert_eq!(
        error.message(),
        "encryption error: rng failure: ring::error::Unspecified"
    );
}

#[test]
fn sealing_with_a_given_nonce_is_exact() {
    let stored = encrypt_with_lease(
        &[0u8; 16],
        b"",
        Ok(AeadLease { handle: text("h"), key: vec![0; 32], redeem_token: Some(text("t")) }),
        Some(vec![0; 12]),
    )
    .expect("seal");
    let (handle, token, message) = decode_aead_payload(&stored).expect("decode");
    assert_eq!(handle, "h");
    assert_eq!(token.as_deref(), Some("t"));
    assert_eq!(
        hex::encode(message),
        "000000000000000000000000cea7403d4d606b6e074ec5d3baf39d18d0d1c8a799996bf0265b98b5d48ab919"
    );
}

#[test]
fn failures_to_recover_are_told_apart() {
    let error = decrypt_with_broker(Err(text("denied")), &[], b"").expect_err("no key");
    assert_eq!(error.message(), "encryption error: denied");
    let stored = encrypt_with_new_aead(&[0xff, 0xfe], b"ctx", Ok(lease(5))).expect("seal");
    let (_, _, message) = decode_aead_payload(&stored).expect("decode");
    let error = decrypt_with_broker(Ok(vec![5; 32]), &message, b"ctx").expect_err("no text");
    assert_eq!(
        error.message(),
        "encryption error: decrypted AEAD payload is not valid UTF-8"
    );
    let error = decrypt_with_broker(Ok(vec![6; 32]), &message, b"ctx").expect_err("other key");
    assert_eq!(error.message(), "encryption error: decryption failed");
}

#[test]
fn issued_tickets_are_ciphertext_at_rest_and_recovered() {
    let (row, labels, issuance) = issue(ticket(Some("redeem")));
    assert_eq!(
        labels,
        vec![
            "tor-ticket-client-auth-public-key",
            "tor-ticket-client-auth-secret-path",
            "tor-ticket-attestation-nonce",
            "tor-ticket-attestation-quote",
            "tor-ticket-client-auth-secret-redeem-token",
            "tor-ticket-tls-pubkey-digest",
        ]
    );
    for value in [
        &row.client_auth_public_key,
        &row.client_auth_secret_path,
        &row.attestation_nonce_digest,
        &row.attestation_quote_hash,
        row.client_auth_secret_redeem_token.as_ref().expect("token"),
        &row.tls_pubkey_digest,
    ] {
        assert!(is_aead_payload_v2(value));
    }
    assert_eq!(row.token_hash, "hash");
    assert_eq!(row.entry_onion, "entry.onion");
    assert_eq!(row.tee_policy.as_deref(), Some("policy"));
    assert_eq!(row.tee_label, None);

    let issued = issuance.complete(IssuedTorAccessTicketRow {
        id: id(1),
        created_at: at(7),
        expires_at: at(8),
    });
    assert_eq!(issued.client_auth_public_key, "public");
    assert_eq!(issued.client_auth_secret_redeem_token.as_deref(), Some("redeem"));
    assert_eq!(issued.tls_pubkey_digest, "tls");
    assert_eq!(issued.created_at, at(7));
    assert_eq!(issued.expires_at, at(8));
    assert!(issued.redeemed_at.is_none());
    assert!(issued.redeemed_operational_onion.is_none());

    let mut reading = TicketReading::new(stored(row));
    let mut handles = Vec::new();
    loop {
        match reading.advance().expect("advance") {
            ReadingStep::Unwrap { handle, redeem_token, renew_seconds } => {
                assert_eq!(redeem_token, handle.replace("handle", "token"));
                assert_eq!(renew_seconds, 900);
                reading.supply(Ok(key_for(&handle))).expect("supply");
                handles.push(handle);
            }
            ReadingStep::Finished => break,
        }
    }
    assert_eq!(
        handles,
        vec!["handle-1", "handle-2", "handle-5", "handle-3", "handle-4", "handle-6"]
    );
    let record = reading.complete();
    assert_eq!(record.client_auth_public_key, "public");
    assert_eq!(record.client_auth_secret_path, "path");
    assert_eq!(record.client_auth_secret_redeem_token.as_deref(), Some("redeem"));
    assert_eq!(record.attestation_nonce_digest, "nonce");
    assert_eq!(record.attestation_quote_hash, "quote");
    assert_eq!(record.tls_pubkey_digest, "tls");
    assert_eq!(record.token_hash, "hash");
}

#[test]
fn an_absent_redeem_token_needs_no_key() {
    let (row, labels, _) = issue(ticket(None));
    assert_eq!(labels.len(), 5);
    assert!(row.client_auth_secret_redeem_token.is_none());
    let mut reading = TicketReading::new(stored(row));
    let mut unwrapped = 0;
    while let ReadingStep::Unwrap { handle, .. } = reading.advance().expect("advance") {
        reading.supply(Ok(key_for(&handle))).expect("supply");
        unwrapped += 1;
    }
    assert_eq!(unwrapped, 5);
    assert!(reading.complete().client_auth_secret_redeem_token.is_none());
}

#[test]
fn canonical_values_are_stored_as_they_come() {
    let mut new = ticket(None);
    let given = encode_aead_payload("mine", "token", &[1]);
    new.client_auth_public_key = given.clone();
    let (row, labels, _) = issue(new);
    assert_eq!(row.client_auth_public_key, given);
    assert_eq!(labels[0], "tor-ticket-client-auth-secret-path");
}

#[test]
fn issuing_stops_at_a_retired_value() {
    let mut new = ticket(None);
    new.attestation_nonce_digest = text("aead:v1:dA==:dA==");
    let mut issuance = TicketIssuance::new(new);
    for n in 1..3u8 {
        assert!(matches!(issuance.advance().expect("advance"), IssuanceStep::Mint(_)));
        issuance.supply(Ok(lease(n))).expect("supply");
    }
    let error = issuance.advance().expect_err("retired");
    assert_eq!(
        error.message(),
        "encryption error: legacy AEAD payload in protected field tor-ticket-attestation-nonce; canonical v2 required"
    );
}

#[test]
fn issuing_can_go_on_after_a_failed_lease() {
    let mut issuance = TicketIssuance::new(ticket(None));
    assert!(matches!(issuance.advance().expect("advance"), IssuanceStep::Mint(_)));
    let error = issuance.supply(Err(text("later"))).expect_err("failed");
    assert_eq!(error.message(), "encryption error: later");
    match issuance.advance().expect("advance") {
        IssuanceStep::Mint(request) => assert_eq!(request.label, "tor-ticket-client-auth-public-key"),
        other => panic!("unexpected {:?}", other),
    }
}

#[test]
fn a_value_moved_to_another_record_or_field_is_refused() {
    let (row, _, _) = issue(ticket(None));
    let mut moved = stored(row);
    moved.id = id(9);
    let mut reading = TicketReading::new(moved);
    match reading.advance().expect("advance") {
        ReadingStep::Unwrap { handle, .. } => {
            let error = reading.supply(Ok(key_for(&handle))).expect_err("other record");
            assert_eq!(error.message(), "encryption error: decryption failed");
        }
        other => panic!("unexpected {:?}", other),
    }

    let (row, _, _) = issue(ticket(None));
    let mut swapped = stored(row);
    std::mem::swap(&mut swapped.client_auth_public_key, &mut swapped.client_auth_secret_path);
    let mut reading = TicketReading::new(swapped);
    match reading.advance().expect("advance") {
        ReadingStep::Unwrap { handle, .. } => {
            let error = reading.supply(Ok(key_for(&handle))).expect_err("other field");
            assert_eq!(error.message(), "encryption error: decryption failed");
        }
        other => panic!("unexpected {:?}", other),
    }
}

#[test]
fn stored_plaintext_is_refused() {
    let (row, _, _) = issue(ticket(None));
    let mut tampered = stored(row);
    tampered.client_auth_public_key = text("public");
    let error = TicketReading::new(tampered).advance().expect_err("plaintext");
    assert_eq!(
        error.message(),
        "encryption error: plaintext in protected field tor-ticket-client-auth-public-key"
    );
}

fn session(onion: Option<&str>) -> TorSessionRecord {
    TorSessionRecord {
        id: id(4),
        credential_id: id(5),
        circuit_id: Some(text("circuit")),
        fingerprint: None,
        guard_nodes: vec![text("g1"), text("g2")],
        client_onion: onion.map(text),
        expires_at: Some(at(9)),
    }
}

#[test]
fn sessions_protect_their_onion() {
    assert!(matches!(
        session_onion_protection(&session(None)).expect("absent"),
        Protection::Store(None)
    ));
    let record = session(Some("client.onion"));
    match session_onion_protection(&record).expect("plain") {
        Protection::Mint(request) => assert_eq!(request.label, "tor-session-client-onion"),
        other => panic!("unexpected {:?}", other),
    }
    let sealed = seal_field(ProtectedField::ClientOnion, record.id, "client.onion", Ok(lease(8)))
        .expect("seal");
    let row = session_row(record, Some(sealed));
    assert_eq!(row.guard_nodes, vec!["g1", "g2"]);
    assert_ne!(row.session_key, session_row(session(None), None).session_key);

    let read = TorSessionRow {
        id: row.id,
        credential_id: row.credential_id,
        circuit_id: row.circuit_id,
        fingerprint: row.fingerprint,
        guard_nodes: None,
        client_onion: row.client_onion,
        expires_at: row.expires_at,
    };
    let request = read.onion_request().expect("request").expect("sealed");
    assert_eq!(request.handle, "handle-8");
    let onion = read.open_onion(&request, Ok(vec![8; 32])).expect("open");
    assert_eq!(onion, "client.onion");
    let record = read.into_record(Some(onion));
    assert_eq!(record.client_onion.as_deref(), Some("client.onion"));
    assert!(record.guard_nodes.is_empty());
    assert_eq!(record.circuit_id.as_deref(), Some("circuit"));
}

#[test]
fn redeemed_onions_are_protected() {
    match redeemed_onion_protection("op.onion").expect("plain") {
        Protection::Mint(request) => assert_eq!(request.label, "tor-ticket-redeemed-onion"),
        other => panic!("unexpected {:?}", other),
    }
    assert!(matches!(
        redeemed_onion_protection("aead:v2:x").expect("canonical"),
        Protection::Store(Some(_))
    ));
    let error = redeemed_onion_protection("aead:v1:x").expect_err("retired");
    assert_eq!(
        error.message(),
        "encryption error: legacy AEAD payload in protected field tor-ticket-redeemed-onion; canonical v2 required"
    );
}

#[test]
fn credentials_are_built_and_read() {
    let nodes = vec![text("g")];
    let credential = import_bootstrap_tor_credential(
        id(6),
        "  entry.onion\n",
        "hash",
        "gold",
        12,
        None,
        nodes.clone(),
        at(3),
    );
    assert_eq!(credential.id, id(6));
    assert_eq!(credential.onion_entry, "entry.onion");
    assert_eq!(credential.tier, "gold");
    assert_eq!(credential.credential_hash, "hash");
    assert_eq!(credential.guard_nodes, nodes);
    assert_eq!(credential.created_at, at(3));
    assert_eq!(credential.updated_at, at(3));
    assert_eq!(credential.rate_limit_per_minute, 12);
    assert!(!credential.disabled);
    assert!(credential.operational_onion.is_none());
    assert!(credential.last_rotated_at.is_none());

    let one = create_tor_credential("e", "h", "t", 1, Some(at(4)), Vec::new(), at(3));
    let two = create_tor_credential("e", "h", "t", 1, Some(at(4)), Vec::new(), at(3));
    assert_ne!(one.id, two.id);
    assert_eq!(one.expires_at, Some(at(4)));

    let row = TorCredentialRow {
        id: id(7),
        onion_entry: text("e"),
        tier: text("t"),
        credential_hash: text("h"),
        operational_onion: Some(text("o")),
        guard_nodes: None,
        created_at: at(1),
        updated_at: at(2),
        expires_at: None,
        disabled: true,
        rate_limit_per_minute: 5,
        last_rotated_at: Some(at(3)),
    };
    let read = row.into_credential();
    assert!(read.guard_nodes.is_empty());
    assert!(read.disabled);
    assert_eq!(read.operational_onion.as_deref(), Some("o"));
    assert_eq!(read.last_rotated_at, Some(at(3)));
}

#[test]
fn listings_are_bounded() {
    assert_eq!(credential_list_limit(-5), 100);
    assert_eq!(credential_list_limit(0), 100);
    assert_eq!(credential_list_limit(1), 1);
    assert_eq!(credential_list_limit(999), 999);
    assert_eq!(credential_list_limit(1_000), 1_000);
    assert_eq!(credential_list_limit(5_000), 1_000);
}

#[test]
fn live_tickets_are_kept() {
    assert_eq!(ticket_retention_days(-1), 0);
    assert_eq!(ticket_retention_days(i32::MIN), 0);
    assert_eq!(ticket_retention_days(0), 0);
    assert_eq!(ticket_retention_days(30), 30);
}

#[test]
fn status_shows_the_lifecycle_only() {
    let status = map_ticket_status_row(TicketStatusRow {
        id: id(1),
        credential_id: id(2),
        expires_at: at(3),
        redeemed_at: Some(at(4)),
    });
    assert_eq!(status.id, id(1));
    assert_eq!(status.credential_id, id(2));
    assert_eq!(status.expires_at, at(3));
    assert_eq!(status.redeemed_at, Some(at(4)));
}
