use secure_database::certificate::{get_extension_unique, CertExtension, PeerCertificate};
use secure_database::config::EnvValue;
use secure_database::error::Rejection;
use secure_database::peer::{
    check_subject, collect_evidence, enforce_measurement_policy, normalize_spiffe_id,
    PeerEvidence, RaTlsServerVerifier, SpiffeServerVerifier,
};
use secure_database::ra_tls::{
    resolve_pccs_url, Attestation, Collateral, Report, TEEVendor, TdxEvent, VerifiedAttestation,
};
use secure_database::secret_broker_client::{ClientPolicy, MeasurementPolicy};
use secure_database::string_set::StringSet;
use sha2::{Digest, Sha512};
use yasna::models::ObjectIdentifier;
use yasna::{construct_der, DERWriterSeq, Tag};

const COMMON_NAME: &[u64] = &[2, 5, 4, 3];
const ALTERNATIVE_NAME: &[u64] = &[2, 5, 29, 17];
const QUOTE: &[u64] = &[1, 3, 6, 1, 4, 1, 62397, 1, 1];
const EVENT_LOG: &[u64] = &[1, 3, 6, 1, 4, 1, 62397, 1, 2];

fn name(w: &mut DERWriterSeq, common_name: Option<&str>) {
    w.next().write_sequence(|w| {
        if let Some(text) = common_name {
            w.next().write_set(|w| {
                w.next().write_sequence(|w| {
                    w.next().write_oid(&ObjectIdentifier::from_slice(COMMON_NAME));
                    w.next().write_utf8_string(text);
                })
            });
        }
    });
}

fn certificate(common_name: Option<&str>, key: &[u8], extensions: &[(&[u64], Vec<u8>)]) -> Vec<u8> {
    construct_der(|w| {
        w.write_sequence(|w| {
            w.next().write_sequence(|w| {
                w.next().write_tagged(Tag::context(0), |w| w.write_u8(2));
                w.next().write_u8(1);
                w.next().write_sequence(|w| {
                    let oid = ObjectIdentifier::from_slice(&[1, 2, 840, 10045, 4, 3, 2]);
                    w.next().write_oid(&oid);
                });
                name(w, Some("issuer"));
                w.next().write_sequence(|w| {
                    w.next().write_der(b"\x17\x0d250101000000Z");
                    w.next().write_der(b"\x17\x0d350101000000Z");
                });
                name(w, common_name);
                w.next().write_sequence(|w| {
                    w.next().write_sequence(|w| {
                        let oid = ObjectIdentifier::from_slice(&[1, 2, 840, 10045, 2, 1]);
                        w.next().write_oid(&oid);
                    });
                    w.next().write_bitvec_bytes(key, 8 * key.len());
                });
                w.next().write_tagged(Tag::context(3), |w| {
                    w.write_sequence(|w| {
                        for (oid, value) in extensions {
                            w.next().write_sequence(|w| {
                                w.next().write_oid(&ObjectIdentifier::from_slice(oid));
                                w.next().write_bytes(value);
                            });
                        }
                    })
                });
            });
            w.next().write_sequence(|w| {
                let oid = ObjectIdentifier::from_slice(&[1, 2, 840, 10045, 4, 3, 2]);
                w.next().write_oid(&oid);
            });
            w.next().write_bitvec_bytes(&[0], 8);
        })
    })
}

fn wrapped(bytes: &[u8]) -> Vec<u8> {
    construct_der(|w| w.write_bytes(bytes))
}

fn uris(list: &[&str]) -> Vec<u8> {
    construct_der(|w| {
        w.write_sequence(|w| {
            for uri in list {
                let mut der = vec![0x86, uri.len() as u8];
                der.extend_from_slice(uri.as_bytes());
                w.next().write_der(&der);
            }
        })
    })
}

fn quote(report_data: &[u8]) -> Vec<u8> {
    let mut quote = vec![0u8; 48 + 384];
    quote[0] = 3;
    quote[48 + 320..48 + 384].copy_from_slice(report_data);
    let mut auth = vec![0u8; 64 + 64 + 384 + 64];
    auth.extend_from_slice(&[0, 0]);
    auth.extend_from_slice(&[5, 0]);
    auth.extend_from_slice(&[0, 0, 0, 0]);
    quote.extend_from_slice(&(auth.len() as u32).to_le_bytes());
    quote.extend_from_slice(&auth);
    quote
}

fn binding(key: &[u8]) -> Vec<u8> {
    let mut hasher = Sha512::new();
    hasher.update(b"ratls-cert:");
    hasher.update(key);
    hasher.finalize().to_vec()
}

fn no_collateral() -> Collateral {
    Collateral {
        pck_crl_issuer_chain: String::new(),
        root_ca_crl: Vec::new(),
        pck_crl: Vec::new(),
        tcb_info_issuer_chain: String::new(),
        tcb_info: String::new(),
        tcb_info_signature: Vec::new(),
        qe_identity_issuer_chain: String::new(),
        qe_identity: String::new(),
        qe_identity_signature: Vec::new(),
        pck_certificate_chain: None,
    }
}

#[test]
fn quotes_are_read_from_certificates() {
    let der = certificate(
        Some("Broker"),
        &[9],
        &[(QUOTE, wrapped(b"the quote")), (EVENT_LOG, wrapped(b"the log"))],
    );
    let attestation = Attestation::from_der(&der).expect("certificate").expect("attestation");
    assert_eq!(attestation.quote(), b"the quote");
    assert!(Attestation::from_der(&certificate(None, &[9], &[])).expect("certificate").is_none());
    assert!(Attestation::from_der(&certificate(None, &[9], &[(EVENT_LOG, wrapped(b"x"))]))
        .expect("certificate")
        .is_none());
    let twice = certificate(None, &[9], &[(QUOTE, wrapped(b"a")), (QUOTE, wrapped(b"b"))]);
    assert_eq!(
        Attestation::from_der(&twice).expect_err("twice").reason,
        "failed to read X.509 extension"
    );
    let bare = certificate(None, &[9], &[(QUOTE, b"bare".to_vec())]);
    assert!(Attestation::from_der(&bare)
        .expect_err("bare")
        .reason
        .starts_with("RA-TLS extension is not a valid DER OCTET STRING: "));
    assert!(Attestation::from_der(b"junk")
        .expect_err("junk")
        .reason
        .starts_with("failed to parse X.509 certificate: "));
}

#[test]
fn extensions_are_found_once() {
    let extension = |oid: u8, value: u8| CertExtension { oid: vec![oid], value: vec![value] };
    let list = vec![extension(1, 10), extension(2, 20), extension(3, 30), extension(2, 40)];
    assert_eq!(get_extension_unique(&list, &[1]), Ok(Some(vec![10])));
    assert_eq!(get_extension_unique(&list, &[4]), Ok(None));
    assert_eq!(get_extension_unique(&list, &[2]), Err(()));
}

#[test]
fn vendors_are_told_by_the_quote() {
    let vendor = |bytes: &[u8]| {
        Attestation::new(bytes.to_vec(), Vec::new()).detect_vendor_from_quote().expect("vendor")
    };
    assert_eq!(vendor(&[3, 0, 0, 0, 9, 9, 9, 9]), TEEVendor::IntelSGX);
    assert_eq!(vendor(&[4, 0, 0, 0, 0x81, 0, 0, 0]), TEEVendor::IntelTDX);
    assert_eq!(vendor(&[5, 0, 0, 0, 0x81, 0, 0, 0]), TEEVendor::IntelTDX);
    assert_eq!(vendor(&[5, 0, 0, 0, 0, 0, 0, 0]), TEEVendor::IntelSGX);
    assert_eq!(vendor(&[4, 1, 0, 0, 0x81, 0, 0, 0]), TEEVendor::AmdSevSnp);
    assert_eq!(vendor(&[4, 0, 0, 0, 0x81, 0, 0, 1]), TEEVendor::AmdSevSnp);
    assert_eq!(vendor(&[2, 0, 0, 0, 0, 0, 0, 0]), TEEVendor::AmdSevSnp);
    assert_eq!(
        Attestation::new(vec![3; 7], Vec::new()).detect_vendor_from_quote().expect_err("short").reason,
        "quote too short (7 bytes) to determine vendor"
    );
}

#[test]
fn quotes_are_bound_to_the_key() {
    let key = [4u8, 5, 6];
    let bound = Attestation::new(quote(&binding(&key)), Vec::new());
    bound.check_binding(&key).expect("bound");
    assert_eq!(
        bound.check_binding(&[4, 5]).expect_err("other key").reason,
        "RA-TLS quote report_data does not match peer public key binding (tag \"ratls-cert\")"
    );
    let cut = Attestation::new(quote(&binding(&key))[..100].to_vec(), Vec::new());
    assert_eq!(
        cut.check_binding(&key).expect_err("cut").reason,
        "failed to decode report_data from quote for pubkey binding check"
    );
    let amd = Attestation::new(vec![0; 100], Vec::new());
    assert_eq!(
        amd.check_binding(&key).expect_err("amd").reason,
        "AMD SEV-SNP attestation verification is not implemented in this module; call-site must reject AMD before invoking verify_with_ra_pubkey"
    );
    let report = Report::TD15 { mr_td: vec![1], report_data: binding(&key) };
    bound.check_report(Some(report), &key).expect("bound");
    assert!(bound.check_report(None, &key).is_err());
}

#[test]
fn quotes_without_collateral_are_refused() {
    let key = [4u8, 5, 6];
    let bound = Attestation::new(quote(&binding(&key)), Vec::new());
    let refusal = bound.verify_with_ra_pubkey(&key, &no_collateral(), 1_700_000_000);
    assert!(refusal.expect_err("refused").reason.starts_with("DCAP quote verification failed: "));
    let refusal = bound.verify_with_ra_pubkey(&[0], &no_collateral(), 1_700_000_000);
    assert!(refusal.expect_err("refused").reason.starts_with("RA-TLS quote report_data"));
}

#[test]
fn collateral_has_a_source() {
    let set = EnvValue::Present("https://env".to_string());
    assert_eq!(resolve_pccs_url(Some("https://a"), &set).expect("url"), "https://a");
    assert_eq!(resolve_pccs_url(Some(""), &set).expect("url"), "https://env");
    assert_eq!(resolve_pccs_url(None, &set).expect("url"), "https://env");
    assert_eq!(
        resolve_pccs_url(None, &EnvValue::Absent).expect_err("none").reason,
        "PCCS URL not provided: pass pccs_url or set PCCS_URL environment variable"
    );
}

fn event(imr: u32, event: &str, payload: &str) -> TdxEvent {
    TdxEvent { imr, event: event.to_string(), event_payload: payload.to_string() }
}

fn verified(report: Report, log: &[u8]) -> VerifiedAttestation {
    VerifiedAttestation { report, raw_event_log: log.to_vec() }
}

fn td10(mr_td: u8) -> Report {
    Report::TD10 { mr_td: vec![mr_td; 2], report_data: vec![0; 64] }
}

#[test]
fn compose_hashes_are_read_from_the_log() {
    let with_log = verified(td10(0), b"[]");
    let records = Some(vec![
        event(2, "compose-hash", "00"),
        event(3, "boot", "11"),
        event(3, "upgraded-app-id", "ABcd"),
        event(3, "compose-hash", "22"),
    ]);
    assert_eq!(with_log.decode_compose_hash(&records).expect("hash"), "abcd");
    assert_eq!(
        with_log.decode_compose_hash(&Some(vec![event(1, "compose-hash", "00")])).expect_err("none").reason,
        "compose-hash event not found in event log"
    );
    assert_eq!(
        with_log.decode_compose_hash(&None).expect_err("malformed").reason,
        "failed to parse RA-TLS event log JSON"
    );
    assert_eq!(
        with_log.decode_compose_hash(&Some(vec![event(1, "x", "zz")])).expect_err("malformed").reason,
        "failed to parse RA-TLS event log JSON"
    );
    assert_eq!(
        verified(td10(0), b"").decode_compose_hash(&records).expect_err("absent").reason,
        "event log missing — cannot decode compose hash"
    );
}

#[test]
fn identities_have_a_normal_form() {
    assert_eq!(normalize_spiffe_id("spiffe://TD.Org/Path/X").as_deref(), Some("spiffe://td.org/Path/X"));
    assert_eq!(normalize_spiffe_id("spiffe://td/").as_deref(), Some("spiffe://td/"));
    for other in ["", "spiffe://", "spiffe://td", "spiffe:///path", "SPIFFE://td/x", "https://td/x"] {
        assert_eq!(normalize_spiffe_id(other), None, "{}", other);
    }
    let normal = normalize_spiffe_id("spiffe://A/b").expect("normal");
    assert_eq!(normalize_spiffe_id(&normal).as_deref(), Some(normal.as_str()));
}

#[test]
fn spiffe_peers_have_one_identity() {
    let verifier = SpiffeServerVerifier::new("spiffe://TD/broker").expect("verifier");
    let presented = |list: &[&str]| certificate(Some("x"), &[1], &[(ALTERNATIVE_NAME, uris(list))]);
    verifier.verify_server_cert(&presented(&["spiffe://td/broker"])).expect("accepted");
    let refusal = |der: &[u8]| verifier.verify_server_cert(der).expect_err("refused").reason;
    assert_eq!(refusal(&presented(&["spiffe://td/Broker"])), "server SPIFFE ID not authorised");
    assert_eq!(
        refusal(&presented(&["https://td/broker"])),
        "presented SAN URI is not a valid SPIFFE ID"
    );
    for list in [vec![], vec!["spiffe://td/broker", "spiffe://td/broker"]] {
        assert_eq!(
            refusal(&presented(&list)),
            "SPIFFE server cert must have exactly one URI SAN"
        );
    }
    assert_eq!(
        refusal(&certificate(Some("x"), &[1], &[])),
        "SPIFFE server cert must have exactly one URI SAN"
    );
    assert_eq!(refusal(b"junk"), "failed to parse server cert");
    assert_eq!(
        SpiffeServerVerifier::new("td/broker").expect_err("no identity").reason,
        "invalid target SPIFFE ID: td/broker"
    );
}

fn shown(common_names: Vec<Option<&str>>) -> PeerCertificate {
    PeerCertificate {
        common_names: common_names.into_iter().map(|name| name.map(str::to_string)).collect(),
        alternative_names: Vec::new(),
        public_key: vec![7],
        extensions: Vec::new(),
    }
}

fn subjects() -> Option<StringSet> {
    Some(StringSet::new().with("broker".to_string()))
}

#[test]
fn subjects_are_held_to_the_list() {
    check_subject(&shown(vec![Some(" BROKER ")]), &subjects()).expect("listed");
    check_subject(&shown(vec![]), &None).expect("no list");
    assert_eq!(
        check_subject(&shown(vec![Some("Other"), Some("broker")]), &subjects())
            .expect_err("not listed")
            .reason,
        "server subject Other not in allowlist"
    );
    for names in [vec![], vec![None, Some("broker")]] {
        assert_eq!(
            check_subject(&shown(names), &subjects()).expect_err("nameless").reason,
            "server certificate has no common name"
        );
    }
}

#[test]
fn evidence_is_collected_in_order() {
    let found = || Ok(Some(Attestation::new(vec![1; 8], Vec::new())));
    let evidence =
        collect_evidence(shown(vec![Some("broker")]), found(), &subjects()).expect("evidence");
    assert_eq!(evidence.public_key, vec![7]);
    assert_eq!(evidence.attestation.quote(), &vec![1; 8]);
    let refusal = |names, attestation| {
        collect_evidence(shown(names), attestation, &subjects()).expect_err("refused").reason
    };
    assert_eq!(refusal(vec![Some("x")], found()), "server subject x not in allowlist");
    assert_eq!(
        refusal(vec![Some("broker")], Ok(None)),
        "certificate does not contain RA-TLS attestation"
    );
    assert_eq!(
        refusal(vec![Some("broker")], Err(Rejection { reason: "x".to_string() })),
        "failed to parse RA-TLS attestation"
    );
}

fn judge(policy: &str) -> RaTlsServerVerifier {
    RaTlsServerVerifier::new(ClientPolicy::from_file(policy).expect("policy"), subjects(), None)
}

#[test]
fn peers_are_inspected() {
    let der = certificate(Some("Broker"), &[4, 5], &[(QUOTE, wrapped(b"q")), (EVENT_LOG, wrapped(b"l"))]);
    let evidence =
        judge(r#"{"allowed_mrtd": ["a"]}"#).inspect_peer(&der).expect("evidence");
    assert_eq!(evidence.public_key, vec![4, 5]);
    assert_eq!(evidence.attestation.quote(), b"q");
    let refusal = judge(r#"{"allowed_mrtd": ["a"]}"#).inspect_peer(b"junk");
    assert!(refusal.expect_err("junk").reason.starts_with("failed to parse X.509 certificate: "));
}

#[test]
fn accepted_peers_are_measured() {
    let refused = |reason: &str| Err(Rejection { reason: reason.to_string() });
    let by_hash = judge(r#"{"expected_compose_hash": "AA"}"#);
    let peer = verified(td10(1), b"log");
    by_hash.accept_peer(&peer, Ok("aA".to_string())).expect("accepted");
    assert_eq!(
        by_hash.accept_peer(&peer, Ok("bb".to_string())).expect_err("other").reason,
        "compose hash bb rejected by policy"
    );
    for missing in [Ok(String::new()), refused("no log")] {
        assert_eq!(
            by_hash.accept_peer(&peer, missing).expect_err("missing").reason,
            "attestation missing compose hash while policy requires it"
        );
    }
    let by_mrtd = judge(r#"{"allowed_mrtd": ["0101"]}"#);
    by_mrtd.accept_peer(&peer, refused("no log")).expect("accepted");
    assert_eq!(
        by_mrtd.accept_peer(&verified(td10(0xAB), b""), refused("")).expect_err("other").reason,
        "TDX MR_TD abab rejected by policy"
    );
    let td15 = Report::TD15 { mr_td: vec![2], report_data: Vec::new() };
    assert_eq!(
        by_mrtd.accept_peer(&verified(td15, b""), refused("")).expect_err("other").reason,
        "TDX (TD15) MR_TD 02 rejected by policy"
    );
    let sgx = || Report::SgxEnclave {
        mr_enclave: vec![1],
        mr_signer: vec![2],
        isv_svn: 3,
        report_data: Vec::new(),
    };
    let by_enclave = judge(r#"{"allowed_mrenclave": ["01"], "min_isvsvn": 3}"#);
    by_enclave.accept_peer(&verified(sgx(), b""), refused("")).expect("accepted");
    let newer = judge(r#"{"allowed_mrenclave": ["01"], "min_isvsvn": 4}"#);
    assert_eq!(
        newer.accept_peer(&verified(sgx(), b""), refused("")).expect_err("older").reason,
        "SGX measurements rejected (mrenclave=01, mrsigner=02, isv_svn=3)"
    );
    enforce_measurement_policy(&MeasurementPolicy::allow_all(), &verified(sgx(), b"")).expect("all");
}

#[test]
fn unverified_peers_are_not_accepted() {
    let judge = judge(r#"{"allowed_mrenclave": ["00"]}"#);
    let key = vec![4u8, 5, 6];
    let bound = || Attestation::new(quote(&binding(&[4, 5, 6])), b"[]".to_vec());
    assert_eq!(bound().raw_event_log().as_slice(), b"[]");
    for public_key in [key, vec![0]] {
        let evidence = PeerEvidence { attestation: bound(), public_key };
        assert_eq!(
            judge.judge_peer(&evidence, &no_collateral(), 1_700_000_000, &Some(Vec::new()))
                .expect_err("refused")
                .reason,
            "RA-TLS attestation verification failed"
        );
    }
}
