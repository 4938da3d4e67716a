use ff::PrimeField;
use halo2_proofs::pasta::Fp;
use secure_database::encoding::RecordId;
use secure_database::field::{digest_to_scalar, Scalar};
use secure_database::json::JsonMember;
use secure_database::time::Timestamp;
use secure_database::zk::{
    bundle_proof, deterministic_seed, expected_instances, hash_expected_digest, load_stored_proof,
    normalise_digest, prepare_verification, proof_failure, scalar_from_bytes, stored_security, verify_proof,
    verify_scalar_equality, CircuitKind, ProofTask, StoredProof, StoredProofRow, Witness,
};
use secure_database::{
    derive_execution_commitment, derive_log_chain_commitment, derive_relay_commitment,
    DatabaseError, ZkProofBundle, ZkProofVerification, ZkProver, ZkVerificationContext,
    DEFAULT_ZK_SECURITY,
};
use sha2::{Digest, Sha256};

fn element(scalar: &Scalar) -> Fp {
    Fp::from_repr(scalar.repr).unwrap()
}

fn scalar_to_bytes(scalar: Fp) -> [u8; 32] {
    scalar.to_repr()
}

#[test]
fn relay_commitment_matches_manual_formula() {
    let bytes = derive_relay_commitment(b"consensus-root", 5, 7).expect("relay commitment");
    let consensus = element(&digest_to_scalar(&normalise_digest(b"consensus-root")));
    let manual = consensus + Fp::from(5u64) + Fp::from(7u64);
    assert_eq!(scalar_to_bytes(manual), bytes);
}

#[test]
fn log_commitment_matches_manual_formula() {
    let bytes = derive_log_chain_commitment(b"prev", b"entry", 42).expect("log commitment");
    let previous = element(&digest_to_scalar(&normalise_digest(b"prev")));
    let entry = element(&digest_to_scalar(&normalise_digest(b"entry")));
    let manual = previous + entry * Fp::from(42u64);
    assert_eq!(scalar_to_bytes(manual), bytes);
}

#[test]
fn execution_commitment_matches_manual_formula() {
    let bytes =
        derive_execution_commitment(b"input", b"output", b"telemetry").expect("exec commitment");
    let input = element(&digest_to_scalar(&normalise_digest(b"input")));
    let output = element(&digest_to_scalar(&normalise_digest(b"output")));
    let telemetry = element(&digest_to_scalar(&normalise_digest(b"telemetry")));
    let manual = input + output + telemetry;
    assert_eq!(scalar_to_bytes(manual), bytes);
}

fn small(n: u8) -> [u8; 32] {
    let mut bytes = [0u8; 32];
    bytes[0] = n;
    bytes
}

const MODULUS: [u8; 32] = [
    0x01, 0x00, 0x00, 0x00, 0xed, 0x30, 0x2d, 0x99, 0x1b, 0xf9, 0x4c, 0x09, 0xfc, 0x98, 0x46, 0x22,
    0, 0, 0, 0, 0, 0, 0, 0, 0, 0, 0, 0, 0, 0, 0, 0x40,
];

fn largest() -> [u8; 32] {
    let mut bytes = MODULUS;
    bytes[0] = 0;
    bytes
}

fn id(n: u8) -> RecordId {
    RecordId { bytes: [n; 16] }
}

fn now() -> Timestamp {
    Timestamp { seconds: 1_700_000_000, nanos: 1 }
}

#[test]
fn commitments_are_exact() {
    assert_eq!(derive_relay_commitment(&small(1), 5, 7).expect("relay"), small(13));
    assert_eq!(derive_relay_commitment(&largest(), 5, 7).expect("relay"), small(11));
    assert_eq!(derive_log_chain_commitment(&small(1), &small(2), 42).expect("log"), small(85));
    assert_eq!(derive_log_chain_commitment(&small(1), &largest(), 1).expect("log"), small(0));
    assert_eq!(
        derive_execution_commitment(&small(1), &small(2), &small(3)).expect("execution"),
        small(6)
    );
    let mut widest = [0u8; 32];
    widest[..8].copy_from_slice(&u64::MAX.to_le_bytes());
    assert_eq!(derive_log_chain_commitment(&small(0), &small(1), u64::MAX).expect("log"), widest);
}

#[test]
fn digests_are_brought_to_length() {
    assert_eq!(normalise_digest(&[7; 32]), vec![7; 32]);
    assert_eq!(normalise_digest(&[7; 31]), Sha256::digest([7; 31]).to_vec());
    assert_eq!(normalise_digest(&[7; 33]), Sha256::digest([7; 33]).to_vec());
    assert_eq!(
        hash_expected_digest(b"abc"),
        "ba7816bf8f01cfea414140de5dae2223b00361a396177a9cb410ff61f20015ad"
    );
}

#[test]
fn elements_are_canonical() {
    assert_eq!(digest_to_scalar(&MODULUS).repr, small(0));
    assert_eq!(digest_to_scalar(&largest()).repr, largest());
    assert_eq!(element(&digest_to_scalar(&[0xff; 32])), Fp::from_raw([u64::MAX; 4]));
    assert_eq!(scalar_from_bytes(&largest()).expect("canonical").repr, largest());
    assert_eq!(
        scalar_from_bytes(&MODULUS).expect_err("not canonical").message(),
        "zero-knowledge error: invalid field encoding"
    );
    assert_eq!(
        scalar_from_bytes(&[0; 31]).expect_err("short").message(),
        "zero-knowledge error: proof commitment must be 32 bytes"
    );
}

#[test]
fn provers_are_deterministic() {
    assert_eq!(deterministic_seed(14), 0x4252_5554 ^ 14);
    assert_eq!(deterministic_seed(0), 0x4252_5554);
    assert_eq!(DEFAULT_ZK_SECURITY, 14);
    assert_eq!(ZkProver::default().prove_digest_equality(b"a", b"a").security, 14);
    assert_eq!(ZkProver::new(9).prove_digest_equality(b"a", b"a").seed, 0x4252_5554 ^ 9);
}

#[test]
fn equal_provers_set_equal_tasks() {
    let first = ZkProver::new(9).prove_digest_equality(b"a", b"b");
    let second = ZkProver::new(9).prove_digest_equality(b"a", b"b");
    assert_eq!(first.seed, second.seed);
    assert_eq!(first.security, second.security);
    assert_eq!(first.expected_hash, second.expected_hash);
    assert_eq!(format!("{:?}", first.witness), format!("{:?}", second.witness));
    assert_eq!(format!("{:?}", first.public_inputs), format!("{:?}", second.public_inputs));
    assert_eq!(first.instances.len(), second.instances.len());
    assert_eq!(first.instances[0].repr, second.instances[0].repr);
}

fn bundled(task: ProofTask) -> ZkProofBundle {
    bundle_proof(task, id(2), Ok(vec![1, 2, 3]), now()).expect("bundle")
}

fn digest_bundle() -> ZkProofBundle {
    let digest = Sha256::digest(b"halo2-proof");
    bundled(ZkProver::default().prove_digest_equality(&digest, &digest))
}

#[test]
fn digest_bundles_are_checked() {
    let digest = Sha256::digest(b"halo2-proof");
    let bundle = digest_bundle();
    assert_eq!(bundle.protocol.as_str(), "halo2-scalar-equality-v1");
    assert_eq!(bundle.circuit.as_str(), "scalar_equality");
    assert_eq!(bundle.user_id, id(2));
    assert_eq!(bundle.proof, vec![1, 2, 3]);
    assert_eq!(bundle.created_at, now());
    assert_eq!(bundle.expected_hash, hex::encode(Sha256::digest(digest)));
    let inputs = bundle.public_inputs.as_ref().expect("inputs");
    assert_eq!(inputs.len(), 1);
    assert_eq!(inputs[0].0, "expected_digest");
    assert!(matches!(&inputs[0].1, JsonMember::Text(text) if *text == hex::encode(digest)));

    let verification =
        ZkProofVerification::scalar_digest(bundle.proof_id, bundle.user_id, digest.to_vec());
    if let ZkVerificationContext::ScalarDigest { expected_digest } = verification.context() {
        assert_eq!(expected_digest.as_slice(), digest.as_slice());
    } else {
        panic!("unexpected verification context");
    }
    assert!(matches!(
        verify_proof(&bundle, verification.context()),
        Ok(CircuitKind::ScalarEquality)
    ));
    verify_scalar_equality(&bundle, &digest).expect("proof should be let through");

    let mismatch = Sha256::digest(b"halo2-mismatch");
    let err = verify_scalar_equality(&bundle, &mismatch).expect_err("verification must fail");
    assert!(matches!(err, DatabaseError::Integrity(_)));
}

#[test]
fn each_bundle_has_its_own_identity() {
    assert_ne!(digest_bundle().proof_id, digest_bundle().proof_id);
}

#[test]
fn digests_of_other_lengths_are_told_apart() {
    let bundle = bundled(ZkProver::default().prove_digest_equality(b"abc", b"abc"));
    verify_scalar_equality(&bundle, b"abc").expect("brought to length first");
    let context = ZkVerificationContext::ScalarDigest { expected_digest: b"abc".to_vec() };
    assert_eq!(
        verify_proof(&bundle, &context).expect_err("taken as it is").message(),
        "integrity violation: expected commitment does not match stored hash"
    );
}

#[test]
fn failed_proofs_make_no_bundle() {
    let task = ZkProver::default().prove_digest_equality(b"a", b"a");
    let error = bundle_proof(task, id(2), Err("no rows".to_string()), now()).expect_err("failed");
    assert_eq!(error.message(), "zero-knowledge error: no rows");
    assert_eq!(proof_failure("x").message(), "zero-knowledge error: x");
}

fn relay() -> (ZkProofBundle, [u8; 32]) {
    let commitment = derive_relay_commitment(b"consensus", 5, 7).expect("commitment");
    (bundled(ZkProver::default().prove_relay_audit(b"consensus", 5, 7)), commitment)
}

#[test]
fn relay_bundles_are_held_to_their_context() {
    let (bundle, commitment) = relay();
    let good = ZkProofVerification::relay_audit(id(1), id(2), commitment.to_vec(), 5, 7);
    assert!(matches!(verify_proof(&bundle, good.context()), Ok(CircuitKind::RelayAudit)));
    let instances = expected_instances(good.context()).expect("instances");
    assert_eq!(instances.len(), 3);
    assert_eq!(instances[0].repr, commitment);
    assert_eq!(instances[1].repr, small(5));
    assert_eq!(instances[2].repr, small(7));

    for (guards, exits) in [(6, 7), (5, 8)] {
        let other = ZkProofVerification::relay_audit(id(1), id(2), commitment.to_vec(), guards, exits);
        assert_eq!(
            verify_proof(&bundle, other.context()).expect_err("counts").message(),
            "integrity violation: relay proof public counts do not match verification context"
        );
    }
    let other = ZkProofVerification::relay_audit(id(1), id(2), vec![0; 32], 5, 7);
    assert_eq!(
        verify_proof(&bundle, other.context()).expect_err("commitment").message(),
        "integrity violation: expected commitment does not match stored hash"
    );
    let other = ZkProofVerification::execution(id(1), id(2), commitment.to_vec());
    assert_eq!(
        verify_proof(&bundle, other.context()).expect_err("circuit").message(),
        "zero-knowledge error: unexpected circuit 'relay_audit_v1', expected execution_attestation_v1"
    );
}

fn refusal(change: impl Fn(&mut ZkProofBundle)) -> String {
    let (mut bundle, commitment) = relay();
    change(&mut bundle);
    let context = ZkProofVerification::relay_audit(id(1), id(2), commitment.to_vec(), 5, 7);
    verify_proof(&bundle, context.context()).expect_err("refused").message()
}

fn without(bundle: &mut ZkProofBundle, name: &str) {
    bundle.public_inputs.as_mut().expect("inputs").retain(|(key, _)| key != name);
}

fn replaced(bundle: &mut ZkProofBundle, name: &str, value: JsonMember) {
    without(bundle, name);
    bundle.public_inputs.as_mut().expect("inputs").push((name.to_string(), value));
}

#[test]
fn tampered_relay_bundles_are_told_apart() {
    assert_eq!(
        refusal(|bundle| bundle.protocol = "other".to_string()),
        "zero-knowledge error: unsupported protocol 'other': expected halo2-scalar-equality-v1"
    );
    assert_eq!(
        refusal(|bundle| bundle.public_inputs = None),
        "zero-knowledge error: relay proof missing public inputs"
    );
    for name in ["guard_count", "exit_count", "commitment"] {
        assert_eq!(
            refusal(|bundle| without(bundle, name)),
            format!("zero-knowledge error: relay proof missing {}", name)
        );
        assert_eq!(
            refusal(|bundle| replaced(bundle, name, JsonMember::Other)),
            format!("zero-knowledge error: relay proof missing {}", name)
        );
    }
    assert_eq!(
        refusal(|bundle| replaced(bundle, "commitment", JsonMember::Text("00".to_string()))),
        "integrity violation: relay proof commitment mismatch"
    );
}

#[test]
fn log_bundles_are_held_to_their_context() {
    let commitment = derive_log_chain_commitment(b"prev", b"entry", 42).expect("commitment");
    let task = ZkProver::new(11).prove_log_chain_integrity(b"prev", b"entry", 42);
    assert!(matches!(task.witness, Witness::LogIntegrity { .. }));
    let mut bundle = bundled(task);
    assert_eq!(bundle.circuit_security, 11);
    assert_eq!(bundle.circuit, "log_chain_integrity_v1");
    let good = ZkProofVerification::log_integrity(id(1), id(2), commitment.to_vec(), 42);
    assert!(matches!(verify_proof(&bundle, good.context()), Ok(CircuitKind::LogIntegrity)));
    let instances = expected_instances(good.context()).expect("instances");
    assert_eq!(instances[0].repr, commitment);
    assert_eq!(instances[1].repr, small(42));
    let other = ZkProofVerification::log_integrity(id(1), id(2), commitment.to_vec(), 43);
    assert_eq!(
        verify_proof(&bundle, other.context()).expect_err("sequence").message(),
        "integrity violation: log proof sequence does not match verification context"
    );
    replaced(&mut bundle, "commitment", JsonMember::Text(String::new()));
    assert_eq!(
        verify_proof(&bundle, good.context()).expect_err("commitment").message(),
        "integrity violation: log proof commitment mismatch"
    );
    without(&mut bundle, "commitment");
    assert_eq!(
        verify_proof(&bundle, good.context()).expect_err("commitment").message(),
        "zero-knowledge error: log proof missing commitment"
    );
    without(&mut bundle, "sequence");
    assert_eq!(
        verify_proof(&bundle, good.context()).expect_err("sequence").message(),
        "zero-knowledge error: log proof missing sequence"
    );
    bundle.public_inputs = None;
    assert_eq!(
        verify_proof(&bundle, good.context()).expect_err("inputs").message(),
        "zero-knowledge error: log proof missing public inputs"
    );
}

#[test]
fn execution_bundles_are_held_to_their_context() {
    let commitment = derive_execution_commitment(b"i", b"o", b"t").expect("commitment");
    let mut bundle = bundled(ZkProver::default().prove_execution_attestation(b"i", b"o", b"t"));
    let names: Vec<&str> = bundle
        .public_inputs
        .as_ref()
        .expect("inputs")
        .iter()
        .map(|(name, _)| name.as_str())
        .collect();
    assert_eq!(names, vec!["commitment", "input_hash", "output_hash", "telemetry_hash"]);
    let good = ZkProofVerification::execution(id(1), id(2), commitment.to_vec());
    assert!(matches!(verify_proof(&bundle, good.context()), Ok(CircuitKind::Execution)));
    replaced(&mut bundle, "commitment", JsonMember::Text(String::new()));
    assert_eq!(
        verify_proof(&bundle, good.context()).expect_err("commitment").message(),
        "integrity violation: execution proof commitment mismatch"
    );
    without(&mut bundle, "commitment");
    assert_eq!(
        verify_proof(&bundle, good.context()).expect_err("commitment").message(),
        "zero-knowledge error: execution proof missing commitment"
    );
    bundle.public_inputs = None;
    assert_eq!(
        verify_proof(&bundle, good.context()).expect_err("inputs").message(),
        "zero-knowledge error: execution proof missing public inputs"
    );
}

#[test]
fn commitments_outside_the_field_are_refused() {
    let context = ZkVerificationContext::Execution { expected_commitment: MODULUS.to_vec() };
    assert_eq!(
        expected_instances(&context).expect_err("too large").message(),
        "zero-knowledge error: invalid field encoding"
    );
    let context = ZkVerificationContext::ScalarDigest { expected_digest: MODULUS.to_vec() };
    assert_eq!(expected_instances(&context).expect("reduced")[0].repr, small(0));
}

#[test]
fn proofs_are_prepared_with_their_values() {
    let (bundle, commitment) = relay();
    let good = ZkProofVerification::relay_audit(id(1), id(2), commitment.to_vec(), 5, 7);
    let (kind, instances) = prepare_verification(&bundle, good.context()).expect("prepared");
    assert_eq!(kind, CircuitKind::RelayAudit);
    assert_eq!(instances.len(), 3);
    assert_eq!(instances[0].repr, commitment);

    for (expected, problem) in [
        (vec![7u8; 31], "proof commitment must be 32 bytes"),
        (Vec::new(), "proof commitment must be 32 bytes"),
        (MODULUS.to_vec(), "invalid field encoding"),
    ] {
        let mut bundle = bundled(ZkProver::default().prove_execution_attestation(b"i", b"o", b"t"));
        bundle.expected_hash = hex::encode(Sha256::digest(&expected));
        replaced(&mut bundle, "commitment", JsonMember::Text(hex::encode(&expected)));
        let context = ZkVerificationContext::Execution { expected_commitment: expected };
        let message = format!("zero-knowledge error: {}", problem);
        assert_eq!(verify_proof(&bundle, &context).expect_err("commitment").message(), message);
        assert_eq!(
            prepare_verification(&bundle, &context).expect_err("commitment").message(),
            message
        );
    }
}

#[test]
fn unsupported_bundles_are_refused() {
    let (bundle, _) = relay();
    assert_eq!(
        verify_scalar_equality(&bundle, b"x").expect_err("other circuit").message(),
        "zero-knowledge error: unsupported proof bundle"
    );
    let mut bundle = digest_bundle();
    bundle.protocol.push('2');
    assert_eq!(
        verify_scalar_equality(&bundle, b"x").expect_err("other protocol").message(),
        "zero-knowledge error: unsupported proof bundle"
    );
}

#[test]
fn witnesses_satisfy_their_statement() {
    match ZkProver::default().prove_relay_audit(b"c", 3, 4) {
        ProofTask {
            witness: Witness::RelayAudit { consensus_value, guard_value, exit_value },
            instances,
            ..
        } => {
            let sum = element(&consensus_value) + element(&guard_value) + element(&exit_value);
            assert_eq!(sum, element(&instances[0]));
            assert_eq!(guard_value.repr, instances[1].repr);
            assert_eq!(exit_value.repr, instances[2].repr);
        }
        other => panic!("unexpected {:?}", other),
    }
    match ZkProver::default().prove_log_chain_integrity(b"p", b"e", 9) {
        ProofTask { witness: Witness::LogIntegrity { previous_value, entry_value }, instances, .. } => {
            let chained = element(&entry_value) * element(&instances[1]) + element(&previous_value);
            assert_eq!(chained, element(&instances[0]));
        }
        other => panic!("unexpected {:?}", other),
    }
    match ZkProver::default().prove_execution_attestation(b"i", b"o", b"t") {
        ProofTask {
            witness: Witness::Execution { input_value, output_value, telemetry_value },
            instances,
            ..
        } => {
            let sum = element(&input_value) + element(&output_value) + element(&telemetry_value);
            assert_eq!(sum, element(&instances[0]));
        }
        other => panic!("unexpected {:?}", other),
    }
    match ZkProver::default().prove_digest_equality(b"d", b"d") {
        ProofTask { witness: Witness::ScalarEquality { private_value }, instances, .. } => {
            assert_eq!(private_value.repr, instances[0].repr);
        }
        other => panic!("unexpected {:?}", other),
    }
}

fn row(verified: bool) -> StoredProofRow {
    StoredProofRow {
        protocol: "p".to_string(),
        circuit: "c".to_string(),
        circuit_security: 14,
        expected_hash: "h".to_string(),
        public_inputs: None,
        proof: vec![9],
        verified,
    }
}

#[test]
fn stored_proofs_are_loaded() {
    let verification = ZkProofVerification::execution(id(1), id(2), vec![0; 32]);
    assert_eq!(
        load_stored_proof(None, &verification, now()).expect_err("absent").message(),
        "database query error: proof not found"
    );
    assert!(matches!(
        load_stored_proof(Some(row(true)), &verification, now()).expect("verified"),
        StoredProof::Verified
    ));
    match load_stored_proof(Some(row(false)), &verification, now()).expect("pending") {
        StoredProof::Pending(bundle) => {
            assert_eq!(bundle.proof_id, id(1));
            assert_eq!(bundle.user_id, id(2));
            assert_eq!(bundle.circuit_security, 14);
            assert_eq!(bundle.proof, vec![9]);
            assert_eq!(bundle.created_at, now());
        }
        other => panic!("unexpected {:?}", other),
    }
    assert_eq!(stored_security(14), 14);
    assert_eq!(stored_security(0x8000), i16::MIN);
}
