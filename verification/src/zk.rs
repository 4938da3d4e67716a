//! Zero-knowledge proofs over the Pasta curves: what is proved, which public
//! values a proof is held against, and when a stored proof is refused before
//! its verification.

use crate::crypto;
use crate::encoding;
use crate::encoding::RecordId;
use crate::error;
use crate::error::{integrity_error, zero_knowledge_error, DatabaseError, DbResult};
use crate::field;
use crate::field::Scalar;
use crate::json;
use crate::json::{JsonMember, MemberView};
use crate::text;
use crate::time::Timestamp;
use vstd::prelude::*;

verus! {

/// Default ZK security parameter (k) for Halo2 circuits.
/// k=14 provides 2^14 = 16384 rows, balancing security and performance.
pub const DEFAULT_ZK_SECURITY: u32 = 14;

/// "BRUT" in ASCII.
pub const PARAM_SEED: u64 = 0x4252_5554;

/// The protocol that all proofs follow.
pub const PROTOCOL_ID: &'static str = "halo2-scalar-equality-v1";

/// What a proof is about.
#[derive(Clone, Copy, Debug, PartialEq, Eq, Structural)]
pub enum CircuitKind {
    ScalarEquality,
    RelayAudit,
    LogIntegrity,
    Execution,
}

impl CircuitKind {
    /// The identifier of the circuit.
    pub open spec fn id_text(self) -> Seq<char> {
        match self {
            CircuitKind::ScalarEquality => "scalar_equality"@,
            CircuitKind::RelayAudit => "relay_audit_v1"@,
            CircuitKind::LogIntegrity => "log_chain_integrity_v1"@,
            CircuitKind::Execution => "execution_attestation_v1"@,
        }
    }

    /// The identifier of the circuit.
    pub fn id(self) -> (res: &'static str)
        ensures
            res@ == self.id_text(),
    {
        match self {
            CircuitKind::ScalarEquality => "scalar_equality",
            CircuitKind::RelayAudit => "relay_audit_v1",
            CircuitKind::LogIntegrity => "log_chain_integrity_v1",
            CircuitKind::Execution => "execution_attestation_v1",
        }
    }
}

/// A digest of thirty-two bytes: the bytes themselves, or their hash where
/// they are of another length.
pub open spec fn normal_digest(digest: Seq<u8>) -> Seq<u8> {
    if digest.len() == 32 {
        digest
    } else {
        crypto::sha256(digest)
    }
}

/// A digest of thirty-two bytes.
pub fn normalise_digest(digest: &[u8]) -> (res: Vec<u8>)
    ensures
        res@ == normal_digest(digest@),
        res@.len() == 32,
{
    if digest.len() == 32 {
        crate::pem::copy_bytes(digest)
    } else {
        crypto::sha256_digest(digest)
    }
}

/// The hexadecimal hash of a digest.
pub open spec fn digest_hash(digest: Seq<u8>) -> Seq<char> {
    encoding::hex_text(crypto::sha256(digest))
}

/// The hexadecimal hash of a digest.
pub fn hash_expected_digest(digest: &[u8]) -> (res: String)
    ensures
        res@ == digest_hash(digest@),
{
    encoding::hex_encode(crypto::sha256_digest(digest).as_slice())
}

/// The field element that a digest stands for.
pub open spec fn scalar_of(digest: Seq<u8>) -> nat {
    field::le_value(normal_digest(digest)) % field::modulus()
}

fn digest_scalar(digest: &[u8]) -> (res: Scalar)
    ensures
        res@ == scalar_of(digest@),
        res.wf(),
{
    let normal = normalise_digest(digest);
    field::digest_to_scalar(normal.as_slice())
}

/// The encoding of a field element.
pub open spec fn scalar_bytes(value: nat) -> Seq<u8> {
    field::le_bytes(value, 32)
}

/// The field element that a commitment encodes.
pub open spec fn committed(bytes: Seq<u8>) -> Result<nat, error::ErrorView> {
    if bytes.len() != 32 {
        Err(error::zero_knowledge("proof commitment must be 32 bytes"@))
    } else if field::le_value(bytes) >= field::modulus() {
        Err(error::zero_knowledge("invalid field encoding"@))
    } else {
        Ok(field::le_value(bytes))
    }
}

/// Read the field element that a commitment encodes.
pub fn scalar_from_bytes(bytes: &[u8]) -> (res: DbResult<Scalar>)
    ensures
        error::outcome(res) == committed(bytes@),
        res matches Ok(scalar) ==> scalar.wf(),
{
    if bytes.len() != 32 {
        return Err(zero_knowledge_error("proof commitment must be 32 bytes"));
    }
    let mut repr: [u8; 32] = [0;32];
    let mut i: usize = 0;
    while i < 32
        invariant
            i <= 32,
            bytes@.len() == 32,
            forall|j: int| 0 <= j < i ==> repr@[j] == bytes@[j],
        decreases 32 - i,
    {
        repr[i] = bytes[i];
        i = i + 1;
    }
    assert(repr@ =~= bytes@);
    match field::scalar_from_repr(repr) {
        Some(scalar) => Ok(scalar),
        None => Err(zero_knowledge_error("invalid field encoding")),
    }
}

/// The field element that a relay audit commits to.
pub open spec fn relay_value(consensus: Seq<u8>, guard_count: u32, exit_count: u32) -> nat {
    (scalar_of(consensus) + guard_count as nat + exit_count as nat) % field::modulus()
}

/// The field element that a chained log entry commits to.
pub open spec fn log_value(previous: Seq<u8>, entry: Seq<u8>, sequence_number: u64) -> nat {
    (scalar_of(previous) + scalar_of(entry) * sequence_number as nat) % field::modulus()
}

/// The field element that an execution commits to.
pub open spec fn execution_value(input: Seq<u8>, output: Seq<u8>, telemetry: Seq<u8>) -> nat {
    (scalar_of(input) + scalar_of(output) + scalar_of(telemetry)) % field::modulus()
}

fn sum3(a: Scalar, b: Scalar, c: Scalar) -> (res: Scalar)
    requires
        a.wf(),
        b.wf(),
        c.wf(),
    ensures
        res@ == (a@ + b@ + c@) % field::modulus(),
        res.wf(),
{
    let ab = field::scalar_sum(a, b);
    proof {
        vstd::arithmetic::div_mod::lemma_add_mod_noop_right(
            c@ as int,
            (a@ + b@) as int,
            field::modulus() as int,
        );
    }
    field::scalar_sum(ab, c)
}

fn relay_scalar(consensus_digest: &[u8], guard_count: u32, exit_count: u32) -> (res: Scalar)
    ensures
        res@ == relay_value(consensus_digest@, guard_count, exit_count),
        res.wf(),
{
    let consensus = digest_scalar(consensus_digest);
    let guard = field::scalar_from_u64(guard_count as u64);
    let exit = field::scalar_from_u64(exit_count as u64);
    sum3(consensus, guard, exit)
}

fn log_scalar(previous_hash: &[u8], entry_hash: &[u8], sequence_number: u64) -> (res: Scalar)
    ensures
        res@ == log_value(previous_hash@, entry_hash@, sequence_number),
        res.wf(),
{
    let previous = digest_scalar(previous_hash);
    let entry = digest_scalar(entry_hash);
    let sequence = field::scalar_from_u64(sequence_number);
    let product = field::scalar_product(entry, sequence);
    proof {
        vstd::arithmetic::div_mod::lemma_add_mod_noop_right(
            previous@ as int,
            (entry@ * sequence@) as int,
            field::modulus() as int,
        );
    }
    field::scalar_sum(previous, product)
}

fn execution_scalar(input_hash: &[u8], output_hash: &[u8], telemetry_hash: &[u8]) -> (res: Scalar)
    ensures
        res@ == execution_value(input_hash@, output_hash@, telemetry_hash@),
        res.wf(),
{
    let input = digest_scalar(input_hash);
    let output = digest_scalar(output_hash);
    let telemetry = digest_scalar(telemetry_hash);
    sum3(input, output, telemetry)
}

/// The commitment of a relay audit.
pub open spec fn relay_commitment(consensus: Seq<u8>, guard_count: u32, exit_count: u32) -> Seq<u8> {
    scalar_bytes(relay_value(consensus, guard_count, exit_count))
}

/// The commitment of a chained log entry.
pub open spec fn log_commitment(previous: Seq<u8>, entry: Seq<u8>, sequence_number: u64) -> Seq<u8> {
    scalar_bytes(log_value(previous, entry, sequence_number))
}

/// The commitment of an execution.
pub open spec fn execution_commitment(
    input: Seq<u8>,
    output: Seq<u8>,
    telemetry: Seq<u8>,
) -> Seq<u8> {
    scalar_bytes(execution_value(input, output, telemetry))
}

/// Commitment helper for relay audit proofs.
pub fn derive_relay_commitment(consensus_digest: &[u8], guard_count: u32, exit_count: u32) -> (res:
    DbResult<[u8; 32]>)
    ensures
        res matches Ok(bytes) && bytes@ == relay_commitment(
            consensus_digest@,
            guard_count,
            exit_count,
        ),
{
    let combined = relay_scalar(consensus_digest, guard_count, exit_count);
    proof {
        field::le_bytes_of_value(combined.repr@);
    }
    Ok(combined.repr)
}

/// Commitment helper for audit log integrity proofs.
pub fn derive_log_chain_commitment(
    previous_hash: &[u8],
    entry_hash: &[u8],
    sequence_number: u64,
) -> (res: DbResult<[u8; 32]>)
    ensures
        res matches Ok(bytes) && bytes@ == log_commitment(
            previous_hash@,
            entry_hash@,
            sequence_number,
        ),
{
    let combined = log_scalar(previous_hash, entry_hash, sequence_number);
    proof {
        field::le_bytes_of_value(combined.repr@);
    }
    Ok(combined.repr)
}

/// Commitment helper for execution attestation proofs.
pub fn derive_execution_commitment(
    input_hash: &[u8],
    output_hash: &[u8],
    telemetry_hash: &[u8],
) -> (res: DbResult<[u8; 32]>)
    ensures
        res matches Ok(bytes) && bytes@ == execution_commitment(
            input_hash@,
            output_hash@,
            telemetry_hash@,
        ),
{
    let combined = execution_scalar(input_hash, output_hash, telemetry_hash);
    proof {
        field::le_bytes_of_value(combined.repr@);
    }
    Ok(combined.repr)
}

/// Compact proof bundle ready for database persistence.
#[derive(Debug, Clone)]
pub struct ZkProofBundle {
    pub proof_id: RecordId,
    pub user_id: RecordId,
    pub protocol: String,
    pub circuit: String,
    pub circuit_security: u32,
    pub expected_hash: String,
    /// The members of the object with the public inputs; `None` for a value
    /// that is no object.
    pub public_inputs: Option<Vec<(String, JsonMember)>>,
    pub proof: Vec<u8>,
    pub created_at: Timestamp,
}

/// The part of a bundle that is checked before its proof, over views.
pub struct BundleView {
    pub protocol: Seq<char>,
    pub circuit: Seq<char>,
    pub circuit_security: u32,
    pub expected_hash: Seq<char>,
    pub public_inputs: Option<Map<Seq<char>, MemberView>>,
}

impl View for ZkProofBundle {
    type V = BundleView;

    open spec fn view(&self) -> BundleView {
        BundleView {
            protocol: self.protocol@,
            circuit: self.circuit@,
            circuit_security: self.circuit_security,
            expected_hash: self.expected_hash@,
            public_inputs: json::member_map(self.public_inputs),
        }
    }
}

impl ZkProofBundle {
    /// The bytes of the proof.
    pub open spec fn proof_bytes(self) -> Seq<u8> {
        self.proof@
    }
}

/// Description of the context that must be satisfied when verifying a proof.
#[derive(Clone, Debug)]
pub enum ZkVerificationContext {
    ScalarDigest { expected_digest: Vec<u8> },
    RelayAudit { expected_commitment: Vec<u8>, guard_count: u32, exit_count: u32 },
    LogIntegrity { expected_commitment: Vec<u8>, sequence_number: u64 },
    Execution { expected_commitment: Vec<u8> },
}

/// The context of a verification, over views.
pub enum ContextView {
    ScalarDigest { expected_digest: Seq<u8> },
    RelayAudit { expected_commitment: Seq<u8>, guard_count: u32, exit_count: u32 },
    LogIntegrity { expected_commitment: Seq<u8>, sequence_number: u64 },
    Execution { expected_commitment: Seq<u8> },
}

impl View for ZkVerificationContext {
    type V = ContextView;

    open spec fn view(&self) -> ContextView {
        match self {
            ZkVerificationContext::ScalarDigest { expected_digest } => ContextView::ScalarDigest {
                expected_digest: expected_digest@,
            },
            ZkVerificationContext::RelayAudit { expected_commitment, guard_count, exit_count } =>
                ContextView::RelayAudit {
                expected_commitment: expected_commitment@,
                guard_count: *guard_count,
                exit_count: *exit_count,
            },
            ZkVerificationContext::LogIntegrity { expected_commitment, sequence_number } =>
                ContextView::LogIntegrity {
                expected_commitment: expected_commitment@,
                sequence_number: *sequence_number,
            },
            ZkVerificationContext::Execution { expected_commitment } => ContextView::Execution {
                expected_commitment: expected_commitment@,
            },
        }
    }
}

/// Verification request used when validating stored proofs.
#[derive(Clone, Debug)]
pub struct ZkProofVerification {
    pub proof_id: RecordId,
    pub user_id: RecordId,
    pub context: ZkVerificationContext,
}

/// The request to verify the proof of a digest.
pub open spec fn digest_request(
    proof_id: RecordId,
    user_id: RecordId,
    expected_digest: Vec<u8>,
) -> ZkProofVerification {
    ZkProofVerification {
        proof_id,
        user_id,
        context: ZkVerificationContext::ScalarDigest { expected_digest },
    }
}

/// The request to verify the proof of a relay audit.
pub open spec fn relay_request(
    proof_id: RecordId,
    user_id: RecordId,
    expected_commitment: Vec<u8>,
    guard_count: u32,
    exit_count: u32,
) -> ZkProofVerification {
    ZkProofVerification {
        proof_id,
        user_id,
        context: ZkVerificationContext::RelayAudit {
            expected_commitment,
            guard_count,
            exit_count,
        },
    }
}

/// The request to verify the proof of a log chain.
pub open spec fn log_request(
    proof_id: RecordId,
    user_id: RecordId,
    expected_commitment: Vec<u8>,
    sequence_number: u64,
) -> ZkProofVerification {
    ZkProofVerification {
        proof_id,
        user_id,
        context: ZkVerificationContext::LogIntegrity { expected_commitment, sequence_number },
    }
}

/// The request to verify the proof of an execution.
pub open spec fn execution_request(
    proof_id: RecordId,
    user_id: RecordId,
    expected_commitment: Vec<u8>,
) -> ZkProofVerification {
    ZkProofVerification {
        proof_id,
        user_id,
        context: ZkVerificationContext::Execution { expected_commitment },
    }
}

/// A request names its proof and its user, and asks for the values that it was
/// made with.
pub proof fn requests_name_what_they_verify(
    proof_id: RecordId,
    user_id: RecordId,
    value: Vec<u8>,
    guard_count: u32,
    exit_count: u32,
    sequence_number: u64,
)
    ensures
        ({
            let request = digest_request(proof_id, user_id, value);
            &&& request.proof_id == proof_id
            &&& request.user_id == user_id
            &&& request.context@ == ContextView::ScalarDigest { expected_digest: value@ }
        }),
        ({
            let request = relay_request(proof_id, user_id, value, guard_count, exit_count);
            &&& request.proof_id == proof_id
            &&& request.user_id == user_id
            &&& request.context@ == ContextView::RelayAudit {
                expected_commitment: value@,
                guard_count,
                exit_count,
            }
        }),
        ({
            let request = log_request(proof_id, user_id, value, sequence_number);
            &&& request.proof_id == proof_id
            &&& request.user_id == user_id
            &&& request.context@ == ContextView::LogIntegrity {
                expected_commitment: value@,
                sequence_number,
            }
        }),
        ({
            let request = execution_request(proof_id, user_id, value);
            &&& request.proof_id == proof_id
            &&& request.user_id == user_id
            &&& request.context@ == ContextView::Execution { expected_commitment: value@ }
        }),
{
}

impl ZkProofVerification {
    pub fn scalar_digest(proof_id: RecordId, user_id: RecordId, expected_digest: Vec<u8>) -> (res:
        Self)
        ensures
            res == digest_request(proof_id, user_id, expected_digest),
    {
        ZkProofVerification {
            proof_id,
            user_id,
            context: ZkVerificationContext::ScalarDigest { expected_digest },
        }
    }

    pub fn relay_audit(
        proof_id: RecordId,
        user_id: RecordId,
        expected_commitment: Vec<u8>,
        guard_count: u32,
        exit_count: u32,
    ) -> (res: Self)
        ensures
            res == relay_request(proof_id, user_id, expected_commitment, guard_count, exit_count),
    {
        ZkProofVerification {
            proof_id,
            user_id,
            context: ZkVerificationContext::RelayAudit {
                expected_commitment,
                guard_count,
                exit_count,
            },
        }
    }

    pub fn log_integrity(
        proof_id: RecordId,
        user_id: RecordId,
        expected_commitment: Vec<u8>,
        sequence_number: u64,
    ) -> (res: Self)
        ensures
            res == log_request(proof_id, user_id, expected_commitment, sequence_number),
    {
        ZkProofVerification {
            proof_id,
            user_id,
            context: ZkVerificationContext::LogIntegrity { expected_commitment, sequence_number },
        }
    }

    pub fn execution(proof_id: RecordId, user_id: RecordId, expected_commitment: Vec<u8>) -> (res:
        Self)
        ensures
            res == execution_request(proof_id, user_id, expected_commitment),
    {
        ZkProofVerification {
            proof_id,
            user_id,
            context: ZkVerificationContext::Execution { expected_commitment },
        }
    }

    pub fn context(&self) -> (res: &ZkVerificationContext)
        ensures
            *res == self.context,
    {
        &self.context
    }
}

/// The private values of a proof.
#[derive(Clone, Copy, Debug)]
pub enum Witness {
    ScalarEquality { private_value: Scalar },
    RelayAudit { consensus_value: Scalar, guard_value: Scalar, exit_value: Scalar },
    LogIntegrity { previous_value: Scalar, entry_value: Scalar },
    Execution { input_value: Scalar, output_value: Scalar, telemetry_value: Scalar },
}

/// The private values of a proof, over views.
pub enum WitnessView {
    ScalarEquality { private_value: nat },
    RelayAudit { consensus_value: nat, guard_value: nat, exit_value: nat },
    LogIntegrity { previous_value: nat, entry_value: nat },
    Execution { input_value: nat, output_value: nat, telemetry_value: nat },
}

impl View for Witness {
    type V = WitnessView;

    open spec fn view(&self) -> WitnessView {
        match self {
            Witness::ScalarEquality { private_value } => WitnessView::ScalarEquality {
                private_value: private_value@,
            },
            Witness::RelayAudit { consensus_value, guard_value, exit_value } =>
                WitnessView::RelayAudit {
                consensus_value: consensus_value@,
                guard_value: guard_value@,
                exit_value: exit_value@,
            },
            Witness::LogIntegrity { previous_value, entry_value } => WitnessView::LogIntegrity {
                previous_value: previous_value@,
                entry_value: entry_value@,
            },
            Witness::Execution { input_value, output_value, telemetry_value } =>
                WitnessView::Execution {
                input_value: input_value@,
                output_value: output_value@,
                telemetry_value: telemetry_value@,
            },
        }
    }
}

/// The numbers of a list of field elements.
pub open spec fn numbers(scalars: Seq<Scalar>) -> Seq<nat> {
    scalars.map_values(|scalar: Scalar| scalar@)
}

/// Whether private and public values meet the equations of their circuit. The
/// public values come in the order of the instance columns.
pub open spec fn satisfied(witness: WitnessView, instances: Seq<nat>) -> bool {
    let p = field::modulus();
    match witness {
        WitnessView::ScalarEquality { private_value } => {
            &&& instances.len() == 1
            &&& private_value == instances[0]
        },
        WitnessView::RelayAudit { consensus_value, guard_value, exit_value } => {
            &&& instances.len() == 3
            &&& guard_value == instances[1]
            &&& exit_value == instances[2]
            &&& (consensus_value + guard_value + exit_value) % p == instances[0]
        },
        WitnessView::LogIntegrity { previous_value, entry_value } => {
            &&& instances.len() == 2
            &&& (entry_value * instances[1] + previous_value) % p == instances[0]
        },
        WitnessView::Execution { input_value, output_value, telemetry_value } => {
            &&& instances.len() == 1
            &&& (input_value + output_value + telemetry_value) % p == instances[0]
        },
    }
}

/// A proof to make, and what its bundle will say.
#[derive(Debug)]
pub struct ProofTask {
    pub security: u32,
    /// The seed of the generator that the prover draws from.
    pub seed: u64,
    pub circuit: CircuitKind,
    pub witness: Witness,
    /// One public value for each instance column.
    pub instances: Vec<Scalar>,
    pub expected_hash: String,
    pub public_inputs: Vec<(String, JsonMember)>,
}

/// A proof to make, over views.
pub struct TaskView {
    pub security: u32,
    pub seed: u64,
    pub circuit: CircuitKind,
    pub witness: WitnessView,
    pub instances: Seq<nat>,
    pub expected_hash: Seq<char>,
    pub public_inputs: Map<Seq<char>, MemberView>,
}

impl View for ProofTask {
    type V = TaskView;

    open spec fn view(&self) -> TaskView {
        TaskView {
            security: self.security,
            seed: self.seed,
            circuit: self.circuit,
            witness: self.witness@,
            instances: numbers(self.instances@),
            expected_hash: self.expected_hash@,
            public_inputs: json::members(self.public_inputs@),
        }
    }
}

/// The seed of the generator that a prover draws from.
pub open spec fn seed_of(k: u32) -> u64 {
    PARAM_SEED ^ (k as u64)
}

/// Two security parameters never have one seed, and the parameter can be read
/// off its seed again.
pub proof fn seeds_are_apart(a: u32, b: u32)
    ensures
        seed_of(a) == seed_of(b) ==> a == b,
        seed_of(a) ^ 0x4252_5554 == a as u64,
{
    let x = a as u64;
    let y = b as u64;
    assert(0x4252_5554u64 ^ x == 0x4252_5554u64 ^ y ==> x == y) by (bit_vector);
    assert((0x4252_5554u64 ^ x) ^ 0x4252_5554u64 == x) by (bit_vector);
}

/// The seed of the generator that a prover draws from.
pub fn deterministic_seed(k: u32) -> (res: u64)
    ensures
        res == seed_of(k),
{
    PARAM_SEED ^ (k as u64)
}

/// The proof that a private digest is the expected one.
pub open spec fn digest_task(k: u32, private: Seq<u8>, expected: Seq<u8>) -> TaskView {
    TaskView {
        security: k,
        seed: seed_of(k),
        circuit: CircuitKind::ScalarEquality,
        witness: WitnessView::ScalarEquality { private_value: scalar_of(private) },
        instances: seq![scalar_of(expected)],
        expected_hash: digest_hash(normal_digest(expected)),
        public_inputs: Map::empty().insert(
            "expected_digest"@,
            MemberView::Text(encoding::hex_text(normal_digest(expected))),
        ),
    }
}

/// The proof that relay metadata match their commitment.
pub open spec fn relay_task(k: u32, consensus: Seq<u8>, guard_count: u32, exit_count: u32) -> TaskView {
    let commitment = scalar_bytes(relay_value(consensus, guard_count, exit_count));
    TaskView {
        security: k,
        seed: seed_of(k),
        circuit: CircuitKind::RelayAudit,
        witness: WitnessView::RelayAudit {
            consensus_value: scalar_of(consensus),
            guard_value: guard_count as nat,
            exit_value: exit_count as nat,
        },
        instances: seq![
            relay_value(consensus, guard_count, exit_count),
            guard_count as nat,
            exit_count as nat,
        ],
        expected_hash: digest_hash(commitment),
        public_inputs: Map::empty().insert(
            "guard_count"@,
            MemberView::Unsigned(guard_count as u64),
        ).insert("exit_count"@, MemberView::Unsigned(exit_count as u64)).insert(
            "commitment"@,
            MemberView::Text(encoding::hex_text(commitment)),
        ),
    }
}

/// The proof that a log entry is chained to the one before it.
pub open spec fn log_task(k: u32, previous: Seq<u8>, entry: Seq<u8>, sequence_number: u64) -> TaskView {
    let commitment = scalar_bytes(log_value(previous, entry, sequence_number));
    TaskView {
        security: k,
        seed: seed_of(k),
        circuit: CircuitKind::LogIntegrity,
        witness: WitnessView::LogIntegrity {
            previous_value: scalar_of(previous),
            entry_value: scalar_of(entry),
        },
        instances: seq![log_value(previous, entry, sequence_number), sequence_number as nat],
        expected_hash: digest_hash(commitment),
        public_inputs: Map::empty().insert(
            "sequence"@,
            MemberView::Unsigned(sequence_number),
        ).insert("commitment"@, MemberView::Text(encoding::hex_text(commitment))).insert(
            "previous_hash"@,
            MemberView::Text(encoding::hex_text(normal_digest(previous))),
        ).insert("entry_hash"@, MemberView::Text(encoding::hex_text(normal_digest(entry)))),
    }
}

/// The proof that an execution gave a result.
pub open spec fn execution_task(
    k: u32,
    input: Seq<u8>,
    output: Seq<u8>,
    telemetry: Seq<u8>,
) -> TaskView {
    let commitment = scalar_bytes(execution_value(input, output, telemetry));
    TaskView {
        security: k,
        seed: seed_of(k),
        circuit: CircuitKind::Execution,
        witness: WitnessView::Execution {
            input_value: scalar_of(input),
            output_value: scalar_of(output),
            telemetry_value: scalar_of(telemetry),
        },
        instances: seq![execution_value(input, output, telemetry)],
        expected_hash: digest_hash(commitment),
        public_inputs: Map::empty().insert(
            "commitment"@,
            MemberView::Text(encoding::hex_text(commitment)),
        ).insert("input_hash"@, MemberView::Text(encoding::hex_text(normal_digest(input)))).insert(
            "output_hash"@,
            MemberView::Text(encoding::hex_text(normal_digest(output))),
        ).insert(
            "telemetry_hash"@,
            MemberView::Text(encoding::hex_text(normal_digest(telemetry))),
        ),
    }
}

/// Deterministic Halo2 prover for supported circuits.
#[derive(Clone, Debug)]
pub struct ZkProver {
    k: u32,
}

impl Default for ZkProver {
    fn default() -> (res: Self)
        ensures
            res.security() == DEFAULT_ZK_SECURITY,
    {
        ZkProver { k: DEFAULT_ZK_SECURITY }
    }
}

impl ZkProver {
    /// The security parameter.
    pub closed spec fn security(self) -> u32 {
        self.k
    }

    /// Build a prover with the supplied security parameter (`k`).
    pub fn new(k: u32) -> (res: Self)
        ensures
            res.security() == k,
    {
        ZkProver { k }
    }

    /// State that the caller's private digest matches the expected digest.
    pub fn prove_digest_equality(&self, private_digest: &[u8], expected_digest: &[u8]) -> (res:
        ProofTask)
        ensures
            res@ == digest_task(self.security(), private_digest@, expected_digest@),
    {
        let expected = normalise_digest(expected_digest);
        let expected_hash = hash_expected_digest(expected.as_slice());
        let private_value = digest_scalar(private_digest);
        let expected_scalar = digest_scalar(expected_digest);
        let instances: Vec<Scalar> = vec![expected_scalar];
        let mut public_inputs: Vec<(String, JsonMember)> = Vec::new();
        json::push_text(
            &mut public_inputs,
            "expected_digest",
            encoding::hex_encode(expected.as_slice()),
        );
        assert(numbers(instances@) =~= seq![scalar_of(expected_digest@)]);
        ProofTask {
            security: self.k,
            seed: deterministic_seed(self.k),
            circuit: CircuitKind::ScalarEquality,
            witness: Witness::ScalarEquality { private_value },
            instances,
            expected_hash,
            public_inputs,
        }
    }

    /// State that Tor relay consensus metadata matches the published
    /// commitment.
    pub fn prove_relay_audit(&self, consensus_digest: &[u8], guard_count: u32, exit_count: u32) -> (res:
        ProofTask)
        ensures
            res@ == relay_task(self.security(), consensus_digest@, guard_count, exit_count),
    {
        let consensus_value = digest_scalar(consensus_digest);
        let guard_value = field::scalar_from_u64(guard_count as u64);
        let exit_value = field::scalar_from_u64(exit_count as u64);
        let expected_scalar = relay_scalar(consensus_digest, guard_count, exit_count);
        proof {
            field::le_bytes_of_value(expected_scalar.repr@);
        }
        let expected_hash = hash_expected_digest(&expected_scalar.repr);
        let instances: Vec<Scalar> = vec![expected_scalar, guard_value, exit_value];
        let mut public_inputs: Vec<(String, JsonMember)> = Vec::new();
        json::push_number(&mut public_inputs, "guard_count", guard_count as u64);
        json::push_number(&mut public_inputs, "exit_count", exit_count as u64);
        json::push_text(
            &mut public_inputs,
            "commitment",
            encoding::hex_encode(&expected_scalar.repr),
        );
        assert(numbers(instances@) =~= relay_task(
            self.security(),
            consensus_digest@,
            guard_count,
            exit_count,
        ).instances);
        ProofTask {
            security: self.k,
            seed: deterministic_seed(self.k),
            circuit: CircuitKind::RelayAudit,
            witness: Witness::RelayAudit { consensus_value, guard_value, exit_value },
            instances,
            expected_hash,
            public_inputs,
        }
    }

    /// State that audit log chaining preserves integrity up to the supplied
    /// sequence number.
    pub fn prove_log_chain_integrity(
        &self,
        previous_hash: &[u8],
        entry_hash: &[u8],
        sequence_number: u64,
    ) -> (res: ProofTask)
        ensures
            res@ == log_task(self.security(), previous_hash@, entry_hash@, sequence_number),
    {
        let previous = normalise_digest(previous_hash);
        let entry = normalise_digest(entry_hash);
        let previous_value = digest_scalar(previous_hash);
        let entry_value = digest_scalar(entry_hash);
        let sequence_scalar = field::scalar_from_u64(sequence_number);
        let expected_scalar = log_scalar(previous_hash, entry_hash, sequence_number);
        proof {
            field::le_bytes_of_value(expected_scalar.repr@);
        }
        let expected_hash = hash_expected_digest(&expected_scalar.repr);
        let instances: Vec<Scalar> = vec![expected_scalar, sequence_scalar];
        let mut public_inputs: Vec<(String, JsonMember)> = Vec::new();
        json::push_number(&mut public_inputs, "sequence", sequence_number);
        json::push_text(
            &mut public_inputs,
            "commitment",
            encoding::hex_encode(&expected_scalar.repr),
        );
        json::push_text(
            &mut public_inputs,
            "previous_hash",
            encoding::hex_encode(previous.as_slice()),
        );
        json::push_text(
            &mut public_inputs,
            "entry_hash",
            encoding::hex_encode(entry.as_slice()),
        );
        assert(numbers(instances@) =~= log_task(
            self.security(),
            previous_hash@,
            entry_hash@,
            sequence_number,
        ).instances);
        ProofTask {
            security: self.k,
            seed: deterministic_seed(self.k),
            circuit: CircuitKind::LogIntegrity,
            witness: Witness::LogIntegrity { previous_value, entry_value },
            instances,
            expected_hash,
            public_inputs,
        }
    }

    /// State that a remote execution produced the committed result/telemetry
    /// bundle.
    pub fn prove_execution_attestation(
        &self,
        input_hash: &[u8],
        output_hash: &[u8],
        telemetry_hash: &[u8],
    ) -> (res: ProofTask)
        ensures
            res@ == execution_task(self.security(), input_hash@, output_hash@, telemetry_hash@),
    {
        let input = normalise_digest(input_hash);
        let output = normalise_digest(output_hash);
        let telemetry = normalise_digest(telemetry_hash);
        let input_value = digest_scalar(input_hash);
        let output_value = digest_scalar(output_hash);
        let telemetry_value = digest_scalar(telemetry_hash);
        let expected_scalar = execution_scalar(input_hash, output_hash, telemetry_hash);
        proof {
            field::le_bytes_of_value(expected_scalar.repr@);
        }
        let expected_hash = hash_expected_digest(&expected_scalar.repr);
        let instances: Vec<Scalar> = vec![expected_scalar];
        let mut public_inputs: Vec<(String, JsonMember)> = Vec::new();
        json::push_text(
            &mut public_inputs,
            "commitment",
            encoding::hex_encode(&expected_scalar.repr),
        );
        json::push_text(
            &mut public_inputs,
            "input_hash",
            encoding::hex_encode(input.as_slice()),
        );
        json::push_text(
            &mut public_inputs,
            "output_hash",
            encoding::hex_encode(output.as_slice()),
        );
        json::push_text(
            &mut public_inputs,
            "telemetry_hash",
            encoding::hex_encode(telemetry.as_slice()),
        );
        assert(numbers(instances@) =~= execution_task(
            self.security(),
            input_hash@,
            output_hash@,
            telemetry_hash@,
        ).instances);
        ProofTask {
            security: self.k,
            seed: deterministic_seed(self.k),
            circuit: CircuitKind::Execution,
            witness: Witness::Execution { input_value, output_value, telemetry_value },
            instances,
            expected_hash,
            public_inputs,
        }
    }
}

/// The bundle that a finished proof goes into, by what the task said.
pub open spec fn bundled(task: TaskView) -> BundleView {
    BundleView {
        protocol: PROTOCOL_ID@,
        circuit: task.circuit.id_text(),
        circuit_security: task.security,
        expected_hash: task.expected_hash,
        public_inputs: Some(task.public_inputs),
    }
}

/// Whether a finished proof is in its bundle, or the reason why there is none
/// is reported.
pub open spec fn bundled_from(
    res: DbResult<ZkProofBundle>,
    task: TaskView,
    user_id: RecordId,
    made: Result<Vec<u8>, String>,
    created_at: Timestamp,
) -> bool {
    match made {
        Ok(bytes) => res matches Ok(bundle) && {
            &&& bundle@ == bundled(task)
            &&& bundle.user_id == user_id
            &&& bundle.proof_bytes() == bytes@
            &&& bundle.created_at == created_at
        },
        Err(problem) => res matches Err(error) && error@ == error::zero_knowledge(problem@),
    }
}

/// A bundle holds the proof itself with all that the task says of it, for the
/// user that it was made for, and follows the protocol. Without a proof there
/// is no bundle.
pub proof fn bundles_hold_their_proof(
    res: DbResult<ZkProofBundle>,
    task: TaskView,
    user_id: RecordId,
    made: Result<Vec<u8>, String>,
    created_at: Timestamp,
)
    requires
        bundled_from(res, task, user_id, made, created_at),
    ensures
        res is Ok <==> made is Ok,
        res matches Ok(bundle) ==> {
            &&& bundle.proof@ == made->Ok_0@
            &&& bundle.user_id == user_id
            &&& bundle.created_at == created_at
            &&& bundle.protocol@ == PROTOCOL_ID@
            &&& bundle.circuit@ == task.circuit.id_text()
            &&& bundle.circuit_security == task.security
            &&& bundle.expected_hash@ == task.expected_hash
            &&& bundle.public_inputs is Some
            &&& json::members(bundle.public_inputs->0@) == task.public_inputs
        },
        made matches Err(problem) ==> res matches Err(error) && error@ == error::zero_knowledge(
            problem@,
        ),
{
    if let Ok(bundle) = res {
        assert(bundle@.protocol == bundle.protocol@);
        assert(bundle@.circuit == bundle.circuit@);
        assert(bundle@.circuit_security == bundle.circuit_security);
        assert(bundle@.expected_hash == bundle.expected_hash@);
        assert(bundle@.public_inputs == json::member_map(bundle.public_inputs));
    }
}

/// Put a finished proof into its bundle, under an identifier drawn at random;
/// or report why the proof could not be made.
pub fn bundle_proof(
    task: ProofTask,
    user_id: RecordId,
    made: Result<Vec<u8>, String>,
    created_at: Timestamp,
) -> (res: DbResult<ZkProofBundle>)
    ensures
        bundled_from(res, task@, user_id, made, created_at),
{
    match made {
        Ok(bytes) => Ok(
            ZkProofBundle {
                proof_id: encoding::random_id(),
                user_id,
                protocol: PROTOCOL_ID.to_owned(),
                circuit: task.circuit.id().to_owned(),
                circuit_security: task.security,
                expected_hash: task.expected_hash,
                public_inputs: Some(task.public_inputs),
                proof: bytes,
                created_at,
            },
        ),
        Err(problem) => Err(zero_knowledge_error(problem.as_str())),
    }
}

/// Whether a bundle follows the protocol.
pub open spec fn protocol_check(bundle: BundleView) -> Result<(), error::ErrorView> {
    if bundle.protocol == PROTOCOL_ID@ {
        Ok(())
    } else {
        Err(
            error::zero_knowledge(
                "unsupported protocol '"@ + bundle.protocol + "': expected "@ + PROTOCOL_ID@,
            ),
        )
    }
}

/// Whether a bundle is about this circuit.
pub open spec fn circuit_check(bundle: BundleView, kind: CircuitKind) -> Result<
    (),
    error::ErrorView,
> {
    if bundle.circuit == kind.id_text() {
        Ok(())
    } else {
        Err(
            error::zero_knowledge(
                "unexpected circuit '"@ + bundle.circuit + "', expected "@ + kind.id_text(),
            ),
        )
    }
}

/// Whether a bundle was made for these bytes.
pub open spec fn hash_check(bundle: BundleView, expected: Seq<u8>) -> Result<(), error::ErrorView> {
    if bundle.expected_hash == digest_hash(expected) {
        Ok(())
    } else {
        Err(error::integrity("expected commitment does not match stored hash"@))
    }
}

/// The number among the public inputs, or what is said where it is missing.
pub open spec fn input_number(
    inputs: Map<Seq<char>, MemberView>,
    name: Seq<char>,
    missing: Seq<char>,
) -> Result<u64, error::ErrorView> {
    match json::member_of(inputs, name) {
        Some(MemberView::Unsigned(value)) => Ok(value),
        _ => Err(error::zero_knowledge(missing)),
    }
}

/// The text among the public inputs, or what is said where it is missing.
pub open spec fn input_text(
    inputs: Map<Seq<char>, MemberView>,
    name: Seq<char>,
    missing: Seq<char>,
) -> Result<Seq<char>, error::ErrorView> {
    match json::member_of(inputs, name) {
        Some(MemberView::Text(value)) => Ok(value),
        _ => Err(error::zero_knowledge(missing)),
    }
}

/// Whether the public inputs of a relay proof are those of the context.
pub open spec fn relay_inputs_check(
    inputs: Option<Map<Seq<char>, MemberView>>,
    guard_count: u32,
    exit_count: u32,
    expected: Seq<u8>,
) -> Result<(), error::ErrorView> {
    match inputs {
        None => Err(error::zero_knowledge("relay proof missing public inputs"@)),
        Some(inputs) => match input_number(
            inputs,
            "guard_count"@,
            "relay proof missing guard_count"@,
        ) {
            Err(error) => Err(error),
            Ok(guard) => match input_number(
                inputs,
                "exit_count"@,
                "relay proof missing exit_count"@,
            ) {
                Err(error) => Err(error),
                Ok(exit) => match input_text(
                    inputs,
                    "commitment"@,
                    "relay proof missing commitment"@,
                ) {
                    Err(error) => Err(error),
                    Ok(commitment) => if guard != guard_count || exit != exit_count {
                        Err(
                            error::integrity(
                                "relay proof public counts do not match verification context"@,
                            ),
                        )
                    } else if encoding::hex_text(expected) != commitment {
                        Err(error::integrity("relay proof commitment mismatch"@))
                    } else {
                        Ok(())
                    },
                },
            },
        },
    }
}

/// Whether the public inputs of a log proof are those of the context.
pub open spec fn log_inputs_check(
    inputs: Option<Map<Seq<char>, MemberView>>,
    sequence_number: u64,
    expected: Seq<u8>,
) -> Result<(), error::ErrorView> {
    match inputs {
        None => Err(error::zero_knowledge("log proof missing public inputs"@)),
        Some(inputs) => match input_number(inputs, "sequence"@, "log proof missing sequence"@) {
            Err(error) => Err(error),
            Ok(sequence) => match input_text(
                inputs,
                "commitment"@,
                "log proof missing commitment"@,
            ) {
                Err(error) => Err(error),
                Ok(commitment) => if sequence != sequence_number {
                    Err(
                        error::integrity(
                            "log proof sequence does not match verification context"@,
                        ),
                    )
                } else if encoding::hex_text(expected) != commitment {
                    Err(error::integrity("log proof commitment mismatch"@))
                } else {
                    Ok(())
                },
            },
        },
    }
}

/// Whether the public inputs of an execution proof are those of the context.
pub open spec fn execution_inputs_check(
    inputs: Option<Map<Seq<char>, MemberView>>,
    expected: Seq<u8>,
) -> Result<(), error::ErrorView> {
    match inputs {
        None => Err(error::zero_knowledge("execution proof missing public inputs"@)),
        Some(inputs) => match input_text(
            inputs,
            "commitment"@,
            "execution proof missing commitment"@,
        ) {
            Err(error) => Err(error),
            Ok(commitment) => if encoding::hex_text(expected) != commitment {
                Err(error::integrity("execution proof commitment mismatch"@))
            } else {
                Ok(())
            },
        },
    }
}

/// Whether a bundle was made for this digest, in any length.
pub open spec fn scalar_check(bundle: BundleView, digest: Seq<u8>) -> Result<(), error::ErrorView> {
    if bundle.protocol != PROTOCOL_ID@ || bundle.circuit
        != CircuitKind::ScalarEquality.id_text() {
        Err(error::zero_knowledge("unsupported proof bundle"@))
    } else if bundle.expected_hash != digest_hash(normal_digest(digest)) {
        Err(error::integrity("expected digest does not match stored commitment"@))
    } else {
        Ok(())
    }
}

/// The circuit of a bundle and the bytes that it has to be made for.
pub open spec fn circuit_and_hash(bundle: BundleView, kind: CircuitKind, expected: Seq<u8>) -> Result<
    (),
    error::ErrorView,
> {
    match circuit_check(bundle, kind) {
        Err(error) => Err(error),
        Ok(()) => hash_check(bundle, expected),
    }
}

/// Whether what a bundle says fits a context: the circuit to verify its proof
/// with, or the first thing that does not fit.
pub open spec fn bundle_check(bundle: BundleView, context: ContextView) -> Result<
    CircuitKind,
    error::ErrorView,
> {
    match protocol_check(bundle) {
        Err(error) => Err(error),
        Ok(()) => match context {
            ContextView::ScalarDigest { expected_digest } => match circuit_and_hash(
                bundle,
                CircuitKind::ScalarEquality,
                expected_digest,
            ) {
                Err(error) => Err(error),
                Ok(()) => match scalar_check(bundle, expected_digest) {
                    Err(error) => Err(error),
                    Ok(()) => Ok(CircuitKind::ScalarEquality),
                },
            },
            ContextView::RelayAudit { expected_commitment, guard_count, exit_count } =>
                match circuit_and_hash(bundle, CircuitKind::RelayAudit, expected_commitment) {
                Err(error) => Err(error),
                Ok(()) => match relay_inputs_check(
                    bundle.public_inputs,
                    guard_count,
                    exit_count,
                    expected_commitment,
                ) {
                    Err(error) => Err(error),
                    Ok(()) => Ok(CircuitKind::RelayAudit),
                },
            },
            ContextView::LogIntegrity { expected_commitment, sequence_number } =>
                match circuit_and_hash(bundle, CircuitKind::LogIntegrity, expected_commitment) {
                Err(error) => Err(error),
                Ok(()) => match log_inputs_check(
                    bundle.public_inputs,
                    sequence_number,
                    expected_commitment,
                ) {
                    Err(error) => Err(error),
                    Ok(()) => Ok(CircuitKind::LogIntegrity),
                },
            },
            ContextView::Execution { expected_commitment } => match circuit_and_hash(
                bundle,
                CircuitKind::Execution,
                expected_commitment,
            ) {
                Err(error) => Err(error),
                Ok(()) => match execution_inputs_check(bundle.public_inputs, expected_commitment) {
                    Err(error) => Err(error),
                    Ok(()) => Ok(CircuitKind::Execution),
                },
            },
        },
    }
}

/// The public values that a proof is held against in a context.
pub open spec fn instances_of(context: ContextView) -> Result<Seq<nat>, error::ErrorView> {
    match context {
        ContextView::ScalarDigest { expected_digest } => Ok(seq![scalar_of(expected_digest)]),
        ContextView::RelayAudit { expected_commitment, guard_count, exit_count } => match committed(
            expected_commitment,
        ) {
            Err(error) => Err(error),
            Ok(value) => Ok(seq![value, guard_count as nat, exit_count as nat]),
        },
        ContextView::LogIntegrity { expected_commitment, sequence_number } => match committed(
            expected_commitment,
        ) {
            Err(error) => Err(error),
            Ok(value) => Ok(seq![value, sequence_number as nat]),
        },
        ContextView::Execution { expected_commitment } => match committed(expected_commitment) {
            Err(error) => Err(error),
            Ok(value) => Ok(seq![value]),
        },
    }
}

/// Whether the proof of a bundle is worth verifying in a context: the bundle
/// fits, and what the context expects can be put as public values. The circuit
/// to verify it with, or the first thing that does not fit.
pub open spec fn proof_check(bundle: BundleView, context: ContextView) -> Result<
    CircuitKind,
    error::ErrorView,
> {
    match bundle_check(bundle, context) {
        Err(error) => Err(error),
        Ok(kind) => match instances_of(context) {
            Err(error) => Err(error),
            Ok(_) => Ok(kind),
        },
    }
}

/// A result without a value, over views.
pub open spec fn checked(res: DbResult<()>) -> Result<(), error::ErrorView> {
    match res {
        Ok(()) => Ok(()),
        Err(error) => Err(error@),
    }
}

fn ensure_protocol(bundle: &ZkProofBundle) -> (res: DbResult<()>)
    ensures
        checked(res) == protocol_check(bundle@),
{
    if text::equal(bundle.protocol.as_str(), PROTOCOL_ID) {
        Ok(())
    } else {
        let message = text::concat3(
            "unsupported protocol '",
            bundle.protocol.as_str(),
            "': expected ",
        ).concat(PROTOCOL_ID);
        Err(zero_knowledge_error(message.as_str()))
    }
}

fn ensure_circuit(bundle: &ZkProofBundle, kind: CircuitKind) -> (res: DbResult<()>)
    ensures
        checked(res) == circuit_check(bundle@, kind),
{
    if text::equal(bundle.circuit.as_str(), kind.id()) {
        Ok(())
    } else {
        let message = text::concat3(
            "unexpected circuit '",
            bundle.circuit.as_str(),
            "', expected ",
        ).concat(kind.id());
        Err(zero_knowledge_error(message.as_str()))
    }
}

fn ensure_expected_hash(bundle: &ZkProofBundle, expected_bytes: &[u8]) -> (res: DbResult<()>)
    ensures
        checked(res) == hash_check(bundle@, expected_bytes@),
{
    let expected_hash = hash_expected_digest(expected_bytes);
    if text::equal(bundle.expected_hash.as_str(), expected_hash.as_str()) {
        Ok(())
    } else {
        Err(integrity_error("expected commitment does not match stored hash"))
    }
}

fn number_among(inputs: &Vec<(String, JsonMember)>, name: &str, missing: &str) -> (res: DbResult<
    u64,
>)
    ensures
        error::outcome(res) == input_number(json::members(inputs@), name@, missing@),
{
    match json::find_member(inputs, name) {
        Some(JsonMember::Unsigned(value)) => Ok(*value),
        _ => Err(zero_knowledge_error(missing)),
    }
}

fn text_among<'a>(inputs: &'a Vec<(String, JsonMember)>, name: &str, missing: &str) -> (res:
    DbResult<&'a String>)
    ensures
        match res {
            Ok(value) => input_text(json::members(inputs@), name@, missing@) == Ok::<
                _,
                error::ErrorView,
            >(value@),
            Err(error) => input_text(json::members(inputs@), name@, missing@) == Err::<
                Seq<char>,
                _,
            >(error@),
        },
{
    match json::find_member(inputs, name) {
        Some(JsonMember::Text(value)) => Ok(value),
        _ => Err(zero_knowledge_error(missing)),
    }
}

fn ensure_relay_inputs(
    inputs: &Option<Vec<(String, JsonMember)>>,
    guard_count: u32,
    exit_count: u32,
    expected_commitment: &[u8],
) -> (res: DbResult<()>)
    ensures
        checked(res) == relay_inputs_check(
            json::member_map(*inputs),
            guard_count,
            exit_count,
            expected_commitment@,
        ),
{
    let inputs = match inputs {
        Some(inputs) => inputs,
        None => return Err(zero_knowledge_error("relay proof missing public inputs")),
    };
    let guard: u64 = match number_among(inputs, "guard_count", "relay proof missing guard_count") {
        Ok(guard) => guard,
        Err(error) => return Err(error),
    };
    let exit: u64 = match number_among(inputs, "exit_count", "relay proof missing exit_count") {
        Ok(exit) => exit,
        Err(error) => return Err(error),
    };
    let commitment_hex = match text_among(
        inputs,
        "commitment",
        "relay proof missing commitment",
    ) {
        Ok(commitment) => commitment,
        Err(error) => return Err(error),
    };
    if guard != guard_count as u64 || exit != exit_count as u64 {
        return Err(
            integrity_error("relay proof public counts do not match verification context"),
        );
    }
    let expected = encoding::hex_encode(expected_commitment);
    if !text::equal(expected.as_str(), commitment_hex.as_str()) {
        return Err(integrity_error("relay proof commitment mismatch"));
    }
    Ok(())
}

fn ensure_log_inputs(
    inputs: &Option<Vec<(String, JsonMember)>>,
    sequence_number: u64,
    expected_commitment: &[u8],
) -> (res: DbResult<()>)
    ensures
        checked(res) == log_inputs_check(
            json::member_map(*inputs),
            sequence_number,
            expected_commitment@,
        ),
{
    let inputs = match inputs {
        Some(inputs) => inputs,
        None => return Err(zero_knowledge_error("log proof missing public inputs")),
    };
    let sequence: u64 = match number_among(inputs, "sequence", "log proof missing sequence") {
        Ok(sequence) => sequence,
        Err(error) => return Err(error),
    };
    let commitment_hex = match text_among(inputs, "commitment", "log proof missing commitment") {
        Ok(commitment) => commitment,
        Err(error) => return Err(error),
    };
    if sequence != sequence_number {
        return Err(integrity_error("log proof sequence does not match verification context"));
    }
    let expected = encoding::hex_encode(expected_commitment);
    if !text::equal(expected.as_str(), commitment_hex.as_str()) {
        return Err(integrity_error("log proof commitment mismatch"));
    }
    Ok(())
}

fn ensure_execution_inputs(
    inputs: &Option<Vec<(String, JsonMember)>>,
    expected_commitment: &[u8],
) -> (res: DbResult<()>)
    ensures
        checked(res) == execution_inputs_check(json::member_map(*inputs), expected_commitment@),
{
    let inputs = match inputs {
        Some(inputs) => inputs,
        None => return Err(zero_knowledge_error("execution proof missing public inputs")),
    };
    let commitment_hex = match text_among(
        inputs,
        "commitment",
        "execution proof missing commitment",
    ) {
        Ok(commitment) => commitment,
        Err(error) => return Err(error),
    };
    let expected = encoding::hex_encode(expected_commitment);
    if !text::equal(expected.as_str(), commitment_hex.as_str()) {
        return Err(integrity_error("execution proof commitment mismatch"));
    }
    Ok(())
}

/// Check a stored equality proof against the supplied expected digest, before
/// its verification.
pub fn verify_scalar_equality(bundle: &ZkProofBundle, expected_digest: &[u8]) -> (res: DbResult<()>)
    ensures
        checked(res) == scalar_check(bundle@, expected_digest@),
{
    if !text::equal(bundle.protocol.as_str(), PROTOCOL_ID) || !text::equal(
        bundle.circuit.as_str(),
        CircuitKind::ScalarEquality.id(),
    ) {
        return Err(zero_knowledge_error("unsupported proof bundle"));
    }
    let expected = normalise_digest(expected_digest);
    let expected_hash = hash_expected_digest(expected.as_slice());
    if !text::equal(bundle.expected_hash.as_str(), expected_hash.as_str()) {
        return Err(integrity_error("expected digest does not match stored commitment"));
    }
    Ok(())
}

fn ensure_circuit_and_hash(bundle: &ZkProofBundle, kind: CircuitKind, expected: &[u8]) -> (res:
    DbResult<()>)
    ensures
        checked(res) == circuit_and_hash(bundle@, kind, expected@),
{
    match ensure_circuit(bundle, kind) {
        Ok(()) => ensure_expected_hash(bundle, expected),
        Err(error) => Err(error),
    }
}

/// Check a stored proof against the supplied context, before its
/// verification, and say which circuit to verify it with.
pub fn verify_proof(bundle: &ZkProofBundle, context: &ZkVerificationContext) -> (res: DbResult<
    CircuitKind,
>)
    ensures
        match res {
            Ok(kind) => proof_check(bundle@, context@) == Ok::<_, error::ErrorView>(kind),
            Err(error) => proof_check(bundle@, context@) == Err::<CircuitKind, _>(error@),
        },
{
    match prepare_verification(bundle, context) {
        Ok((kind, _)) => Ok(kind),
        Err(error) => Err(error),
    }
}

/// Check a stored proof against the supplied context, and say which circuit
/// and which public values to verify it with.
pub fn prepare_verification(bundle: &ZkProofBundle, context: &ZkVerificationContext) -> (res:
    DbResult<(CircuitKind, Vec<Scalar>)>)
    ensures
        match res {
            Ok((kind, instances)) => {
                &&& proof_check(bundle@, context@) == Ok::<_, error::ErrorView>(kind)
                &&& instances_of(context@) == Ok::<_, error::ErrorView>(numbers(instances@))
            },
            Err(error) => proof_check(bundle@, context@) == Err::<CircuitKind, _>(error@),
        },
{
    let kind = match check_bundle(bundle, context) {
        Ok(kind) => kind,
        Err(error) => return Err(error),
    };
    match expected_instances(context) {
        Ok(instances) => Ok((kind, instances)),
        Err(error) => Err(error),
    }
}

fn check_bundle(bundle: &ZkProofBundle, context: &ZkVerificationContext) -> (res: DbResult<
    CircuitKind,
>)
    ensures
        match res {
            Ok(kind) => bundle_check(bundle@, context@) == Ok::<_, error::ErrorView>(kind),
            Err(error) => bundle_check(bundle@, context@) == Err::<CircuitKind, _>(error@),
        },
{
    match ensure_protocol(bundle) {
        Ok(()) => {},
        Err(error) => return Err(error),
    }
    match context {
        ZkVerificationContext::ScalarDigest { expected_digest } => {
            let digest = expected_digest.as_slice();
            match ensure_circuit_and_hash(bundle, CircuitKind::ScalarEquality, digest) {
                Ok(()) => {},
                Err(error) => return Err(error),
            }
            match verify_scalar_equality(bundle, digest) {
                Ok(()) => Ok(CircuitKind::ScalarEquality),
                Err(error) => Err(error),
            }
        },
        ZkVerificationContext::RelayAudit { expected_commitment, guard_count, exit_count } => {
            let commitment = expected_commitment.as_slice();
            match ensure_circuit_and_hash(bundle, CircuitKind::RelayAudit, commitment) {
                Ok(()) => {},
                Err(error) => return Err(error),
            }
            match ensure_relay_inputs(
                &bundle.public_inputs,
                *guard_count,
                *exit_count,
                commitment,
            ) {
                Ok(()) => Ok(CircuitKind::RelayAudit),
                Err(error) => Err(error),
            }
        },
        ZkVerificationContext::LogIntegrity { expected_commitment, sequence_number } => {
            let commitment = expected_commitment.as_slice();
            match ensure_circuit_and_hash(bundle, CircuitKind::LogIntegrity, commitment) {
                Ok(()) => {},
                Err(error) => return Err(error),
            }
            match ensure_log_inputs(&bundle.public_inputs, *sequence_number, commitment) {
                Ok(()) => Ok(CircuitKind::LogIntegrity),
                Err(error) => Err(error),
            }
        },
        ZkVerificationContext::Execution { expected_commitment } => {
            let commitment = expected_commitment.as_slice();
            match ensure_circuit_and_hash(bundle, CircuitKind::Execution, commitment) {
                Ok(()) => {},
                Err(error) => return Err(error),
            }
            match ensure_execution_inputs(&bundle.public_inputs, commitment) {
                Ok(()) => Ok(CircuitKind::Execution),
                Err(error) => Err(error),
            }
        },
    }
}

/// What a list of public values, or the lack of one, holds.
pub open spec fn instances_view(res: DbResult<Vec<Scalar>>) -> Result<Seq<nat>, error::ErrorView> {
    match res {
        Ok(instances) => Ok(numbers(instances@)),
        Err(error) => Err(error@),
    }
}

/// The public values that a proof is held against in a context, one for each
/// instance column.
pub fn expected_instances(context: &ZkVerificationContext) -> (res: DbResult<Vec<Scalar>>)
    ensures
        instances_view(res) == instances_of(context@),
{
    match context {
        ZkVerificationContext::ScalarDigest { expected_digest } => {
            let instances: Vec<Scalar> = vec![digest_scalar(expected_digest.as_slice())];
            assert(numbers(instances@) =~= seq![scalar_of(expected_digest@)]);
            Ok(instances)
        },
        ZkVerificationContext::RelayAudit { expected_commitment, guard_count, exit_count } =>
            match scalar_from_bytes(expected_commitment.as_slice()) {
            Ok(expected) => {
                let guard = field::scalar_from_u64(*guard_count as u64);
                let exit = field::scalar_from_u64(*exit_count as u64);
                let instances: Vec<Scalar> = vec![expected, guard, exit];
                assert(numbers(instances@) =~= seq![
                    expected@,
                    *guard_count as nat,
                    *exit_count as nat,
                ]);
                Ok(instances)
            },
            Err(error) => Err(error),
        },
        ZkVerificationContext::LogIntegrity { expected_commitment, sequence_number } =>
            match scalar_from_bytes(expected_commitment.as_slice()) {
            Ok(expected) => {
                let sequence = field::scalar_from_u64(*sequence_number);
                let instances: Vec<Scalar> = vec![expected, sequence];
                assert(numbers(instances@) =~= seq![expected@, *sequence_number as nat]);
                Ok(instances)
            },
            Err(error) => Err(error),
        },
        ZkVerificationContext::Execution { expected_commitment } => match scalar_from_bytes(
            expected_commitment.as_slice(),
        ) {
            Ok(expected) => {
                let instances: Vec<Scalar> = vec![expected];
                assert(numbers(instances@) =~= seq![expected@]);
                Ok(instances)
            },
            Err(error) => Err(error),
        },
    }
}

/// The failure of a proof system.
pub fn proof_failure(problem: &str) -> (res: DatabaseError)
    ensures
        res@ == error::zero_knowledge(problem@),
{
    zero_knowledge_error(problem)
}

/// A proof as its table holds it.
#[derive(Debug)]
pub struct StoredProofRow {
    pub protocol: String,
    pub circuit: String,
    pub circuit_security: i16,
    pub expected_hash: String,
    pub public_inputs: Option<Vec<(String, JsonMember)>>,
    pub proof: Vec<u8>,
    pub verified: bool,
}

/// What the verification of a stored proof has to do.
#[derive(Debug)]
pub enum StoredProof {
    /// Nothing: it is already verified.
    Verified,
    /// Verify this bundle.
    Pending(ZkProofBundle),
}

/// The security parameter as a column holds it.
pub fn stored_security(k: u32) -> (res: i16)
    ensures
        res == k as i16,
{
    #[verifier::truncate]
    (k as i16)
}

/// A security parameter below 2^15 is stored without loss.
pub proof fn security_is_stored_without_loss(k: u32)
    requires
        k < 0x8000,
    ensures
        (k as i16) as u32 == k,
{
    assert((k as i16) as u32 == k) by (bit_vector)
        requires
            k < 0x8000,
    ;
}

/// Whether a bundle is the stored proof that a verification asks for.
pub open spec fn loaded_from(
    bundle: ZkProofBundle,
    row: StoredProofRow,
    verification: ZkProofVerification,
    now: Timestamp,
) -> bool {
    &&& bundle.proof_id == verification.proof_id
    &&& bundle.user_id == verification.user_id
    &&& bundle@ == (BundleView {
        protocol: row.protocol@,
        circuit: row.circuit@,
        circuit_security: row.circuit_security as u32,
        expected_hash: row.expected_hash@,
        public_inputs: json::member_map(row.public_inputs),
    })
    &&& bundle.proof_bytes() == row.proof_bytes()
    &&& bundle.created_at == now
}

/// A proof that is stored and loaded again is the same in all that its
/// verification reads: whatever fits a context before, fits it after. This
/// holds of security parameters below 2^15.
pub proof fn stored_proofs_are_loaded_as_they_were(
    bundle: ZkProofBundle,
    row: StoredProofRow,
    verification: ZkProofVerification,
    now: Timestamp,
    loaded: ZkProofBundle,
    context: ContextView,
)
    requires
        row.protocol@ == bundle.protocol@,
        row.circuit@ == bundle.circuit@,
        row.circuit_security == bundle.circuit_security as i16,
        bundle.circuit_security < 0x8000,
        row.expected_hash@ == bundle.expected_hash@,
        row.public_inputs == bundle.public_inputs,
        row.proof@ == bundle.proof@,
        loaded_from(loaded, row, verification, now),
    ensures
        loaded.protocol@ == bundle.protocol@,
        loaded.circuit@ == bundle.circuit@,
        loaded.circuit_security == bundle.circuit_security,
        loaded.expected_hash@ == bundle.expected_hash@,
        json::member_map(loaded.public_inputs) == json::member_map(bundle.public_inputs),
        loaded.proof@ == bundle.proof@,
        loaded.proof_id == verification.proof_id,
        loaded.user_id == verification.user_id,
        loaded.created_at == now,
        proof_check(loaded@, context) == proof_check(bundle@, context),
{
    security_is_stored_without_loss(bundle.circuit_security);
    assert(loaded@.circuit_security == loaded.circuit_security);
    assert(loaded@.protocol == loaded.protocol@);
    assert(loaded@.circuit == loaded.circuit@);
    assert(loaded@.expected_hash == loaded.expected_hash@);
    assert(loaded@.public_inputs == json::member_map(loaded.public_inputs));
    assert(loaded@ == bundle@);
}

/// Whether this is what the verification of a stored proof has to do.
pub open spec fn stored_outcome(
    res: DbResult<StoredProof>,
    row: Option<StoredProofRow>,
    verification: ZkProofVerification,
    now: Timestamp,
) -> bool {
    match row {
        None => res matches Err(error) && error@ == (error::ErrorView {
            kind: error::ErrorKind::Query,
            text: "proof not found"@,
        }),
        Some(row) => if row.verified {
            res matches Ok(StoredProof::Verified)
        } else {
            res matches Ok(StoredProof::Pending(bundle)) && loaded_from(
                bundle,
                row,
                verification,
                now,
            )
        },
    }
}

/// A proof is verified once: a row that says so needs nothing more, every other
/// row is handed on with its proof, and a row that is not there is an error.
pub proof fn stored_proofs_are_verified_once(
    res: DbResult<StoredProof>,
    row: Option<StoredProofRow>,
    verification: ZkProofVerification,
    now: Timestamp,
)
    requires
        stored_outcome(res, row, verification, now),
    ensures
        res is Err <==> row is None,
        res == Ok::<_, DatabaseError>(StoredProof::Verified) <==> row is Some && row->0.verified,
        res matches Ok(StoredProof::Pending(bundle)) ==> {
            &&& bundle.proof@ == row->0.proof@
            &&& bundle.proof_id == verification.proof_id
            &&& bundle.user_id == verification.user_id
        },
{
}

/// Decide what the verification of a stored proof has to do.
pub fn load_stored_proof(
    row: Option<StoredProofRow>,
    verification: &ZkProofVerification,
    now: Timestamp,
) -> (res: DbResult<StoredProof>)
    ensures
        stored_outcome(res, row, *verification, now),
{
    let row = match row {
        Some(row) => row,
        None => return Err(DatabaseError::Query("proof not found".to_owned())),
    };
    if row.verified {
        return Ok(StoredProof::Verified);
    }
    Ok(
        StoredProof::Pending(
            ZkProofBundle {
                proof_id: verification.proof_id,
                user_id: verification.user_id,
                protocol: row.protocol,
                circuit: row.circuit,
                circuit_security: (#[verifier::truncate]
                (row.circuit_security as u32)),
                expected_hash: row.expected_hash,
                public_inputs: row.public_inputs,
                proof: row.proof,
                created_at: now,
            },
        ),
    )
}

impl StoredProofRow {
    /// The bytes of the proof.
    pub open spec fn proof_bytes(self) -> Seq<u8> {
        self.proof@
    }
}

/// The proof of a digest holds exactly where the two digests stand for the
/// same field element.
pub proof fn digest_statement_holds_for_equal_digests(k: u32, private: Seq<u8>, expected: Seq<u8>)
    ensures
        satisfied(
            digest_task(k, private, expected).witness,
            digest_task(k, private, expected).instances,
        ) <==> scalar_of(private) == scalar_of(expected),
        private == expected ==> satisfied(
            digest_task(k, private, expected).witness,
            digest_task(k, private, expected).instances,
        ),
{
}

/// The values of a relay audit meet the equations of its circuit.
pub proof fn relay_statement_holds(
    k: u32,
    consensus: Seq<u8>,
    guard_count: u32,
    exit_count: u32,
)
    ensures
        satisfied(
            relay_task(k, consensus, guard_count, exit_count).witness,
            relay_task(k, consensus, guard_count, exit_count).instances,
        ),
{
}

/// The values of a chained log entry meet the equation of its circuit.
pub proof fn log_statement_holds(k: u32, previous: Seq<u8>, entry: Seq<u8>, sequence_number: u64)
    ensures
        satisfied(
            log_task(k, previous, entry, sequence_number).witness,
            log_task(k, previous, entry, sequence_number).instances,
        ),
{
}

/// The values of an execution meet the equation of its circuit.
pub proof fn execution_statement_holds(
    k: u32,
    input: Seq<u8>,
    output: Seq<u8>,
    telemetry: Seq<u8>,
)
    ensures
        satisfied(
            execution_task(k, input, output, telemetry).witness,
            execution_task(k, input, output, telemetry).instances,
        ),
{
}

/// The bundle of a digest proof is let through to verification for that
/// digest, against the public value that it was made with. This holds of
/// digests of thirty-two bytes.
pub proof fn digest_bundle_is_let_through(k: u32, private: Seq<u8>, expected: Seq<u8>)
    requires
        expected.len() == 32,
    ensures
        proof_check(
            bundled(digest_task(k, private, expected)),
            ContextView::ScalarDigest { expected_digest: expected },
        ) == Ok::<_, error::ErrorView>(CircuitKind::ScalarEquality),
        instances_of(ContextView::ScalarDigest { expected_digest: expected }) == Ok::<
            _,
            error::ErrorView,
        >(digest_task(k, private, expected).instances),
{
}

proof fn lemma_input_names()
    ensures
        "guard_count"@ != "exit_count"@,
        "guard_count"@ != "commitment"@,
        "exit_count"@ != "commitment"@,
        "sequence"@ != "commitment"@,
        "previous_hash"@ != "commitment"@,
        "previous_hash"@ != "sequence"@,
        "entry_hash"@ != "commitment"@,
        "entry_hash"@ != "sequence"@,
        "input_hash"@ != "commitment"@,
        "output_hash"@ != "commitment"@,
        "telemetry_hash"@ != "commitment"@,
{
    reveal_strlit("guard_count");
    reveal_strlit("exit_count");
    reveal_strlit("commitment");
    reveal_strlit("sequence");
    reveal_strlit("previous_hash");
    reveal_strlit("entry_hash");
    reveal_strlit("input_hash");
    reveal_strlit("output_hash");
    reveal_strlit("telemetry_hash");
    assert("sequence"@.len() == 8 && "previous_hash"@.len() == 13 && "output_hash"@.len() == 11);
    assert("guard_count"@.len() == 11 && "telemetry_hash"@.len() == 14);
    assert("exit_count"@.len() == 10 && "commitment"@.len() == 10);
    assert("entry_hash"@.len() == 10 && "input_hash"@.len() == 10);
    assert("commitment"@[0] == 'c');
    assert("exit_count"@[0] == 'e');
    assert("entry_hash"@[0] == 'e');
    assert("input_hash"@[0] == 'i');
}

/// The bundle of a relay audit is let through to verification for its
/// commitment and its counts, against the public values that it was made with.
pub proof fn relay_bundle_is_let_through(
    k: u32,
    consensus: Seq<u8>,
    guard_count: u32,
    exit_count: u32,
)
    ensures
        ({
            let task = relay_task(k, consensus, guard_count, exit_count);
            let context = ContextView::RelayAudit {
                expected_commitment: scalar_bytes(relay_value(consensus, guard_count, exit_count)),
                guard_count,
                exit_count,
            };
            &&& proof_check(bundled(task), context) == Ok::<_, error::ErrorView>(
                CircuitKind::RelayAudit,
            )
            &&& instances_of(context) == Ok::<_, error::ErrorView>(task.instances)
        }),
{
    lemma_input_names();
    field::elements_fit(relay_value(consensus, guard_count, exit_count));
}

/// The bundle of a chained log entry is let through to verification for its
/// commitment and its number, against the public values that it was made with.
pub proof fn log_bundle_is_let_through(
    k: u32,
    previous: Seq<u8>,
    entry: Seq<u8>,
    sequence_number: u64,
)
    ensures
        ({
            let task = log_task(k, previous, entry, sequence_number);
            let context = ContextView::LogIntegrity {
                expected_commitment: scalar_bytes(log_value(previous, entry, sequence_number)),
                sequence_number,
            };
            &&& proof_check(bundled(task), context) == Ok::<_, error::ErrorView>(
                CircuitKind::LogIntegrity,
            )
            &&& instances_of(context) == Ok::<_, error::ErrorView>(task.instances)
        }),
{
    lemma_input_names();
    field::elements_fit(log_value(previous, entry, sequence_number));
}

/// The bundle of an execution is let through to verification for its
/// commitment, against the public value that it was made with.
pub proof fn execution_bundle_is_let_through(
    k: u32,
    input: Seq<u8>,
    output: Seq<u8>,
    telemetry: Seq<u8>,
)
    ensures
        ({
            let task = execution_task(k, input, output, telemetry);
            let context = ContextView::Execution {
                expected_commitment: scalar_bytes(execution_value(input, output, telemetry)),
            };
            &&& proof_check(bundled(task), context) == Ok::<_, error::ErrorView>(
                CircuitKind::Execution,
            )
            &&& instances_of(context) == Ok::<_, error::ErrorView>(task.instances)
        }),
{
    lemma_input_names();
    field::elements_fit(execution_value(input, output, telemetry));
}

/// The circuit that the proofs of a context are made with.
pub open spec fn circuit_of(context: ContextView) -> CircuitKind {
    match context {
        ContextView::ScalarDigest { .. } => CircuitKind::ScalarEquality,
        ContextView::RelayAudit { .. } => CircuitKind::RelayAudit,
        ContextView::LogIntegrity { .. } => CircuitKind::LogIntegrity,
        ContextView::Execution { .. } => CircuitKind::Execution,
    }
}

/// The bytes that a proof has to be made for in a context.
pub open spec fn expected_bytes(context: ContextView) -> Seq<u8> {
    match context {
        ContextView::ScalarDigest { expected_digest } => expected_digest,
        ContextView::RelayAudit { expected_commitment, .. } => expected_commitment,
        ContextView::LogIntegrity { expected_commitment, .. } => expected_commitment,
        ContextView::Execution { expected_commitment } => expected_commitment,
    }
}

/// A bundle is let through only where everything that it says is what the
/// context expects: protocol, circuit, hash and public inputs. A commitment
/// has thirty-two bytes and encodes an element of the field.
pub proof fn bundles_are_held_to_their_context(bundle: BundleView, context: ContextView)
    requires
        proof_check(bundle, context) is Ok,
    ensures
        proof_check(bundle, context) == Ok::<_, error::ErrorView>(circuit_of(context)),
        bundle.protocol == PROTOCOL_ID@,
        bundle.circuit == circuit_of(context).id_text(),
        bundle.expected_hash == digest_hash(expected_bytes(context)),
        instances_of(context) is Ok,
        !(context is ScalarDigest) ==> {
            &&& expected_bytes(context).len() == 32
            &&& committed(expected_bytes(context)) is Ok
            &&& bundle.public_inputs is Some
            &&& json::member_of(bundle.public_inputs->0, "commitment"@) == Some(
                MemberView::Text(encoding::hex_text(expected_bytes(context))),
            )
        },
        context matches ContextView::RelayAudit { guard_count, exit_count, .. } ==> {
            &&& json::member_of(bundle.public_inputs->0, "guard_count"@) == Some(
                MemberView::Unsigned(guard_count as u64),
            )
            &&& json::member_of(bundle.public_inputs->0, "exit_count"@) == Some(
                MemberView::Unsigned(exit_count as u64),
            )
        },
        context matches ContextView::LogIntegrity { sequence_number, .. } ==> json::member_of(
            bundle.public_inputs->0,
            "sequence"@,
        ) == Some(MemberView::Unsigned(sequence_number)),
{
}

/// A bundle is let through in one context at most. Of digests this holds as far
/// as they have different hashes.
pub proof fn a_bundle_fits_one_context(
    bundle: BundleView,
    context1: ContextView,
    context2: ContextView,
)
    requires
        proof_check(bundle, context1) is Ok,
        proof_check(bundle, context2) is Ok,
    ensures
        circuit_of(context1) == circuit_of(context2),
        crypto::sha256(expected_bytes(context1)) == crypto::sha256(expected_bytes(context2)),
        !(context1 is ScalarDigest) ==> context1 == context2,
{
    bundles_are_held_to_their_context(bundle, context1);
    bundles_are_held_to_their_context(bundle, context2);
    reveal_strlit("scalar_equality");
    reveal_strlit("relay_audit_v1");
    reveal_strlit("log_chain_integrity_v1");
    reveal_strlit("execution_attestation_v1");
    assert("scalar_equality"@.len() == 15 && "relay_audit_v1"@.len() == 14);
    assert("log_chain_integrity_v1"@.len() == 22 && "execution_attestation_v1"@.len() == 24);
    encoding::hex_round_trip(crypto::sha256(expected_bytes(context1)));
    encoding::hex_round_trip(crypto::sha256(expected_bytes(context2)));
    encoding::hex_round_trip(expected_bytes(context1));
    encoding::hex_round_trip(expected_bytes(context2));
}

/// What a prover is asked to prove.
pub enum StatementView {
    DigestEquality { private: Seq<u8>, expected: Seq<u8> },
    RelayAudit { consensus: Seq<u8>, guard_count: u32, exit_count: u32 },
    LogIntegrity { previous: Seq<u8>, entry: Seq<u8>, sequence_number: u64 },
    Execution { input: Seq<u8>, output: Seq<u8>, telemetry: Seq<u8> },
}

/// The task that a prover with this security parameter sets for a statement.
pub open spec fn task_of(k: u32, statement: StatementView) -> TaskView {
    match statement {
        StatementView::DigestEquality { private, expected } => digest_task(k, private, expected),
        StatementView::RelayAudit { consensus, guard_count, exit_count } => relay_task(
            k,
            consensus,
            guard_count,
            exit_count,
        ),
        StatementView::LogIntegrity { previous, entry, sequence_number } => log_task(
            k,
            previous,
            entry,
            sequence_number,
        ),
        StatementView::Execution { input, output, telemetry } => execution_task(
            k,
            input,
            output,
            telemetry,
        ),
    }
}

/// Whether a bundle holds the proof that `make` makes of a task, beside what
/// the task says.
pub open spec fn holds_proof_of(
    bundle: ZkProofBundle,
    task: TaskView,
    make: spec_fn(TaskView) -> Seq<u8>,
) -> bool {
    bundle@ == bundled(task) && bundle.proof_bytes() == make(task)
}

/// Provers are deterministic: a task holds all that a proof is made from, the
/// seed of the generator included. So with proofs that are made from the task
/// alone, two provers with the same security parameter give the same proof,
/// hash, public inputs and security for the same statement.
pub proof fn equal_provers_give_equal_proofs(
    prover1: ZkProver,
    prover2: ZkProver,
    statement: StatementView,
    make: spec_fn(TaskView) -> Seq<u8>,
    bundle1: ZkProofBundle,
    bundle2: ZkProofBundle,
)
    requires
        prover1.security() == prover2.security(),
        holds_proof_of(bundle1, task_of(prover1.security(), statement), make),
        holds_proof_of(bundle2, task_of(prover2.security(), statement), make),
    ensures
        bundle1.proof_bytes() == bundle2.proof_bytes(),
        bundle1@.expected_hash == bundle2@.expected_hash,
        bundle1@.public_inputs == bundle2@.public_inputs,
        bundle1@.circuit_security == bundle2@.circuit_security,
        bundle1@ == bundle2@,
{
}

/// A digest of thirty-two bytes is what the field elements and the public
/// inputs of a proof speak of: the given bytes, or their hash where they are of
/// another length.
pub open spec fn spoken_of(text: Option<MemberView>, given: Seq<u8>) -> bool {
    exists|digest: Seq<u8>|
        {
            &&& text == Some(MemberView::Text(#[trigger] encoding::hex_text(digest)))
            &&& given.len() == 32 ==> digest == given
            &&& given.len() != 32 ==> digest == crypto::sha256(given)
        }
}

/// The number that a digest of any length stands for in the field.
pub proof fn digests_stand_for_their_number(digest: Seq<u8>)
    ensures
        digest.len() == 32 ==> scalar_of(digest) == field::le_value(digest) % field::modulus(),
        digest.len() != 32 ==> scalar_of(digest) == field::le_value(crypto::sha256(digest))
            % field::modulus(),
        scalar_of(digest) < field::modulus(),
        spoken_of(Some(MemberView::Text(encoding::hex_text(normal_digest(digest)))), digest),
{
    assert(encoding::hex_text(normal_digest(digest)) == encoding::hex_text(normal_digest(digest)));
}

/// Each prover works for its circuit with its own security parameter and the
/// generator that belongs to it, and its bundle says so.
pub proof fn tasks_name_their_circuit(k: u32, statement: StatementView)
    ensures
        task_of(k, statement).security == k,
        task_of(k, statement).seed == 0x4252_5554u64 ^ (k as u64),
        bundled(task_of(k, statement)).protocol == "halo2-scalar-equality-v1"@,
        bundled(task_of(k, statement)).circuit_security == k,
        bundled(task_of(k, statement)).expected_hash == task_of(k, statement).expected_hash,
        bundled(task_of(k, statement)).public_inputs == Some(task_of(k, statement).public_inputs),
        statement is DigestEquality ==> bundled(task_of(k, statement)).circuit
            == "scalar_equality"@,
        statement is RelayAudit ==> bundled(task_of(k, statement)).circuit == "relay_audit_v1"@,
        statement is LogIntegrity ==> bundled(task_of(k, statement)).circuit
            == "log_chain_integrity_v1"@,
        statement is Execution ==> bundled(task_of(k, statement)).circuit
            == "execution_attestation_v1"@,
        statement is DigestEquality ==> task_of(k, statement).witness is ScalarEquality,
        statement is RelayAudit ==> task_of(k, statement).witness is RelayAudit,
        statement is LogIntegrity ==> task_of(k, statement).witness is LogIntegrity,
        statement is Execution ==> task_of(k, statement).witness is Execution,
{
}

/// The one public input of a digest proof is the expected digest, the public
/// value is its number, and its hash is kept; the private value is the number
/// of the private digest.
pub proof fn digest_proofs_name_their_digest(k: u32, private: Seq<u8>, expected: Seq<u8>)
    ensures
        ({
            let task = digest_task(k, private, expected);
            &&& spoken_of(json::member_of(task.public_inputs, "expected_digest"@), expected)
            &&& task.public_inputs.dom() == set!["expected_digest"@]
            &&& task.instances == seq![scalar_of(expected)]
            &&& task.witness == (WitnessView::ScalarEquality { private_value: scalar_of(private) })
            &&& expected.len() == 32 ==> encoding::hex_value(task.expected_hash) == Some(
                crypto::sha256(expected),
            )
            &&& expected.len() != 32 ==> encoding::hex_value(task.expected_hash) == Some(
                crypto::sha256(crypto::sha256(expected)),
            )
        }),
{
    digests_stand_for_their_number(expected);
    encoding::hex_round_trip(crypto::sha256(normal_digest(expected)));
    assert(digest_task(k, private, expected).public_inputs.dom() =~= set!["expected_digest"@]);
}

/// The public inputs of a relay proof are its counts and a commitment whose
/// number is the sum of consensus and counts in the field; the public values
/// are those three, and the hash of the commitment is kept.
pub proof fn relay_proofs_name_their_counts(
    k: u32,
    consensus: Seq<u8>,
    guard_count: u32,
    exit_count: u32,
)
    ensures
        ({
            let task = relay_task(k, consensus, guard_count, exit_count);
            let sum = (scalar_of(consensus) + guard_count + exit_count) % field::modulus() as int;
            &&& json::member_of(task.public_inputs, "guard_count"@) == Some(
                MemberView::Unsigned(guard_count as u64),
            )
            &&& json::member_of(task.public_inputs, "exit_count"@) == Some(
                MemberView::Unsigned(exit_count as u64),
            )
            &&& task.public_inputs.dom() == set!["guard_count"@, "exit_count"@, "commitment"@]
            &&& commits_to(task, sum as nat)
            &&& task.instances == seq![sum as nat, guard_count as nat, exit_count as nat]
            &&& task.witness == (WitnessView::RelayAudit {
                consensus_value: scalar_of(consensus),
                guard_value: guard_count as nat,
                exit_value: exit_count as nat,
            })
        }),
{
    lemma_input_names();
    let task = relay_task(k, consensus, guard_count, exit_count);
    lemma_commits(task, relay_value(consensus, guard_count, exit_count));
    assert(task.public_inputs.dom() =~= set!["guard_count"@, "exit_count"@, "commitment"@]);
}

/// Whether the commitment among the public inputs of a task encodes this
/// number in thirty-two bytes, and the task keeps the hash of those bytes.
pub open spec fn commits_to(task: TaskView, value: nat) -> bool {
    exists|bytes: Seq<u8>|
        {
            &&& json::member_of(task.public_inputs, "commitment"@) == Some(
                MemberView::Text(#[trigger] encoding::hex_text(bytes)),
            )
            &&& bytes.len() == 32
            &&& field::le_value(bytes) == value
            &&& encoding::hex_value(task.expected_hash) == Some(crypto::sha256(bytes))
        }
}

proof fn lemma_commits(task: TaskView, value: nat)
    requires
        value < field::modulus(),
        json::member_of(task.public_inputs, "commitment"@) == Some(
            MemberView::Text(encoding::hex_text(scalar_bytes(value))),
        ),
        task.expected_hash == digest_hash(scalar_bytes(value)),
    ensures
        commits_to(task, value),
{
    field::elements_fit(value);
    encoding::hex_round_trip(crypto::sha256(scalar_bytes(value)));
    assert(encoding::hex_text(scalar_bytes(value)) == encoding::hex_text(scalar_bytes(value)));
}

/// The public inputs of a log proof name the digests that its commitment is
/// made from: previous and entry, each under its own name, and the commitment
/// is the number of the previous digest plus that of the entry times the
/// sequence number, in the field.
pub proof fn log_proofs_name_their_digests(
    k: u32,
    previous: Seq<u8>,
    entry: Seq<u8>,
    sequence_number: u64,
)
    ensures
        ({
            let task = log_task(k, previous, entry, sequence_number);
            let chained = (scalar_of(previous) + scalar_of(entry) * sequence_number)
                % field::modulus() as int;
            &&& spoken_of(json::member_of(task.public_inputs, "previous_hash"@), previous)
            &&& spoken_of(json::member_of(task.public_inputs, "entry_hash"@), entry)
            &&& json::member_of(task.public_inputs, "sequence"@) == Some(
                MemberView::Unsigned(sequence_number),
            )
            &&& task.public_inputs.dom() == set![
                "sequence"@,
                "commitment"@,
                "previous_hash"@,
                "entry_hash"@,
            ]
            &&& commits_to(task, chained as nat)
            &&& task.instances == seq![chained as nat, sequence_number as nat]
            &&& task.witness == (WitnessView::LogIntegrity {
                previous_value: scalar_of(previous),
                entry_value: scalar_of(entry),
            })
        }),
{
    lemma_input_names();
    lemma_more_input_names();
    let task = log_task(k, previous, entry, sequence_number);
    lemma_commits(task, log_value(previous, entry, sequence_number));
    digests_stand_for_their_number(previous);
    digests_stand_for_their_number(entry);
    assert(task.public_inputs.dom() =~= set![
        "sequence"@,
        "commitment"@,
        "previous_hash"@,
        "entry_hash"@,
    ]);
}

proof fn lemma_more_input_names()
    ensures
        "previous_hash"@ != "entry_hash"@,
        "input_hash"@ != "output_hash"@,
        "input_hash"@ != "telemetry_hash"@,
        "output_hash"@ != "telemetry_hash"@,
{
    reveal_strlit("previous_hash");
    reveal_strlit("entry_hash");
    reveal_strlit("input_hash");
    reveal_strlit("output_hash");
    reveal_strlit("telemetry_hash");
    assert("previous_hash"@.len() == 13 && "entry_hash"@.len() == 10);
    assert("input_hash"@.len() == 10 && "output_hash"@.len() == 11 && "telemetry_hash"@.len()
        == 14);
}

/// The public inputs of an execution proof name the digests that its
/// commitment is made from, each under its own name, and the commitment is the
/// sum of their numbers in the field.
pub proof fn execution_proofs_name_their_digests(
    k: u32,
    input: Seq<u8>,
    output: Seq<u8>,
    telemetry: Seq<u8>,
)
    ensures
        ({
            let task = execution_task(k, input, output, telemetry);
            let sum = (scalar_of(input) + scalar_of(output) + scalar_of(telemetry))
                % field::modulus();
            &&& spoken_of(json::member_of(task.public_inputs, "input_hash"@), input)
            &&& spoken_of(json::member_of(task.public_inputs, "output_hash"@), output)
            &&& spoken_of(json::member_of(task.public_inputs, "telemetry_hash"@), telemetry)
            &&& task.public_inputs.dom() == set![
                "commitment"@,
                "input_hash"@,
                "output_hash"@,
                "telemetry_hash"@,
            ]
            &&& commits_to(task, sum)
            &&& task.instances == seq![sum]
            &&& task.witness == (WitnessView::Execution {
                input_value: scalar_of(input),
                output_value: scalar_of(output),
                telemetry_value: scalar_of(telemetry),
            })
        }),
{
    lemma_input_names();
    lemma_more_input_names();
    let task = execution_task(k, input, output, telemetry);
    lemma_commits(task, execution_value(input, output, telemetry));
    digests_stand_for_their_number(input);
    digests_stand_for_their_number(output);
    digests_stand_for_their_number(telemetry);
    assert(task.public_inputs.dom() =~= set![
        "commitment"@,
        "input_hash"@,
        "output_hash"@,
        "telemetry_hash"@,
    ]);
}

/// A commitment is read as a number exactly where it has thirty-two bytes and
/// its number is below the size of the field, and two commitments with the same
/// number are the same.
pub proof fn commitments_are_canonical(first: Seq<u8>, second: Seq<u8>)
    ensures
        committed(first) is Ok <==> first.len() == 32 && field::le_value(first) < field::modulus(),
        committed(first) matches Ok(value) ==> value == field::le_value(first),
        committed(first) is Ok && committed(first) == committed(second) ==> first == second,
{
    if committed(first) is Ok && committed(first) == committed(second) {
        field::le_value_injective(first, second);
    }
}

/// A proof is held against what its context names: the number of the digest,
/// or that of the commitment and then the counts or the sequence number.
pub proof fn contexts_name_their_values(context: ContextView)
    ensures
        context matches ContextView::ScalarDigest { expected_digest } ==> instances_of(context)
            == Ok::<_, error::ErrorView>(seq![scalar_of(expected_digest)]),
        instances_of(context) is Ok <==> context is ScalarDigest || committed(
            expected_bytes(context),
        ) is Ok,
        instances_of(context) is Ok && !(context is ScalarDigest) ==> instances_of(context)->Ok_0[0]
            == field::le_value(expected_bytes(context)),
        instances_of(context) is Ok ==> match context {
            ContextView::RelayAudit { guard_count, exit_count, .. } => {
                let values = instances_of(context)->Ok_0;
                &&& values.len() == 3
                &&& values[1] == guard_count
                &&& values[2] == exit_count
            },
            ContextView::LogIntegrity { sequence_number, .. } => {
                let values = instances_of(context)->Ok_0;
                &&& values.len() == 2
                &&& values[1] == sequence_number
            },
            _ => true,
        },
        context is Execution && instances_of(context) is Ok ==> instances_of(context)->Ok_0.len()
            == 1,
{
}

/// A bundle that says what the context expects is let through: nothing else is
/// asked of it.
pub proof fn fitting_bundles_are_let_through(bundle: BundleView, context: ContextView)
    requires
        bundle.protocol == "halo2-scalar-equality-v1"@,
        context is ScalarDigest ==> {
            &&& bundle.circuit == "scalar_equality"@
            &&& expected_bytes(context).len() == 32
        },
        context is RelayAudit ==> bundle.circuit == "relay_audit_v1"@,
        context is LogIntegrity ==> bundle.circuit == "log_chain_integrity_v1"@,
        context is Execution ==> bundle.circuit == "execution_attestation_v1"@,
        bundle.expected_hash == encoding::hex_text(crypto::sha256(expected_bytes(context))),
        !(context is ScalarDigest) ==> {
            &&& expected_bytes(context).len() == 32
            &&& field::le_value(expected_bytes(context)) < field::modulus()
            &&& bundle.public_inputs is Some
            &&& json::member_of(bundle.public_inputs->0, "commitment"@) == Some(
                MemberView::Text(encoding::hex_text(expected_bytes(context))),
            )
        },
        context matches ContextView::RelayAudit { guard_count, exit_count, .. } ==> {
            &&& json::member_of(bundle.public_inputs->0, "guard_count"@) == Some(
                MemberView::Unsigned(guard_count as u64),
            )
            &&& json::member_of(bundle.public_inputs->0, "exit_count"@) == Some(
                MemberView::Unsigned(exit_count as u64),
            )
        },
        context matches ContextView::LogIntegrity { sequence_number, .. } ==> json::member_of(
            bundle.public_inputs->0,
            "sequence"@,
        ) == Some(MemberView::Unsigned(sequence_number)),
    ensures
        proof_check(bundle, context) is Ok,
        context is ScalarDigest ==> proof_check(bundle, context)->Ok_0
            == CircuitKind::ScalarEquality,
        context is RelayAudit ==> proof_check(bundle, context)->Ok_0 == CircuitKind::RelayAudit,
        context is LogIntegrity ==> proof_check(bundle, context)->Ok_0 == CircuitKind::LogIntegrity,
        context is Execution ==> proof_check(bundle, context)->Ok_0 == CircuitKind::Execution,
{
}

/// A digest bundle is let through for a digest of any length by the hash of
/// the digest in its normal form, and not for digests with another hash.
pub proof fn digest_checks_go_by_the_normal_form(bundle: BundleView, digest: Seq<u8>, other: Seq<u8>)
    ensures
        scalar_check(bundle, digest) is Ok ==> {
            &&& bundle.protocol == "halo2-scalar-equality-v1"@
            &&& bundle.circuit == "scalar_equality"@
            &&& digest.len() == 32 ==> bundle.expected_hash == encoding::hex_text(
                crypto::sha256(digest),
            )
            &&& digest.len() != 32 ==> bundle.expected_hash == encoding::hex_text(
                crypto::sha256(crypto::sha256(digest)),
            )
        },
        scalar_check(bundle, digest) is Ok && scalar_check(bundle, other) is Ok ==> digest_hash(
            normal_digest(digest),
        ) == digest_hash(normal_digest(other)),
{
}

/// A commitment that is derived is the one that the proof of the same values
/// shows and keeps the hash of: thirty-two bytes whose number is made from the
/// numbers of those values, in the field.
pub proof fn derived_commitments_are_those_of_the_proofs(
    k: u32,
    first: Seq<u8>,
    second: Seq<u8>,
    third: Seq<u8>,
    guard_count: u32,
    exit_count: u32,
    sequence_number: u64,
)
    ensures
        ({
            let derived = relay_commitment(first, guard_count, exit_count);
            let task = relay_task(k, first, guard_count, exit_count);
            &&& derived.len() == 32
            &&& field::le_value(derived) == (scalar_of(first) + guard_count + exit_count)
                % field::modulus() as int
            &&& json::member_of(task.public_inputs, "commitment"@) == Some(
                MemberView::Text(encoding::hex_text(derived)),
            )
            &&& task.expected_hash == encoding::hex_text(crypto::sha256(derived))
        }),
        ({
            let derived = log_commitment(first, second, sequence_number);
            let task = log_task(k, first, second, sequence_number);
            &&& derived.len() == 32
            &&& field::le_value(derived) == (scalar_of(first) + scalar_of(second)
                * sequence_number) % field::modulus() as int
            &&& json::member_of(task.public_inputs, "commitment"@) == Some(
                MemberView::Text(encoding::hex_text(derived)),
            )
            &&& task.expected_hash == encoding::hex_text(crypto::sha256(derived))
        }),
        ({
            let derived = execution_commitment(first, second, third);
            let task = execution_task(k, first, second, third);
            &&& derived.len() == 32
            &&& field::le_value(derived) == (scalar_of(first) + scalar_of(second) + scalar_of(
                third,
            )) % field::modulus()
            &&& json::member_of(task.public_inputs, "commitment"@) == Some(
                MemberView::Text(encoding::hex_text(derived)),
            )
            &&& task.expected_hash == encoding::hex_text(crypto::sha256(derived))
        }),
{
    lemma_input_names();
    field::elements_fit(relay_value(first, guard_count, exit_count));
    field::elements_fit(log_value(first, second, sequence_number));
    field::elements_fit(execution_value(first, second, third));
}

/// The task of a prover holds each private value in its own place: the number
/// of the digest that it stands for, or the count itself.
pub proof fn witnesses_hold_their_values(
    task: ProofTask,
    k: u32,
    first: Seq<u8>,
    second: Seq<u8>,
    third: Seq<u8>,
    guard_count: u32,
    exit_count: u32,
    sequence_number: u64,
)
    ensures
        task@ == digest_task(k, first, second) ==> (task.witness matches Witness::ScalarEquality {
            private_value,
        } && field::le_value(private_value.repr@) == scalar_of(first)),
        task@ == relay_task(k, first, guard_count, exit_count) ==> (
        task.witness matches Witness::RelayAudit { consensus_value, guard_value, exit_value } && {
            &&& field::le_value(consensus_value.repr@) == scalar_of(first)
            &&& field::le_value(guard_value.repr@) == guard_count
            &&& field::le_value(exit_value.repr@) == exit_count
        }),
        task@ == log_task(k, first, second, sequence_number) ==> (
        task.witness matches Witness::LogIntegrity { previous_value, entry_value } && {
            &&& field::le_value(previous_value.repr@) == scalar_of(first)
            &&& field::le_value(entry_value.repr@) == scalar_of(second)
        }),
        task@ == execution_task(k, first, second, third) ==> (
        task.witness matches Witness::Execution { input_value, output_value, telemetry_value } && {
            &&& field::le_value(input_value.repr@) == scalar_of(first)
            &&& field::le_value(output_value.repr@) == scalar_of(second)
            &&& field::le_value(telemetry_value.repr@) == scalar_of(third)
        }),
{
    assert(task@.witness == task.witness@);
}

/// A digest bundle that is not let through is refused for one of two reasons:
/// it is of another protocol or circuit, or it was made for another digest.
pub proof fn unfit_digest_bundles_are_told_apart(bundle: BundleView, digest: Seq<u8>)
    ensures
        bundle.protocol != "halo2-scalar-equality-v1"@ || bundle.circuit != "scalar_equality"@
            ==> scalar_check(bundle, digest) == Err::<(), _>(
            error::zero_knowledge("unsupported proof bundle"@),
        ),
        bundle.protocol == "halo2-scalar-equality-v1"@ && bundle.circuit == "scalar_equality"@
            && digest.len() == 32 && bundle.expected_hash != encoding::hex_text(
            crypto::sha256(digest),
        ) ==> scalar_check(bundle, digest) == Err::<(), _>(
            error::integrity("expected digest does not match stored commitment"@),
        ),
        bundle.protocol == "halo2-scalar-equality-v1"@ && bundle.circuit == "scalar_equality"@
            && digest.len() == 32 && bundle.expected_hash == encoding::hex_text(
            crypto::sha256(digest),
        ) ==> scalar_check(bundle, digest) == Ok::<(), error::ErrorView>(()),
{
}

/// A bundle of another protocol is refused whatever else it says, and one of
/// another circuit or for other bytes before its public inputs are read.
pub proof fn unfit_bundles_are_refused_in_order(bundle: BundleView, context: ContextView)
    ensures
        bundle.protocol != "halo2-scalar-equality-v1"@ ==> proof_check(bundle, context) == Err::<
            CircuitKind,
            _,
        >(
            error::zero_knowledge(
                "unsupported protocol '"@ + bundle.protocol + "': expected "@
                    + "halo2-scalar-equality-v1"@,
            ),
        ),
        bundle.protocol == "halo2-scalar-equality-v1"@ && bundle.circuit != circuit_of(
            context,
        ).id_text() ==> proof_check(bundle, context) == Err::<CircuitKind, _>(
            error::zero_knowledge(
                "unexpected circuit '"@ + bundle.circuit + "', expected "@ + circuit_of(
                    context,
                ).id_text(),
            ),
        ),
        bundle.protocol == "halo2-scalar-equality-v1"@ && bundle.circuit == circuit_of(
            context,
        ).id_text() && bundle.expected_hash != encoding::hex_text(
            crypto::sha256(expected_bytes(context)),
        ) ==> proof_check(bundle, context) == Err::<CircuitKind, _>(
            error::integrity("expected commitment does not match stored hash"@),
        ),
{
}

/// Public inputs that are missing are named, and inputs that are there but
/// differ from the context are a violation of integrity.
pub proof fn unfit_inputs_are_told_apart(
    inputs: Map<Seq<char>, MemberView>,
    guard_count: u32,
    exit_count: u32,
    sequence_number: u64,
    expected: Seq<u8>,
)
    ensures
        relay_inputs_check(None, guard_count, exit_count, expected) == Err::<(), _>(
            error::zero_knowledge("relay proof missing public inputs"@),
        ),
        !inputs.dom().contains("guard_count"@) ==> relay_inputs_check(
            Some(inputs),
            guard_count,
            exit_count,
            expected,
        ) == Err::<(), _>(error::zero_knowledge("relay proof missing guard_count"@)),
        inputs.dom().contains("guard_count"@) && inputs["guard_count"@] is Unsigned
            && !inputs.dom().contains("exit_count"@) ==> relay_inputs_check(
            Some(inputs),
            guard_count,
            exit_count,
            expected,
        ) == Err::<(), _>(error::zero_knowledge("relay proof missing exit_count"@)),
        inputs.dom().contains("guard_count"@) && inputs["guard_count"@] is Unsigned
            && inputs.dom().contains("exit_count"@) && inputs["exit_count"@] is Unsigned
            && !inputs.dom().contains("commitment"@) ==> relay_inputs_check(
            Some(inputs),
            guard_count,
            exit_count,
            expected,
        ) == Err::<(), _>(error::zero_knowledge("relay proof missing commitment"@)),
        !inputs.dom().contains("sequence"@) ==> log_inputs_check(
            Some(inputs),
            sequence_number,
            expected,
        ) == Err::<(), _>(error::zero_knowledge("log proof missing sequence"@)),
        !inputs.dom().contains("commitment"@) ==> execution_inputs_check(Some(inputs), expected)
            == Err::<(), _>(error::zero_knowledge("execution proof missing commitment"@)),
        inputs.dom().contains("sequence"@) && inputs["sequence"@] is Unsigned
            && inputs["sequence"@]->Unsigned_0 != sequence_number && inputs.dom().contains(
            "commitment"@,
        ) && inputs["commitment"@] is Text ==> log_inputs_check(
            Some(inputs),
            sequence_number,
            expected,
        ) == Err::<(), _>(
            error::integrity("log proof sequence does not match verification context"@),
        ),
{
}

} // verus!
