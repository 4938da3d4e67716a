//! Which peers the broker client accepts: by SPIFFE identity, or by an
//! attestation that a policy admits.

use crate::broker_config;
use crate::certificate;
use crate::certificate::{CertificateView, PeerCertificate};
use crate::config;
use crate::encoding;
use crate::error::{rejected, Rejection};
use crate::ra_tls;
use crate::ra_tls::{
    Attestation, AttestationView, Collateral, CollateralView, Report, ReportView, TdxEvent,
    VerifiedAttestation,
};
use crate::secret_broker_client;
use crate::secret_broker_client::{ClientPolicy, MeasurementPolicy, PolicyView};
use crate::string_set::StringSet;
use crate::text;
use vstd::prelude::*;

verus! {

/// A SPIFFE identity in normal form: the trust domain in lower case, the path
/// as it is.
pub open spec fn spiffe_id_of(uri: Seq<char>) -> Option<Seq<char>> {
    match text::after_prefix(uri, "spiffe://"@) {
        None => None,
        Some(rest) => {
            let slash = text::first_position(rest, '/');
            if slash == rest.len() || slash == 0 {
                None
            } else {
                Some("spiffe://"@ + text::ascii_lowercase(rest.take(slash)) + rest.skip(slash))
            }
        },
    }
}

/// Normalize a SPIFFE identity: lowercase trust domain, preserve path.
pub fn normalize_spiffe_id(uri: &str) -> (res: Option<String>)
    ensures
        text::optional(res) == spiffe_id_of(uri@),
{
    let rest = match text::strip_prefix(uri, "spiffe://") {
        Some(rest) => rest,
        None => return None,
    };
    proof {
        text::lemma_first_position(rest@, '/');
    }
    let (domain, path) = match text::split_once(rest, '/') {
        Some(pair) => pair,
        None => return None,
    };
    if domain.is_empty() {
        return None;
    }
    let lower = text::to_ascii_lowercase(domain);
    let res = text::concat3("spiffe://", lower.as_str(), "/").concat(path);
    proof {
        reveal_strlit("/");
        let slash = text::first_position(rest@, '/');
        assert(rest@.skip(slash) =~= "/"@ + path@);
        assert(res@ =~= "spiffe://"@ + text::ascii_lowercase(rest@.take(slash)) + rest@.skip(
            slash,
        ));
    }
    Some(res)
}

/// Normalizing a SPIFFE identity in normal form changes nothing.
pub proof fn normal_form_is_stable(uri: Seq<char>)
    ensures
        spiffe_id_of(uri) matches Some(id) ==> spiffe_id_of(id) == Some(id),
{
    if let Some(id) = spiffe_id_of(uri) {
        let head = "spiffe://"@;
        let rest = text::after_prefix(uri, head)->0;
        text::lemma_first_position(rest, '/');
        let slash = text::first_position(rest, '/');
        let domain = rest.take(slash);
        let lower = text::ascii_lowercase(domain);
        let path = rest.skip(slash);
        let tail = lower + path;
        assert(id =~= head + tail);
        assert(id.subrange(0, head.len() as int) =~= head);
        assert(id.skip(head.len() as int) =~= tail);
        assert forall|i: int| 0 <= i < lower.len() implies #[trigger] tail[i] != '/' by {
            assert(tail[i] == lower[i]);
            assert(domain[i] == rest[i]);
        }
        assert(tail[slash] == path[0]);
        text::lemma_first_position_is(tail, '/', slash);
        assert(tail.take(slash) =~= lower);
        assert(tail.skip(slash) =~= path);
        assert(text::ascii_lowercase(lower) =~= lower);
    }
}

/// The URIs among the alternative names of a certificate.
pub open spec fn uris(names: Seq<Option<Seq<char>>>) -> Seq<Seq<char>>
    decreases names.len(),
{
    if names.len() == 0 {
        Seq::empty()
    } else {
        match names.last() {
            Some(uri) => uris(names.drop_last()).push(uri),
            None => uris(names.drop_last()),
        }
    }
}

/// Whether the alternative names of a certificate are those of the peer that
/// is expected: one URI, which is its SPIFFE identity.
pub open spec fn spiffe_peer(names: Seq<Option<Seq<char>>>, allowed: Seq<char>) -> Result<
    (),
    Seq<char>,
> {
    let presented = uris(names);
    if presented.len() != 1 {
        Err("SPIFFE server cert must have exactly one URI SAN"@)
    } else {
        match spiffe_id_of(presented[0]) {
            None => Err("presented SAN URI is not a valid SPIFFE ID"@),
            Some(id) => if id == allowed {
                Ok(())
            } else {
                Err("server SPIFFE ID not authorised"@)
            },
        }
    }
}

/// Accepts the peer with one SPIFFE identity, kept in normal form.
#[derive(Debug)]
pub struct SpiffeServerVerifier {
    allowed: String,
}

impl SpiffeServerVerifier {
    /// The identity that is accepted.
    pub closed spec fn allowed_id(self) -> Seq<char> {
        self.allowed@
    }

    /// A verifier for this identity.
    pub fn new(allowed_spiffe_id: &str) -> (res: Result<Self, Rejection>)
        ensures
            match res {
                Ok(verifier) => spiffe_id_of(allowed_spiffe_id@) == Some(verifier.allowed_id()),
                Err(rejection) => {
                    &&& spiffe_id_of(allowed_spiffe_id@) is None
                    &&& rejection@ == "invalid target SPIFFE ID: "@ + allowed_spiffe_id@
                },
            },
    {
        match normalize_spiffe_id(allowed_spiffe_id) {
            Some(allowed) => Ok(SpiffeServerVerifier { allowed }),
            None => {
                let reason = text::concat2("invalid target SPIFFE ID: ", allowed_spiffe_id);
                Err(rejected(reason.as_str()))
            },
        }
    }

    /// Accept the peer with this certificate, whose chain is already verified.
    pub fn check_certificate(&self, certificate: &PeerCertificate) -> (res: Result<(), Rejection>)
        ensures
            ra_tls::judged(res) == spiffe_peer(certificate@.alternative_names, self.allowed_id()),
    {
        let names = &certificate.alternative_names;
        let ghost all = certificate@.alternative_names;
        let mut presented: Vec<String> = Vec::new();
        let n: usize = names.len();
        let mut i: usize = 0;
        assert(all.take(0) =~= Seq::empty());
        assert(text::views(presented@) =~= Seq::empty());
        while i < n
            invariant
                i <= n,
                n == names@.len(),
                all == certificate::optional_views(names@),
                text::views(presented@) == uris(all.take(i as int)),
            decreases n - i,
        {
            let ghost before = text::views(presented@);
            proof {
                assert(all.take(i + 1).drop_last() =~= all.take(i as int));
                assert(all.take(i + 1).last() == text::optional(names@[i as int]));
            }
            if let Some(uri) = &names[i] {
                presented.push(uri.clone());
                assert(text::views(presented@) =~= before.push(uri@));
            }
            i = i + 1;
        }
        assert(all.take(n as int) =~= all);
        assert(uris(all).len() == presented@.len());
        if presented.len() != 1 {
            return Err(rejected("SPIFFE server cert must have exactly one URI SAN"));
        }
        assert(uris(all)[0] == presented@[0]@);
        match normalize_spiffe_id(presented[0].as_str()) {
            None => Err(rejected("presented SAN URI is not a valid SPIFFE ID")),
            Some(id) => if text::equal(id.as_str(), self.allowed.as_str()) {
                Ok(())
            } else {
                Err(rejected("server SPIFFE ID not authorised"))
            },
        }
    }

    /// Accept the peer with this certificate in DER, whose chain is already
    /// verified.
    pub fn verify_server_cert(&self, end_entity: &[u8]) -> (res: Result<(), Rejection>)
        ensures
            ra_tls::judged(res) == (match certificate::x509_certificate(end_entity@) {
                Err(problem) => Err("failed to parse server cert"@),
                Ok(certificate) => spiffe_peer(certificate.alternative_names, self.allowed_id()),
            }),
    {
        match certificate::parse_certificate(end_entity) {
            Ok(certificate) => self.check_certificate(&certificate),
            Err(_) => Err(rejected("failed to parse server cert")),
        }
    }
}

/// What an attested peer is held against.
#[derive(Debug, Clone)]
pub struct RaTlsServerVerifier {
    pub policy: ClientPolicy,
    pub subject_allowlist: Option<StringSet>,
    pub pccs_url: Option<String>,
}

impl RaTlsServerVerifier {
    pub fn new(
        policy: ClientPolicy,
        subject_allowlist: Option<StringSet>,
        pccs_url: Option<String>,
    ) -> (res: Self)
        ensures
            res == (RaTlsServerVerifier { policy, subject_allowlist, pccs_url }),
    {
        RaTlsServerVerifier { policy, subject_allowlist, pccs_url }
    }
}

/// The attestation of a peer and the public key that it has to be bound to.
#[derive(Debug)]
pub struct PeerEvidence {
    pub attestation: Attestation,
    pub public_key: Vec<u8>,
}

/// The evidence of a peer, over views.
pub struct EvidenceView {
    pub attestation: AttestationView,
    pub public_key: Seq<u8>,
}

impl View for PeerEvidence {
    type V = EvidenceView;

    open spec fn view(&self) -> EvidenceView {
        EvidenceView { attestation: self.attestation@, public_key: self.public_key@ }
    }
}

/// The common name of a certificate: the first one, where it is text.
pub open spec fn common_name(names: Seq<Option<Seq<char>>>) -> Option<Seq<char>> {
    if names.len() == 0 {
        None
    } else {
        names[0]
    }
}

/// Whether the subject of a certificate is on the list, where there is one.
pub open spec fn subject_listed(
    names: Seq<Option<Seq<char>>>,
    allowlist: Option<Set<Seq<char>>>,
) -> Result<(), Seq<char>> {
    match allowlist {
        None => Ok(()),
        Some(subjects) => match common_name(names) {
            None => Err("server certificate has no common name"@),
            Some(subject) => if subjects.contains(
                text::lowercase(text::trimmed(subject)),
            ) {
                Ok(())
            } else {
                Err("server subject "@ + subject + " not in allowlist"@)
            },
        },
    }
}

/// The evidence that a certificate carries, by the attestation in it. Only a
/// listed subject with an attestation has any.
pub open spec fn evidence_of(
    certificate: CertificateView,
    attestation: Result<Option<AttestationView>, Seq<char>>,
    allowlist: Option<Set<Seq<char>>>,
) -> Result<AttestationView, Seq<char>> {
    match subject_listed(certificate.common_names, allowlist) {
        Err(reason) => Err(reason),
        Ok(()) => match attestation {
            Err(reason) => Err("failed to parse RA-TLS attestation"@),
            Ok(None) => Err("certificate does not contain RA-TLS attestation"@),
            Ok(Some(attestation)) => Ok(attestation),
        },
    }
}

/// Whether the evidence is the one that a certificate carries, with the public
/// key of that certificate.
pub open spec fn evidence_from(
    res: Result<PeerEvidence, Rejection>,
    certificate: CertificateView,
    attestation: Result<Option<AttestationView>, Seq<char>>,
    allowlist: Option<Set<Seq<char>>>,
) -> bool {
    match res {
        Ok(evidence) => {
            &&& evidence_of(certificate, attestation, allowlist) == Ok::<_, Seq<char>>(
                evidence.attestation@,
            )
            &&& evidence.public_key@ == certificate.public_key
        },
        Err(rejection) => evidence_of(certificate, attestation, allowlist) == Err::<
            AttestationView,
            _,
        >(rejection@),
    }
}

/// Check the subject of a certificate against the list, where there is one.
pub fn check_subject(certificate: &PeerCertificate, allowlist: &Option<StringSet>) -> (res: Result<
    (),
    Rejection,
>)
    ensures
        ra_tls::judged(res) == subject_listed(
            certificate@.common_names,
            broker_config::optional_set(*allowlist),
        ),
{
    let subjects = match allowlist {
        Some(subjects) => subjects,
        None => return Ok(()),
    };
    let names = &certificate.common_names;
    assert(certificate@.common_names.len() == names@.len());
    if names.len() == 0 {
        return Err(rejected("server certificate has no common name"));
    }
    assert(certificate@.common_names[0] == text::optional(names@[0]));
    match &names[0] {
        None => Err(rejected("server certificate has no common name")),
        Some(subject) => {
            let lower = text::to_lowercase(text::trim(subject.as_str()));
            if subjects.contains(lower.as_str()) {
                Ok(())
            } else {
                let reason = text::concat3(
                    "server subject ",
                    subject.as_str(),
                    " not in allowlist",
                );
                Err(rejected(reason.as_str()))
            }
        },
    }
}

/// Take the evidence out of a certificate, by the attestation in it.
pub fn collect_evidence(
    certificate: PeerCertificate,
    attestation: Result<Option<Attestation>, Rejection>,
    allowlist: &Option<StringSet>,
) -> (res: Result<PeerEvidence, Rejection>)
    ensures
        evidence_from(
            res,
            certificate@,
            ra_tls::extracted(attestation),
            broker_config::optional_set(*allowlist),
        ),
{
    match check_subject(&certificate, allowlist) {
        Ok(()) => {},
        Err(rejection) => return Err(rejection),
    }
    match attestation {
        Err(_) => Err(rejected("failed to parse RA-TLS attestation")),
        Ok(None) => Err(rejected("certificate does not contain RA-TLS attestation")),
        Ok(Some(attestation)) => Ok(
            PeerEvidence { attestation, public_key: certificate.public_key },
        ),
    }
}

impl RaTlsServerVerifier {
    /// Take the evidence out of the certificate of a peer.
    pub fn inspect_peer(&self, certificate: &[u8]) -> (res: Result<PeerEvidence, Rejection>)
        ensures
            match certificate::x509_certificate(certificate@) {
                Err(problem) => res matches Err(rejection) && rejection@
                    == ra_tls::not_a_certificate(problem),
                Ok(parsed) => evidence_from(
                    res,
                    parsed,
                    ra_tls::attestation_in(
                        parsed.extensions,
                        certificate::oid_der(ra_tls::quote_arc()),
                        certificate::oid_der(ra_tls::event_log_arc()),
                    ),
                    broker_config::optional_set(self.subject_allowlist),
                ),
            },
    {
        match certificate::parse_certificate(certificate) {
            Err(problem) => {
                let reason = text::concat2(
                    "failed to parse X.509 certificate: ",
                    problem.as_str(),
                );
                Err(rejected(reason.as_str()))
            },
            Ok(parsed) => {
                let attestation = Attestation::from_certificate(&parsed);
                collect_evidence(parsed, attestation, &self.subject_allowlist)
            },
        }
    }

    /// Accept a peer whose attestation is verified, if the policy admits its
    /// compose hash and its measurements.
    pub fn accept_peer(
        &self,
        verified: &VerifiedAttestation,
        compose_hash: Result<String, Rejection>,
    ) -> (res: Result<(), Rejection>)
        ensures
            ra_tls::judged(res) == admission(
                self.policy@.measurement,
                verified.report@,
                usable_hash(config::answer(compose_hash)),
            ),
    {
        let hash = match compose_hash {
            Ok(hash) => if hash.as_str().is_empty() {
                None
            } else {
                Some(hash)
            },
            Err(_) => None,
        };
        let measurement = &self.policy.measurement;
        if measurement.expects_compose_hash() {
            match &hash {
                None => return Err(
                    rejected("attestation missing compose hash while policy requires it"),
                ),
                Some(hash) => if !measurement.allows_compose_hash(hash.as_str()) {
                    let reason = text::concat3(
                        "compose hash ",
                        hash.as_str(),
                        " rejected by policy",
                    );
                    return Err(rejected(reason.as_str()));
                },
            }
        }
        enforce_measurement_policy(measurement, verified)
    }

    /// Judge a peer by its evidence: the quote is bound to the public key, it
    /// verifies against its collateral, and the policy admits what it reports
    /// together with the compose hash of its own event log. The records of the
    /// event log are handed in where it can be read.
    pub fn judge_peer(
        &self,
        evidence: &PeerEvidence,
        collateral: &Collateral,
        now: u64,
        records: &Option<Vec<TdxEvent>>,
    ) -> (res: Result<(), Rejection>)
        ensures
            ra_tls::judged(res) == verdict(
                self.policy@.measurement,
                evidence@,
                collateral@,
                now,
                ra_tls::event_list(*records),
            ),
    {
        let verified = match evidence.attestation.verify_with_ra_pubkey(
            evidence.public_key.as_slice(),
            collateral,
            now,
        ) {
            Ok(verified) => verified,
            Err(_) => return Err(rejected("RA-TLS attestation verification failed")),
        };
        let compose_hash = verified.decode_compose_hash(records);
        self.accept_peer(&verified, compose_hash)
    }
}

/// A compose hash that can be decoded and is not empty.
pub open spec fn usable_hash(hash: Result<Seq<char>, Seq<char>>) -> Option<Seq<char>> {
    match hash {
        Ok(hash) => if hash.len() == 0 {
            None
        } else {
            Some(hash)
        },
        Err(_) => None,
    }
}

/// Whether a peer is accepted, by its evidence and by what it is held against.
pub open spec fn verdict(
    policy: PolicyView,
    evidence: EvidenceView,
    collateral: CollateralView,
    now: u64,
    events: Option<Seq<TdxEvent>>,
) -> Result<(), Seq<char>> {
    let quote = evidence.attestation.quote;
    let report = ra_tls::quote_report(quote);
    if ra_tls::binding_of(quote, report, evidence.public_key) is Err || !ra_tls::quote_verifies(
        quote,
        collateral,
        now,
    ) {
        Err("RA-TLS attestation verification failed"@)
    } else {
        admission(
            policy,
            report->0,
            usable_hash(ra_tls::compose_hash_of(evidence.attestation.raw_event_log, events)),
        )
    }
}

/// A peer is accepted only if its quote can be read, verifies, and was made
/// over its public key, and if the policy admits the quote with the compose
/// hash of the event log that came with it.
pub proof fn accepted_peers_are_attested(
    policy: PolicyView,
    evidence: EvidenceView,
    collateral: CollateralView,
    now: u64,
    events: Option<Seq<TdxEvent>>,
)
    requires
        verdict(policy, evidence, collateral, now, events) is Ok,
    ensures
        ({
            let quote = evidence.attestation.quote;
            let hash = usable_hash(
                ra_tls::compose_hash_of(evidence.attestation.raw_event_log, events),
            );
            &&& ra_tls::quote_verifies(quote, collateral, now)
            &&& ra_tls::quote_report(quote) matches Some(report)
            &&& report.data() == ra_tls::key_binding(evidence.public_key)
            &&& admission(policy, report, hash) is Ok
            &&& policy.expected_compose_hash matches Some(expected) ==> hash matches Some(found)
                && text::lowercase(found) == expected
        }),
{
}

/// Whether a policy admits what a quote reports.
pub open spec fn measured(policy: PolicyView, report: ReportView) -> Result<(), Seq<char>> {
    match report {
        ReportView::TD10 { mr_td, .. } => {
            let mrtd = encoding::hex_text(mr_td);
            if secret_broker_client::admits(policy.allowed_mrtd, mrtd) {
                Ok(())
            } else {
                Err("TDX MR_TD "@ + mrtd + " rejected by policy"@)
            }
        },
        ReportView::TD15 { mr_td, .. } => {
            let mrtd = encoding::hex_text(mr_td);
            if secret_broker_client::admits(policy.allowed_mrtd, mrtd) {
                Ok(())
            } else {
                Err("TDX (TD15) MR_TD "@ + mrtd + " rejected by policy"@)
            }
        },
        ReportView::SgxEnclave { mr_enclave, mr_signer, isv_svn, .. } => {
            let mrenclave = encoding::hex_text(mr_enclave);
            let mrsigner = encoding::hex_text(mr_signer);
            if policy.admits_sgx(mrenclave, mrsigner, isv_svn) {
                Ok(())
            } else {
                Err(
                    "SGX measurements rejected (mrenclave="@ + mrenclave + ", mrsigner="@ + mrsigner
                        + ", isv_svn="@ + text::decimal(isv_svn as nat) + ")"@,
                )
            }
        },
    }
}

/// Hold what a quote reports against a policy.
pub fn enforce_measurement_policy(policy: &MeasurementPolicy, verified: &VerifiedAttestation) -> (res:
    Result<(), Rejection>)
    ensures
        ra_tls::judged(res) == measured(policy@, verified.report@),
{
    match &verified.report {
        Report::TD10 { mr_td, report_data } => {
            let mrtd = encoding::hex_encode(mr_td.as_slice());
            if !policy.allows_tdx_mrtd(mrtd.as_str()) {
                let reason = text::concat3("TDX MR_TD ", mrtd.as_str(), " rejected by policy");
                return Err(rejected(reason.as_str()));
            }
        },
        Report::TD15 { mr_td, report_data } => {
            let mrtd = encoding::hex_encode(mr_td.as_slice());
            if !policy.allows_tdx_mrtd(mrtd.as_str()) {
                let reason = text::concat3(
                    "TDX (TD15) MR_TD ",
                    mrtd.as_str(),
                    " rejected by policy",
                );
                return Err(rejected(reason.as_str()));
            }
        },
        Report::SgxEnclave { mr_enclave, mr_signer, isv_svn, report_data } => {
            let mrenclave = encoding::hex_encode(mr_enclave.as_slice());
            let mrsigner = encoding::hex_encode(mr_signer.as_slice());
            if !policy.allows_sgx_measurements(mrenclave.as_str(), mrsigner.as_str(), *isv_svn) {
                let number = text::to_decimal(*isv_svn as u64);
                let reason = text::concat5(
                    "SGX measurements rejected (mrenclave=",
                    mrenclave.as_str(),
                    ", mrsigner=",
                    mrsigner.as_str(),
                    ", isv_svn=",
                ).concat(number.as_str()).concat(")");
                return Err(rejected(reason.as_str()));
            }
        },
    }
    Ok(())
}

/// Whether a policy admits a verified peer, by its compose hash and by what
/// its quote reports.
pub open spec fn admission(
    policy: PolicyView,
    report: ReportView,
    compose_hash: Option<Seq<char>>,
) -> Result<(), Seq<char>> {
    if policy.expected_compose_hash is Some && compose_hash is None {
        Err("attestation missing compose hash while policy requires it"@)
    } else if compose_hash is Some && !policy.admits_compose_hash(compose_hash->0) {
        Err("compose hash "@ + compose_hash->0 + " rejected by policy"@)
    } else {
        measured(policy, report)
    }
}

/// Whether a set lists a value, where it lists any.
pub open spec fn lists(allowed: Set<Seq<char>>, value: Seq<char>) -> bool {
    allowed == Set::<Seq<char>>::empty() || allowed.contains(value)
}

/// A peer is accepted only with the compose hash that the policy expects and
/// with measurements that it lists, written in hexadecimal; an enclave is not
/// below the least security version that the policy names.
pub proof fn accepted_peers_meet_the_policy(
    policy: PolicyView,
    report: ReportView,
    compose_hash: Option<Seq<char>>,
)
    requires
        admission(policy, report, compose_hash) is Ok,
    ensures
        policy.expected_compose_hash matches Some(expected) ==> compose_hash matches Some(hash)
            && text::lowercase(hash) == expected,
        report matches ReportView::TD10 { mr_td, report_data } ==> lists(
            policy.allowed_mrtd,
            encoding::hex_text(mr_td),
        ),
        report matches ReportView::TD15 { mr_td, report_data } ==> lists(
            policy.allowed_mrtd,
            encoding::hex_text(mr_td),
        ),
        report matches ReportView::SgxEnclave { mr_enclave, mr_signer, isv_svn, report_data } ==> {
            &&& lists(policy.allowed_mrenclave, encoding::hex_text(mr_enclave))
            &&& lists(policy.allowed_mrsigner, encoding::hex_text(mr_signer))
            &&& policy.min_isvsvn matches Some(min) ==> isv_svn >= min
        },
{
    match report {
        ReportView::TD10 { mr_td, .. } => encoding::hex_text_is_lower_case(mr_td),
        ReportView::TD15 { mr_td, .. } => encoding::hex_text_is_lower_case(mr_td),
        ReportView::SgxEnclave { mr_enclave, mr_signer, .. } => {
            encoding::hex_text_is_lower_case(mr_enclave);
            encoding::hex_text_is_lower_case(mr_signer);
        },
    }
}

/// A SPIFFE identity is a scheme, a trust domain and a path; its normal form
/// has the domain in lower case and the path as it is.
pub proof fn identities_are_domain_and_path(domain: Seq<char>, path: Seq<char>)
    requires
        domain.len() > 0,
        !domain.contains('/'),
        path.len() > 0,
        path[0] == '/',
    ensures
        spiffe_id_of("spiffe://"@ + domain + path) == Some(
            "spiffe://"@ + text::ascii_lowercase(domain) + path,
        ),
{
    let head = "spiffe://"@;
    let rest = domain + path;
    assert(head + domain + path =~= head + rest);
    text::parts_of_a_text_are_found(head, Seq::empty(), rest);
    let slash = domain.len() as int;
    assert forall|i: int| 0 <= i < slash implies #[trigger] rest[i] != '/' by {
        assert(rest[i] == domain[i]);
        assert(domain.contains(domain[i]));
    }
    assert(rest[slash] == path[0]);
    text::lemma_first_position_is(rest, '/', slash);
    assert(rest.take(slash) =~= domain);
    assert(rest.skip(slash) =~= path);
}

/// Every identity that has a normal form is made of a scheme, a trust domain
/// and a path.
pub proof fn identities_have_domain_and_path(uri: Seq<char>) -> (parts: (Seq<char>, Seq<char>))
    ensures
        spiffe_id_of(uri) is Some ==> {
            &&& uri == "spiffe://"@ + parts.0 + parts.1
            &&& parts.0.len() > 0
            &&& !parts.0.contains('/')
            &&& parts.1.len() > 0
            &&& parts.1[0] == '/'
        },
{
    let head = "spiffe://"@;
    if spiffe_id_of(uri) is Some {
        text::found_parts_stand_there(uri, head);
        let rest = uri.skip(head.len() as int);
        text::lemma_first_position(rest, '/');
        let slash = text::first_position(rest, '/');
        assert(uri =~= head + rest.take(slash) + rest.skip(slash));
        assert forall|i: int| 0 <= i < slash implies rest.take(slash)[i] != '/' by {
            assert(rest[i] != '/');
        }
        (rest.take(slash), rest.skip(slash))
    } else {
        (Seq::empty(), Seq::empty())
    }
}

proof fn lemma_uris(names: Seq<Option<Seq<char>>>)
    ensures
        uris(names).len() == 0 <==> forall|i: int|
            0 <= i < names.len() ==> (#[trigger] names[i]) is None,
        uris(names).len() == 1 ==> exists|i: int| #[trigger] only_uri(names, i, uris(names)[0]),
        forall|i: int, uri: Seq<char>| #[trigger]
            only_uri(names, i, uri) ==> uris(names) == seq![uri],
    decreases names.len(),
{
    if names.len() > 0 {
        let rest = names.drop_last();
        let last = names.len() - 1;
        lemma_uris(rest);
        assert(names[last] == names.last());
        assert(forall|i: int| 0 <= i < rest.len() ==> rest[i] == names[i]);
        if uris(names).len() == 0 {
            assert forall|i: int| 0 <= i < names.len() implies (#[trigger] names[i]) is None by {
                if i < rest.len() {
                    assert(rest[i] is None);
                }
            }
        }
        if uris(names).len() == 1 {
            if names[last] is Some {
                assert(uris(rest).len() == 0);
                assert forall|j: int| 0 <= j < names.len() && j != last implies (
                #[trigger] names[j]) is None by {
                    assert(rest[j] is None);
                }
                assert(only_uri(names, last, uris(names)[0]));
            } else {
                let i = choose|i: int| #[trigger] only_uri(rest, i, uris(rest)[0]);
                assert(names[i] == rest[i]);
                assert forall|j: int| 0 <= j < names.len() && j != i implies (
                #[trigger] names[j]) is None by {
                    if j < rest.len() {
                        assert(rest[j] is None);
                    }
                }
                assert(only_uri(names, i, uris(names)[0]));
            }
        }
        assert forall|i: int, uri: Seq<char>| #[trigger] only_uri(names, i, uri) implies uris(names)
            == seq![uri] by {
            if i == last {
                assert forall|j: int| 0 <= j < rest.len() implies (#[trigger] rest[j]) is None by {
                    assert(names[j] is None);
                }
                assert(uris(rest) =~= Seq::empty());
                assert(uris(names) =~= seq![uri]);
            } else {
                assert(names[last] is None);
                assert(rest[i] == names[i]);
                assert forall|j: int| 0 <= j < rest.len() && j != i implies (
                #[trigger] rest[j]) is None by {
                    assert(names[j] is None);
                }
                assert(only_uri(rest, i, uri));
            }
        }
    }
}

/// Whether the name at one place is this URI, and no other name is a URI.
pub open spec fn only_uri(names: Seq<Option<Seq<char>>>, i: int, uri: Seq<char>) -> bool {
    &&& 0 <= i < names.len()
    &&& names[i] == Some(uri)
    &&& forall|j: int| 0 <= j < names.len() && j != i ==> (#[trigger] names[j]) is None
}

/// A SPIFFE peer is accepted exactly where one of its alternative names alone
/// is a URI and that URI is the identity that is expected, up to the case of
/// its trust domain.
pub proof fn spiffe_peers_show_one_identity(names: Seq<Option<Seq<char>>>, allowed: Seq<char>)
    ensures
        spiffe_peer(names, allowed) is Ok ==> exists|i: int, uri: Seq<char>|
            (#[trigger] only_uri(names, i, uri)) && spiffe_id_of(uri) == Some(allowed),
        forall|i: int, uri: Seq<char>|
            (#[trigger] only_uri(names, i, uri)) && spiffe_id_of(uri) == Some(allowed)
                ==> spiffe_peer(names, allowed) is Ok,
{
    lemma_uris(names);
    if spiffe_peer(names, allowed) is Ok {
        let i = choose|i: int| #[trigger] only_uri(names, i, uris(names)[0]);
        assert(only_uri(names, i, uris(names)[0]));
    }
}

/// Without a list every subject is accepted. With one, the first common name
/// of the certificate has to be on it, trimmed and in lower case.
pub proof fn listed_subjects_are_accepted(
    names: Seq<Option<Seq<char>>>,
    allowlist: Option<Set<Seq<char>>>,
)
    ensures
        subject_listed(names, allowlist) is Ok <==> (allowlist is None || (names.len() > 0
            && names[0] is Some && allowlist->0.contains(
            text::lowercase(text::trimmed(names[0]->0)),
        ))),
{
}

/// The evidence of a peer is the attestation in its certificate, as it is, with
/// the public key of that same certificate; a peer that is not listed or shows
/// no attestation has none.
pub proof fn evidence_comes_from_the_certificate(
    res: Result<PeerEvidence, Rejection>,
    certificate: CertificateView,
    attestation: Result<Option<AttestationView>, Seq<char>>,
    allowlist: Option<Set<Seq<char>>>,
)
    requires
        evidence_from(res, certificate, attestation, allowlist),
    ensures
        res is Ok <==> subject_listed(certificate.common_names, allowlist) is Ok && attestation
            is Ok && attestation->Ok_0 is Some,
        res matches Ok(evidence) ==> evidence.attestation@ == attestation->Ok_0->0
            && evidence.public_key@ == certificate.public_key,
{
}

/// A verified peer is accepted wherever its measurements are listed in
/// hexadecimal, or not restricted, and its compose hash is the expected one,
/// or none is expected.
pub proof fn peers_that_meet_the_policy_are_accepted(
    policy: PolicyView,
    report: ReportView,
    compose_hash: Option<Seq<char>>,
)
    requires
        policy.expected_compose_hash is Some ==> compose_hash is Some && text::lowercase(
            compose_hash->0,
        ) == policy.expected_compose_hash->0,
        match report {
            ReportView::TD10 { mr_td, .. } => lists(
                policy.allowed_mrtd,
                encoding::hex_text(mr_td),
            ),
            ReportView::TD15 { mr_td, .. } => lists(
                policy.allowed_mrtd,
                encoding::hex_text(mr_td),
            ),
            ReportView::SgxEnclave { mr_enclave, mr_signer, isv_svn, .. } => {
                &&& lists(policy.allowed_mrenclave, encoding::hex_text(mr_enclave))
                &&& lists(policy.allowed_mrsigner, encoding::hex_text(mr_signer))
                &&& policy.min_isvsvn is None || isv_svn >= policy.min_isvsvn->0
            },
        },
    ensures
        admission(policy, report, compose_hash) is Ok,
{
    match report {
        ReportView::TD10 { mr_td, .. } => encoding::hex_text_is_lower_case(mr_td),
        ReportView::TD15 { mr_td, .. } => encoding::hex_text_is_lower_case(mr_td),
        ReportView::SgxEnclave { mr_enclave, mr_signer, .. } => {
            encoding::hex_text_is_lower_case(mr_enclave);
            encoding::hex_text_is_lower_case(mr_signer);
        },
    }
}

/// A peer whose quote verifies and is bound to its key is accepted exactly
/// where the policy admits it, by the compose hash of its own event log.
pub proof fn attested_peers_are_left_to_the_policy(
    policy: PolicyView,
    evidence: EvidenceView,
    collateral: CollateralView,
    now: u64,
    events: Option<Seq<TdxEvent>>,
)
    requires
        ra_tls::quote_verifies(evidence.attestation.quote, collateral, now),
        ra_tls::binding_of(
            evidence.attestation.quote,
            ra_tls::quote_report(evidence.attestation.quote),
            evidence.public_key,
        ) is Ok,
    ensures
        ({
            let found = ra_tls::compose_hash_of(evidence.attestation.raw_event_log, events);
            let hash = if found is Ok && found->Ok_0.len() > 0 {
                Some(found->Ok_0)
            } else {
                None
            };
            verdict(policy, evidence, collateral, now, events) == admission(
                policy,
                ra_tls::quote_report(evidence.attestation.quote)->0,
                hash,
            )
        }),
{
}

} // verus!
