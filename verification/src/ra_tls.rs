//! RA-TLS: attestation quotes inside certificates, bound to the public key of
//! the peer.

use crate::certificate;
use crate::certificate::{ExtensionValue, PeerCertificate};
use crate::config;
use crate::config::{EnvValue, EnvView};
use crate::crypto;
use crate::encoding;
use crate::error::{rejected, Rejection};
use crate::pem;
use crate::text;
use vstd::prelude::*;

verus! {

/// The maker of the hardware behind a quote.
#[derive(Debug, Clone, Copy, PartialEq, Eq, Structural)]
pub enum TEEVendor {
    AmdSevSnp,
    IntelTDX,
    IntelSGX,
}

/// What a quote reports, as far as the library reads it.
#[derive(Debug, Clone)]
pub enum Report {
    SgxEnclave { mr_enclave: Vec<u8>, mr_signer: Vec<u8>, isv_svn: u16, report_data: Vec<u8> },
    TD10 { mr_td: Vec<u8>, report_data: Vec<u8> },
    TD15 { mr_td: Vec<u8>, report_data: Vec<u8> },
}

/// What a quote reports, over views.
pub enum ReportView {
    SgxEnclave { mr_enclave: Seq<u8>, mr_signer: Seq<u8>, isv_svn: u16, report_data: Seq<u8> },
    TD10 { mr_td: Seq<u8>, report_data: Seq<u8> },
    TD15 { mr_td: Seq<u8>, report_data: Seq<u8> },
}

impl View for Report {
    type V = ReportView;

    open spec fn view(&self) -> ReportView {
        match self {
            Report::SgxEnclave { mr_enclave, mr_signer, isv_svn, report_data } =>
                ReportView::SgxEnclave {
                mr_enclave: mr_enclave@,
                mr_signer: mr_signer@,
                isv_svn: *isv_svn,
                report_data: report_data@,
            },
            Report::TD10 { mr_td, report_data } => ReportView::TD10 {
                mr_td: mr_td@,
                report_data: report_data@,
            },
            Report::TD15 { mr_td, report_data } => ReportView::TD15 {
                mr_td: mr_td@,
                report_data: report_data@,
            },
        }
    }
}

impl ReportView {
    /// The data that the quote was made over.
    pub open spec fn data(self) -> Seq<u8> {
        match self {
            ReportView::SgxEnclave { report_data, .. } => report_data,
            ReportView::TD10 { report_data, .. } => report_data,
            ReportView::TD15 { report_data, .. } => report_data,
        }
    }
}

impl Report {
    /// The data that the quote was made over.
    pub fn report_data(&self) -> (res: &Vec<u8>)
        ensures
            res@ == self@.data(),
    {
        match self {
            Report::SgxEnclave { report_data, .. } => report_data,
            Report::TD10 { report_data, .. } => report_data,
            Report::TD15 { report_data, .. } => report_data,
        }
    }
}

/// What a report, or the lack of one, holds.
pub open spec fn report_view(report: Option<Report>) -> Option<ReportView> {
    match report {
        Some(report) => Some(report@),
        None => None,
    }
}

/// What a quote reports, where it can be read.
pub uninterp spec fn quote_report(quote: Seq<u8>) -> Option<ReportView>;

/// `dcap_qvl::quote::Quote::parse`, with the parts of the report that the
/// library reads. They are named, not spelled out: they depend on the bytes
/// alone.
#[verifier::external_body]
fn parse_quote(quote: &[u8]) -> (res: Option<Report>)
    ensures
        report_view(res) == quote_report(quote@),
{
    match dcap_qvl::quote::Quote::parse(quote).ok()?.report {
        dcap_qvl::quote::Report::SgxEnclave(r) => Some(Report::SgxEnclave {
            mr_enclave: r.mr_enclave.to_vec(),
            mr_signer: r.mr_signer.to_vec(),
            isv_svn: r.isv_svn,
            report_data: r.report_data.to_vec(),
        }),
        dcap_qvl::quote::Report::TD10(r) => Some(Report::TD10 { mr_td: r.mr_td.to_vec(), report_data: r.report_data.to_vec() }),
        dcap_qvl::quote::Report::TD15(r) => Some(Report::TD15 { mr_td: r.base.mr_td.to_vec(), report_data: r.base.report_data.to_vec() }),
    }
}

/// What a quote is verified against.
#[derive(Debug)]
pub struct Collateral {
    pub pck_crl_issuer_chain: String,
    pub root_ca_crl: Vec<u8>,
    pub pck_crl: Vec<u8>,
    pub tcb_info_issuer_chain: String,
    pub tcb_info: String,
    pub tcb_info_signature: Vec<u8>,
    pub qe_identity_issuer_chain: String,
    pub qe_identity: String,
    pub qe_identity_signature: Vec<u8>,
    pub pck_certificate_chain: Option<String>,
}

/// What a quote is verified against, over views.
pub struct CollateralView {
    pub pck_crl_issuer_chain: Seq<char>,
    pub root_ca_crl: Seq<u8>,
    pub pck_crl: Seq<u8>,
    pub tcb_info_issuer_chain: Seq<char>,
    pub tcb_info: Seq<char>,
    pub tcb_info_signature: Seq<u8>,
    pub qe_identity_issuer_chain: Seq<char>,
    pub qe_identity: Seq<char>,
    pub qe_identity_signature: Seq<u8>,
    pub pck_certificate_chain: Option<Seq<char>>,
}

impl View for Collateral {
    type V = CollateralView;

    open spec fn view(&self) -> CollateralView {
        CollateralView {
            pck_crl_issuer_chain: self.pck_crl_issuer_chain@,
            root_ca_crl: self.root_ca_crl@,
            pck_crl: self.pck_crl@,
            tcb_info_issuer_chain: self.tcb_info_issuer_chain@,
            tcb_info: self.tcb_info@,
            tcb_info_signature: self.tcb_info_signature@,
            qe_identity_issuer_chain: self.qe_identity_issuer_chain@,
            qe_identity: self.qe_identity@,
            qe_identity_signature: self.qe_identity_signature@,
            pck_certificate_chain: text::optional(self.pck_certificate_chain),
        }
    }
}

/// Whether a quote verifies against its collateral at a point in time, in
/// seconds since the Unix epoch.
pub uninterp spec fn quote_verifies(quote: Seq<u8>, collateral: CollateralView, now: u64) -> bool;

/// `dcap_qvl::verify::verify`. It accepts only quotes that can be read.
/// Whether it accepts is named, not spelled out: it depends on quote,
/// collateral and time alone. Nothing is said of the wording of a refusal,
/// which may carry a backtrace.
#[verifier::external_body]
fn verify_quote(quote: &[u8], collateral: &Collateral, now: u64) -> (res: Result<(), String>)
    ensures
        res is Ok <==> quote_verifies(quote@, collateral@, now),
        res is Ok ==> quote_report(quote@) is Some,
{
    let collateral = dcap_qvl::QuoteCollateralV3 {
        pck_crl_issuer_chain: collateral.pck_crl_issuer_chain.clone(),
        root_ca_crl: collateral.root_ca_crl.clone(),
        pck_crl: collateral.pck_crl.clone(),
        tcb_info_issuer_chain: collateral.tcb_info_issuer_chain.clone(),
        tcb_info: collateral.tcb_info.clone(),
        tcb_info_signature: collateral.tcb_info_signature.clone(),
        qe_identity_issuer_chain: collateral.qe_identity_issuer_chain.clone(),
        qe_identity: collateral.qe_identity.clone(),
        qe_identity_signature: collateral.qe_identity_signature.clone(),
        pck_certificate_chain: collateral.pck_certificate_chain.clone(),
    };
    dcap_qvl::verify::verify(quote, &collateral, now).map(|_| ()).map_err(|error| format!("{:?}", error))
}

/// The identifier of the extension that holds the quote:
/// 1.3.6.1.4.1.62397.1.1.
pub open spec fn quote_arc() -> Seq<u64> {
    seq![1, 3, 6, 1, 4, 1, 62397, 1, 1]
}

/// The identifier of the extension that holds the event log:
/// 1.3.6.1.4.1.62397.1.2.
pub open spec fn event_log_arc() -> Seq<u64> {
    seq![1, 3, 6, 1, 4, 1, 62397, 1, 2]
}

/// The two extensions have different identifiers, and both have a DER form.
pub proof fn extensions_are_told_apart()
    ensures
        certificate::oid_der(quote_arc()) == Some(
            seq![0x2bu8, 0x06, 0x01, 0x04, 0x01, 0x83, 0xe7, 0x3d, 0x01, 0x01],
        ),
        certificate::oid_der(event_log_arc()) == Some(
            seq![0x2bu8, 0x06, 0x01, 0x04, 0x01, 0x83, 0xe7, 0x3d, 0x01, 0x02],
        ),
        certificate::oid_der(quote_arc()) != certificate::oid_der(event_log_arc()),
{
    lemma_vendor_arc();
    let shared = seq![6u64, 1, 4, 1, 62397, 1];
    let quote = seq![6u64, 1, 4, 1, 62397, 1, 1];
    let event_log = seq![6u64, 1, 4, 1, 62397, 1, 2];
    assert(quote_arc().skip(2) =~= quote);
    assert(event_log_arc().skip(2) =~= event_log);
    assert(quote.drop_last() =~= shared);
    assert(event_log.drop_last() =~= shared);
    let quote_der = seq![0x2bu8, 0x06, 0x01, 0x04, 0x01, 0x83, 0xe7, 0x3d, 0x01, 0x01];
    let event_log_der = seq![0x2bu8, 0x06, 0x01, 0x04, 0x01, 0x83, 0xe7, 0x3d, 0x01, 0x02];
    assert(certificate::oid_der(quote_arc())->0 =~= quote_der);
    assert(certificate::oid_der(event_log_arc())->0 =~= event_log_der);
    assert(quote_der[9] != event_log_der[9]);
}

proof fn lemma_vendor_arc()
    ensures
        certificate::base128_all(seq![6u64, 1, 4, 1, 62397, 1]) == seq![
            0x06u8,
            0x01,
            0x04,
            0x01,
            0x83,
            0xe7,
            0x3d,
            0x01,
        ],
{
    reveal_with_fuel(certificate::base128, 3);
    let a1 = seq![6u64];
    let a2 = seq![6u64, 1];
    let a3 = seq![6u64, 1, 4];
    let a4 = seq![6u64, 1, 4, 1];
    let a5 = seq![6u64, 1, 4, 1, 62397];
    let a6 = seq![6u64, 1, 4, 1, 62397, 1];
    assert(a1.drop_last() =~= Seq::empty());
    assert(a2.drop_last() =~= a1);
    assert(a3.drop_last() =~= a2);
    assert(a4.drop_last() =~= a3);
    assert(a5.drop_last() =~= a4);
    assert(a6.drop_last() =~= a5);
    assert(certificate::base128_all(Seq::<u64>::empty()) =~= Seq::empty());
    assert(certificate::base128_all(a1) =~= seq![0x06u8]);
    assert(certificate::base128_all(a2) =~= seq![0x06u8, 0x01]);
    assert(certificate::base128_all(a3) =~= seq![0x06u8, 0x01, 0x04]);
    assert(certificate::base128_all(a4) =~= seq![0x06u8, 0x01, 0x04, 0x01]);
    assert(certificate::base128(62397, true) =~= seq![0x83u8, 0xe7, 0x3d]);
    assert(certificate::base128_all(a5) =~= seq![0x06u8, 0x01, 0x04, 0x01, 0x83, 0xe7, 0x3d]);
    assert(certificate::base128_all(a6) =~= seq![
        0x06u8,
        0x01,
        0x04,
        0x01,
        0x83,
        0xe7,
        0x3d,
        0x01,
    ]);
}

/// The bytes of the extension with this identifier, without the octet string
/// around them; `None` where there is no such extension.
pub open spec fn extension_octets(extensions: Seq<ExtensionValue>, oid: Option<Seq<u8>>) -> Result<
    Option<Seq<u8>>,
    Seq<char>,
> {
    match oid {
        None => Err("invalid RA-TLS OID arc"@),
        Some(oid) => match certificate::unique_extension(extensions, oid) {
            Err(()) => Err("failed to read X.509 extension"@),
            Ok(None) => Ok(None),
            Ok(Some(value)) => match certificate::der_octets(value) {
                Ok(bytes) => Ok(Some(bytes)),
                Err(problem) => Err(
                    "RA-TLS extension is not a valid DER OCTET STRING: "@ + problem,
                ),
            },
        },
    }
}

/// Attestation extracted from a peer's RA-TLS certificate. Holds the raw
/// quote bytes and (optionally) the TDX event log.
#[derive(Debug, Clone)]
pub struct Attestation {
    quote: Vec<u8>,
    raw_event_log: Vec<u8>,
}

/// An attestation, over views.
pub struct AttestationView {
    pub quote: Seq<u8>,
    pub raw_event_log: Seq<u8>,
}

impl View for Attestation {
    type V = AttestationView;

    closed spec fn view(&self) -> AttestationView {
        AttestationView { quote: self.quote@, raw_event_log: self.raw_event_log@ }
    }
}

/// The attestation among the extensions of a certificate. A certificate
/// without a quote has none; the event log may be missing.
pub open spec fn attestation_in(
    extensions: Seq<ExtensionValue>,
    quote_oid: Option<Seq<u8>>,
    event_log_oid: Option<Seq<u8>>,
) -> Result<Option<AttestationView>, Seq<char>> {
    match extension_octets(extensions, quote_oid) {
        Err(reason) => Err(reason),
        Ok(None) => Ok(None),
        Ok(Some(quote)) => match extension_octets(extensions, event_log_oid) {
            Err(reason) => Err(reason),
            Ok(log) => Ok(
                Some(
                    AttestationView {
                        quote,
                        raw_event_log: match log {
                            Some(log) => log,
                            None => Seq::empty(),
                        },
                    },
                ),
            ),
        },
    }
}

/// What an attestation, or the lack of one, holds.
pub open spec fn extracted(res: Result<Option<Attestation>, Rejection>) -> Result<
    Option<AttestationView>,
    Seq<char>,
> {
    match res {
        Ok(Some(attestation)) => Ok(Some(attestation@)),
        Ok(None) => Ok(None),
        Err(rejection) => Err(rejection@),
    }
}

/// What is said of bytes that are no certificate.
pub open spec fn not_a_certificate(problem: Seq<char>) -> Seq<char> {
    "failed to parse X.509 certificate: "@ + problem
}

/// The maker of the hardware, by the first bytes of a quote: a version in two
/// bytes, and a kind in four bytes from the fifth on, lowest byte first.
pub open spec fn vendor_of(quote: Seq<u8>) -> Result<TEEVendor, Seq<char>> {
    if quote.len() < 8 {
        Err(
            "quote too short ("@ + text::decimal(quote.len()) + " bytes) to determine vendor"@,
        )
    } else {
        let version = quote[0] + 256 * quote[1];
        let tee_type = quote[4] + 256 * quote[5] + 65_536 * quote[6] + 16_777_216 * quote[7];
        if version == 3 {
            Ok(TEEVendor::IntelSGX)
        } else if (version == 4 || version == 5) && tee_type == 0x81 {
            Ok(TEEVendor::IntelTDX)
        } else if (version == 4 || version == 5) && tee_type == 0 {
            Ok(TEEVendor::IntelSGX)
        } else {
            Ok(TEEVendor::AmdSevSnp)
        }
    }
}

/// The report data that binds a quote to a public key.
pub open spec fn key_binding(public_key: Seq<u8>) -> Seq<u8> {
    crypto::sha512(
        vstd::utf8::encode_utf8("ratls-cert"@) + vstd::utf8::encode_utf8(":"@) + public_key,
    )
}

/// Whether a quote is bound to a public key, by what it reports.
pub open spec fn binding_of(quote: Seq<u8>, report: Option<ReportView>, public_key: Seq<u8>) -> Result<
    (),
    Seq<char>,
> {
    match vendor_of(quote) {
        Err(reason) => Err(reason),
        Ok(TEEVendor::AmdSevSnp) => Err(
            "AMD SEV-SNP attestation verification is not implemented in this module; call-site must reject AMD before invoking verify_with_ra_pubkey"@,
        ),
        Ok(_) => match report {
            None => Err(
                "failed to decode report_data from quote for pubkey binding check"@,
            ),
            Some(report) => if report.data() == key_binding(public_key) {
                Ok(())
            } else {
                Err(
                    "RA-TLS quote report_data does not match peer public key binding (tag \"ratls-cert\")"@,
                )
            },
        },
    }
}

/// A result without a value, over views.
pub open spec fn judged(res: Result<(), Rejection>) -> Result<(), Seq<char>> {
    match res {
        Ok(()) => Ok(()),
        Err(rejection) => Err(rejection@),
    }
}

/// The service that collateral is fetched from: the one that is named, or the
/// one of the environment.
pub open spec fn pccs_url_of(explicit: Option<Seq<char>>, env: EnvView) -> Result<
    Seq<char>,
    Seq<char>,
> {
    match explicit {
        Some(url) if url.len() > 0 => Ok(url),
        _ => match env.readable() {
            Some(url) => Ok(url),
            None => Err(
                "PCCS URL not provided: pass pccs_url or set PCCS_URL environment variable"@,
            ),
        },
    }
}

/// Choose the service that collateral is fetched from.
pub fn resolve_pccs_url(explicit: Option<&str>, env: &EnvValue) -> (res: Result<String, Rejection>)
    ensures
        config::answer(res) == pccs_url_of(text::optional_str(explicit), env@),
{
    if let Some(url) = explicit {
        if !url.is_empty() {
            return Ok(url.to_owned());
        }
    }
    match env.get() {
        Some(url) => Ok(url.to_owned()),
        None => Err(
            rejected("PCCS URL not provided: pass pccs_url or set PCCS_URL environment variable"),
        ),
    }
}

fn get_extension_octets(certificate: &PeerCertificate, arc: &[u64]) -> (res: Result<
    Option<Vec<u8>>,
    Rejection,
>)
    ensures
        match res {
            Ok(bytes) => extension_octets(
                certificate@.extensions,
                certificate::oid_der(arc@),
            ) == Ok::<_, Seq<char>>(certificate::optional_bytes(bytes)),
            Err(rejection) => extension_octets(
                certificate@.extensions,
                certificate::oid_der(arc@),
            ) == Err::<Option<Seq<u8>>, _>(rejection@),
        },
{
    let oid = match certificate::encode_oid(arc) {
        Some(oid) => oid,
        None => return Err(rejected("invalid RA-TLS OID arc")),
    };
    let value = match certificate::get_extension_unique(&certificate.extensions, oid.as_slice()) {
        Ok(Some(value)) => value,
        Ok(None) => return Ok(None),
        Err(()) => return Err(rejected("failed to read X.509 extension")),
    };
    match certificate::read_octets(value.as_slice()) {
        Ok(bytes) => Ok(Some(bytes)),
        Err(problem) => {
            let reason = text::concat2(
                "RA-TLS extension is not a valid DER OCTET STRING: ",
                problem.as_str(),
            );
            Err(rejected(reason.as_str()))
        },
    }
}

impl Attestation {
    /// An attestation with this quote and this event log.
    pub fn new(quote: Vec<u8>, raw_event_log: Vec<u8>) -> (res: Self)
        ensures
            res@ == (AttestationView { quote: quote@, raw_event_log: raw_event_log@ }),
    {
        Attestation { quote, raw_event_log }
    }

    /// The bytes of the quote.
    pub fn quote(&self) -> (res: &Vec<u8>)
        ensures
            res@ == self@.quote,
    {
        &self.quote
    }

    /// The bytes of the event log; none where the certificate had no log.
    pub fn raw_event_log(&self) -> (res: &Vec<u8>)
        ensures
            res@ == self@.raw_event_log,
    {
        &self.raw_event_log
    }

    /// Extract the RA-TLS quote and event-log extensions of a certificate.
    pub fn from_certificate(certificate: &PeerCertificate) -> (res: Result<
        Option<Self>,
        Rejection,
    >)
        ensures
            extracted(res) == attestation_in(
                certificate@.extensions,
                certificate::oid_der(quote_arc()),
                certificate::oid_der(event_log_arc()),
            ),
    {
        let quote_oid: [u64; 9] = [1, 3, 6, 1, 4, 1, 62397, 1, 1];
        let event_log_oid: [u64; 9] = [1, 3, 6, 1, 4, 1, 62397, 1, 2];
        assert(quote_oid@ =~= quote_arc());
        assert(event_log_oid@ =~= event_log_arc());
        let quote = match get_extension_octets(certificate, &quote_oid) {
            Ok(Some(quote)) => quote,
            Ok(None) => return Ok(None),
            Err(rejection) => return Err(rejection),
        };
        let raw_event_log = match get_extension_octets(certificate, &event_log_oid) {
            Ok(Some(log)) => log,
            Ok(None) => Vec::new(),
            Err(rejection) => return Err(rejection),
        };
        Ok(Some(Attestation { quote, raw_event_log }))
    }

    /// Parse a peer X.509 certificate and extract the RA-TLS quote +
    /// event-log extensions. `Ok(None)` when the certificate has no quote
    /// extension (the caller decides whether absence is a hard error).
    pub fn from_der(cert_der: &[u8]) -> (res: Result<Option<Self>, Rejection>)
        ensures
            extracted(res) == (match certificate::x509_certificate(cert_der@) {
                Err(problem) => Err(not_a_certificate(problem)),
                Ok(certificate) => attestation_in(
                    certificate.extensions,
                    certificate::oid_der(quote_arc()),
                    certificate::oid_der(event_log_arc()),
                ),
            }),
    {
        match certificate::parse_certificate(cert_der) {
            Ok(certificate) => Self::from_certificate(&certificate),
            Err(problem) => {
                let reason = text::concat2(
                    "failed to parse X.509 certificate: ",
                    problem.as_str(),
                );
                Err(rejected(reason.as_str()))
            },
        }
    }

    /// Classify the TEE vendor from the leading bytes of the quote.
    ///
    /// Intel SGX/TDX quotes start with a version u16 LE in
    /// {3, 4, 5} and have a tee_type u32 LE at offset 4. Anything else
    /// is reported as AMD SEV-SNP.
    pub fn detect_vendor_from_quote(&self) -> (res: Result<TEEVendor, Rejection>)
        ensures
            match res {
                Ok(vendor) => vendor_of(self@.quote) == Ok::<_, Seq<char>>(vendor),
                Err(rejection) => vendor_of(self@.quote) == Err::<TEEVendor, _>(rejection@),
            },
    {
        let quote = &self.quote;
        if quote.len() < 8 {
            let count = text::to_decimal(quote.len() as u64);
            let reason = text::concat3(
                "quote too short (",
                count.as_str(),
                " bytes) to determine vendor",
            );
            return Err(rejected(reason.as_str()));
        }
        let version: u32 = quote[0] as u32 + 256 * quote[1] as u32;
        let tee_type: u32 = quote[4] as u32 + 256 * quote[5] as u32 + 65_536 * quote[6] as u32
            + 16_777_216 * quote[7] as u32;
        if version == 3 {
            Ok(TEEVendor::IntelSGX)
        } else if (version == 4 || version == 5) && tee_type == 0x81 {
            Ok(TEEVendor::IntelTDX)
        } else if (version == 4 || version == 5) && tee_type == 0 {
            Ok(TEEVendor::IntelSGX)
        } else {
            Ok(TEEVendor::AmdSevSnp)
        }
    }

    /// Check that the quote is bound to the peer certificate's public key, as
    /// a report of it shows.
    pub fn check_report(&self, report: Option<Report>, pubkey_der: &[u8]) -> (res: Result<
        (),
        Rejection,
    >)
        ensures
            judged(res) == binding_of(self@.quote, report_view(report), pubkey_der@),
    {
        let vendor = match self.detect_vendor_from_quote() {
            Ok(vendor) => vendor,
            Err(rejection) => return Err(rejection),
        };
        if matches!(vendor, TEEVendor::AmdSevSnp) {
            return Err(
                rejected(
                    "AMD SEV-SNP attestation verification is not implemented in this module; call-site must reject AMD before invoking verify_with_ra_pubkey",
                ),
            );
        }
        let mut bound: Vec<u8> = Vec::new();
        bound.extend_from_slice("ratls-cert".as_bytes());
        bound.extend_from_slice(":".as_bytes());
        bound.extend_from_slice(pubkey_der);
        assert(bound@ =~= vstd::utf8::encode_utf8("ratls-cert"@) + vstd::utf8::encode_utf8(":"@)
            + pubkey_der@);
        let expected = crypto::sha512_digest(bound.as_slice());
        let report = match report {
            Some(report) => report,
            None => return Err(
                rejected("failed to decode report_data from quote for pubkey binding check"),
            ),
        };
        if !certificate::same_bytes(report.report_data().as_slice(), expected.as_slice()) {
            return Err(
                rejected(
                    "RA-TLS quote report_data does not match peer public key binding (tag \"ratls-cert\")",
                ),
            );
        }
        Ok(())
    }

    /// Check that the quote is bound to the peer certificate's public key via
    /// the RA-TLS binding formula. This comes before any network I/O.
    pub fn check_binding(&self, pubkey_der: &[u8]) -> (res: Result<(), Rejection>)
        ensures
            judged(res) == binding_of(self@.quote, quote_report(self@.quote), pubkey_der@),
    {
        self.check_report(parse_quote(self.quote.as_slice()), pubkey_der)
    }

    /// Verify the quote against its collateral. AMD SEV-SNP quotes and quotes
    /// for another public key are rejected here.
    pub fn verify_with_ra_pubkey(&self, pubkey_der: &[u8], collateral: &Collateral, now_secs: u64) -> (res:
        Result<VerifiedAttestation, Rejection>)
        ensures
            verified_from(res, self@, pubkey_der@, collateral@, now_secs),
            quote_verifies(self@.quote, collateral@, now_secs) && binding_of(
                self@.quote,
                quote_report(self@.quote),
                pubkey_der@,
            ) is Ok ==> res is Ok,
    {
        match self.check_binding(pubkey_der) {
            Ok(()) => {},
            Err(rejection) => return Err(rejection),
        }
        match verify_quote(self.quote.as_slice(), collateral, now_secs) {
            Ok(()) => {},
            Err(problem) => {
                let reason = text::concat2(
                    "DCAP quote verification failed: ",
                    problem.as_str(),
                );
                proof {
                    let heading = "DCAP quote verification failed: "@;
                    assert(reason@.subrange(0, heading.len() as int) =~= heading);
                }
                return Err(rejected(reason.as_str()));
            },
        }
        match parse_quote(self.quote.as_slice()) {
            Some(report) => Ok(
                VerifiedAttestation {
                    report,
                    raw_event_log: pem::copy_bytes(self.raw_event_log.as_slice()),
                },
            ),
            None => Err(rejected("failed to parse quote")),
        }
    }
}

/// Successful verification result: what the quote reports, and the event log.
#[derive(Debug, Clone)]
pub struct VerifiedAttestation {
    pub report: Report,
    pub raw_event_log: Vec<u8>,
}

/// A record of the event log.
#[derive(Debug)]
pub struct TdxEvent {
    pub imr: u32,
    pub event: String,
    /// The payload in hexadecimal digits.
    pub event_payload: String,
}

/// Whether an event names the deployed composition.
pub open spec fn names_composition(event: TdxEvent) -> bool {
    event.imr == 3 && (event.event@ == "compose-hash"@ || event.event@ == "upgraded-app-id"@)
}

/// Whether the payloads of some events are all readable.
pub open spec fn payloads_readable(events: Seq<TdxEvent>) -> bool {
    forall|i: int|
        0 <= i < events.len() ==> encoding::hex_value((#[trigger] events[i]).event_payload@) is Some
}

/// The payload of the first event that names the deployed composition, in
/// hexadecimal digits.
pub open spec fn first_composition(events: Seq<TdxEvent>) -> Result<Seq<char>, Seq<char>>
    decreases events.len(),
{
    if events.len() == 0 {
        Err("compose-hash event not found in event log"@)
    } else if names_composition(events[0]) {
        Ok(encoding::hex_text(encoding::hex_value(events[0].event_payload@)->0))
    } else {
        first_composition(events.skip(1))
    }
}

/// The compose hash of an event log; `events` are its records, where it can be
/// read.
pub open spec fn compose_hash_of(raw_event_log: Seq<u8>, events: Option<Seq<TdxEvent>>) -> Result<
    Seq<char>,
    Seq<char>,
> {
    if raw_event_log.len() == 0 {
        Err("event log missing — cannot decode compose hash"@)
    } else {
        match events {
            None => Err("failed to parse RA-TLS event log JSON"@),
            Some(events) => if payloads_readable(events) {
                first_composition(events)
            } else {
                Err("failed to parse RA-TLS event log JSON"@)
            },
        }
    }
}

/// The records of an event log that may be unreadable.
pub open spec fn event_list(events: Option<Vec<TdxEvent>>) -> Option<Seq<TdxEvent>> {
    match events {
        Some(events) => Some(events@),
        None => None,
    }
}

fn decode_payloads(events: &Vec<TdxEvent>) -> (res: Option<Vec<Vec<u8>>>)
    ensures
        res is Some <==> payloads_readable(events@),
        res matches Some(payloads) ==> {
            &&& payloads@.len() == events@.len()
            &&& forall|i: int|
                0 <= i < events@.len() ==> encoding::hex_value(events@[i].event_payload@) == Some(
                    (#[trigger] payloads@[i])@,
                )
        },
{
    let mut payloads: Vec<Vec<u8>> = Vec::new();
    let n: usize = events.len();
    let mut i: usize = 0;
    while i < n
        invariant
            i <= n,
            n == events@.len(),
            payloads@.len() == i,
            forall|j: int|
                0 <= j < i ==> encoding::hex_value(events@[j].event_payload@) == Some(
                    (#[trigger] payloads@[j])@,
                ),
        decreases n - i,
    {
        match encoding::hex_decode(events[i].event_payload.as_str()) {
            Some(payload) => payloads.push(payload),
            None => {
                assert(!payloads_readable(events@)) by {
                    assert(encoding::hex_value(events@[i as int].event_payload@) is None);
                }
                return None;
            },
        }
        i = i + 1;
    }
    assert(payloads_readable(events@)) by {
        assert forall|j: int| 0 <= j < events@.len() implies encoding::hex_value(
            (#[trigger] events@[j]).event_payload@,
        ) is Some by {
            assert(payloads@[j]@ == payloads@[j]@);
        }
    }
    Some(payloads)
}

impl VerifiedAttestation {
    /// Decode the compose hash from the TDX event log, whose records are
    /// handed in where it can be read. `Err` if the event log is absent,
    /// malformed, or has no `compose-hash` / `upgraded-app-id` record under
    /// IMR 3.
    pub fn decode_compose_hash(&self, records: &Option<Vec<TdxEvent>>) -> (res: Result<
        String,
        Rejection,
    >)
        ensures
            config::answer(res) == compose_hash_of(self.raw_event_log@, event_list(*records)),
    {
        if self.raw_event_log.is_empty() {
            return Err(rejected("event log missing — cannot decode compose hash"));
        }
        let events = match records {
            Some(events) => events,
            None => return Err(rejected("failed to parse RA-TLS event log JSON")),
        };
        let payloads = match decode_payloads(events) {
            Some(payloads) => payloads,
            None => return Err(rejected("failed to parse RA-TLS event log JSON")),
        };
        let n: usize = events.len();
        let mut i: usize = 0;
        assert(events@.skip(0) =~= events@);
        while i < n
            invariant
                i <= n,
                n == events@.len(),
                self.raw_event_log@.len() > 0,
                event_list(*records) == Some(events@),
                payloads_readable(events@),
                payloads@.len() == n,
                forall|j: int|
                    0 <= j < n ==> encoding::hex_value(events@[j].event_payload@) == Some(
                        (#[trigger] payloads@[j])@,
                    ),
                first_composition(events@) == first_composition(events@.skip(i as int)),
            decreases n - i,
        {
            let event = &events[i];
            proof {
                assert(events@.skip(i as int)[0] == *event);
                assert(events@.skip(i as int).skip(1) =~= events@.skip(i + 1));
                assert(encoding::hex_value(event.event_payload@) == Some(payloads@[i as int]@));
            }
            if event.imr == 3 && (text::equal(event.event.as_str(), "compose-hash") || text::equal(
                event.event.as_str(),
                "upgraded-app-id",
            )) {
                return Ok(encoding::hex_encode(payloads[i].as_slice()));
            }
            i = i + 1;
        }
        Err(rejected("compose-hash event not found in event log"))
    }
}

/// For each kind of report it is the report data, and no measurement, that
/// binds a quote to a public key: a quote with a known Intel form is bound
/// exactly where its report data are the hash of the tag, a colon and the key.
pub proof fn report_data_bind_the_key(
    quote: Seq<u8>,
    public_key: Seq<u8>,
    measurement: Seq<u8>,
    signer: Seq<u8>,
    isv_svn: u16,
    report_data: Seq<u8>,
)
    ensures
        ({
            let tagged = vstd::utf8::encode_utf8("ratls-cert:"@) + public_key;
            let intel = vendor_of(quote) is Ok && vendor_of(quote)->Ok_0 != TEEVendor::AmdSevSnp;
            let bound = intel && report_data == crypto::sha512(tagged);
            &&& binding_of(
                quote,
                Some(ReportView::TD10 { mr_td: measurement, report_data }),
                public_key,
            ) is Ok <==> bound
            &&& binding_of(
                quote,
                Some(ReportView::TD15 { mr_td: measurement, report_data }),
                public_key,
            ) is Ok <==> bound
            &&& binding_of(
                quote,
                Some(
                    ReportView::SgxEnclave {
                        mr_enclave: measurement,
                        mr_signer: signer,
                        isv_svn,
                        report_data,
                    },
                ),
                public_key,
            ) is Ok <==> bound
            &&& binding_of(quote, None, public_key) is Err
        }),
{
    reveal_strlit("ratls-cert:");
    reveal_strlit("ratls-cert");
    reveal_strlit(":");
    assert("ratls-cert:"@ =~= "ratls-cert"@ + ":"@);
    encoding::lemma_utf8_concat("ratls-cert"@, ":"@);
}

/// The maker is told by the version in the first two bytes and the kind in the
/// fifth to eighth byte: version three is SGX, versions four and five are TDX
/// or SGX by their kind, and everything else is taken for AMD. No other byte
/// has a say.
pub proof fn makers_are_told_by_version_and_kind(quote: Seq<u8>, other: Seq<u8>)
    ensures
        vendor_of(quote) is Ok <==> quote.len() >= 8,
        quote.len() >= 8 && quote[0] == 3 && quote[1] == 0 ==> vendor_of(quote) == Ok::<
            _,
            Seq<char>,
        >(TEEVendor::IntelSGX),
        quote.len() >= 8 && (quote[0] == 4 || quote[0] == 5) && quote[1] == 0 && quote[4] == 0x81
            && quote[5] == 0 && quote[6] == 0 && quote[7] == 0 ==> vendor_of(quote) == Ok::<
            _,
            Seq<char>,
        >(TEEVendor::IntelTDX),
        quote.len() >= 8 && (quote[0] == 4 || quote[0] == 5) && quote[1] == 0 && quote[4] == 0
            && quote[5] == 0 && quote[6] == 0 && quote[7] == 0 ==> vendor_of(quote) == Ok::<
            _,
            Seq<char>,
        >(TEEVendor::IntelSGX),
        vendor_of(quote) == Ok::<_, Seq<char>>(TEEVendor::IntelTDX) ==> {
            &&& quote[1] == 0 && (quote[0] == 4 || quote[0] == 5)
            &&& quote[4] == 0x81 && quote[5] == 0 && quote[6] == 0 && quote[7] == 0
        },
        vendor_of(quote) == Ok::<_, Seq<char>>(TEEVendor::IntelSGX) ==> quote[1] == 0 && (quote[0]
            == 3 || {
            &&& quote[0] == 4 || quote[0] == 5
            &&& quote[4] == 0 && quote[5] == 0 && quote[6] == 0 && quote[7] == 0
        }),
        quote.len() >= 8 && other.len() >= 8 && quote[0] == other[0] && quote[1] == other[1]
            && quote[4] == other[4] && quote[5] == other[5] && quote[6] == other[6] && quote[7]
            == other[7] ==> vendor_of(quote) == vendor_of(other),
{
}

/// A certificate with a quote has an attestation with that quote, and with the
/// event log where there is one; one without a quote has none, whatever event
/// log it has. Two extensions of one identifier are refused.
pub proof fn attestations_come_from_their_extensions(
    extensions: Seq<ExtensionValue>,
    quote_oid: Seq<u8>,
    event_log_oid: Seq<u8>,
)
    ensures
        ({
            let res = attestation_in(extensions, Some(quote_oid), Some(event_log_oid));
            let quote = certificate::unique_extension(extensions, quote_oid);
            let log = certificate::unique_extension(extensions, event_log_oid);
            &&& quote is Err ==> res is Err
            &&& quote == Ok::<Option<Seq<u8>>, ()>(None) ==> res == Ok::<
                Option<AttestationView>,
                Seq<char>,
            >(None)
            &&& res matches Ok(Some(found)) ==> {
                &&& quote matches Ok(Some(value)) && certificate::der_octets(value) == Ok::<
                    _,
                    Seq<char>,
                >(found.quote)
                &&& match log {
                    Err(()) => false,
                    Ok(None) => found.raw_event_log.len() == 0,
                    Ok(Some(value)) => certificate::der_octets(value) == Ok::<_, Seq<char>>(
                        found.raw_event_log,
                    ),
                }
            }
            &&& quote is Ok && quote->Ok_0 is Some && certificate::der_octets(
                quote->Ok_0->0,
            ) is Ok && log == Ok::<Option<Seq<u8>>, ()>(None) ==> res is Ok && res->Ok_0 is Some
            &&& quote is Ok && quote->Ok_0 is Some && log is Err ==> res is Err
        }),
{
}

/// The compose hash is that of the first event under register three that names
/// the composition, whatever stands behind it; other events are passed over.
/// An unreadable payload anywhere spoils the log.
pub proof fn first_composition_counts(
    log: Seq<u8>,
    passed: Seq<TdxEvent>,
    event: TdxEvent,
    behind: Seq<TdxEvent>,
)
    requires
        log.len() > 0,
        forall|i: int|
            0 <= i < passed.len() ==> {
                let e = #[trigger] passed[i];
                e.imr != 3 || (e.event@ != "compose-hash"@ && e.event@ != "upgraded-app-id"@)
            },
        event.imr == 3,
        event.event@ == "compose-hash"@ || event.event@ == "upgraded-app-id"@,
    ensures
        ({
            let events = passed.push(event) + behind;
            &&& payloads_readable(events) ==> compose_hash_of(log, Some(events)) == Ok::<
                _,
                Seq<char>,
            >(encoding::hex_text(encoding::hex_value(event.event_payload@)->0))
            &&& !payloads_readable(events) ==> compose_hash_of(log, Some(events)) is Err
            &&& compose_hash_of(log, Some(passed)) is Err
            &&& compose_hash_of(log, None) is Err
            &&& compose_hash_of(Seq::empty(), Some(events)) is Err
        }),
{
    lemma_passed_over(passed, passed.push(event) + behind, 0);
    lemma_passed_over(passed, passed, 0);
    let events = passed.push(event) + behind;
    assert(events.skip(0) =~= events);
    assert(passed.skip(0) =~= passed);
    assert(events.skip(passed.len() as int)[0] == event);
}

proof fn lemma_passed_over(passed: Seq<TdxEvent>, events: Seq<TdxEvent>, at: int)
    requires
        0 <= at <= passed.len() <= events.len(),
        forall|i: int| 0 <= i < passed.len() ==> events[i] == #[trigger] passed[i],
        forall|i: int| 0 <= i < passed.len() ==> !names_composition(#[trigger] passed[i]),
    ensures
        first_composition(events.skip(at)) == first_composition(events.skip(passed.len() as int)),
    decreases passed.len() - at,
{
    if at < passed.len() {
        assert(events.skip(at)[0] == passed[at]);
        assert(events.skip(at).skip(1) =~= events.skip(at + 1));
        lemma_passed_over(passed, events, at + 1);
    }
}

/// The service for collateral is the one that is named, unless that is empty;
/// only without one does the environment count, and without either there is
/// none.
pub proof fn named_services_come_first(named: Seq<char>, env: EnvView)
    ensures
        named.len() > 0 ==> pccs_url_of(Some(named), env) == Ok::<_, Seq<char>>(named),
        named.len() == 0 ==> pccs_url_of(Some(named), env) == pccs_url_of(None, env),
        env matches EnvView::Present(url) ==> pccs_url_of(None, env) == Ok::<_, Seq<char>>(url),
        !(env is Present) ==> pccs_url_of(None, env) is Err,
{
}

/// Whether this is what verifying an attestation against its collateral gives.
pub open spec fn verified_from(
    res: Result<VerifiedAttestation, Rejection>,
    attestation: AttestationView,
    pubkey: Seq<u8>,
    collateral: CollateralView,
    now: u64,
) -> bool {
    let report = quote_report(attestation.quote);
    match res {
        Ok(verified) => {
            &&& quote_verifies(attestation.quote, collateral, now)
            &&& binding_of(attestation.quote, report, pubkey) is Ok
            &&& report == Some(verified.report@)
            &&& verified.report@.data() == key_binding(pubkey)
            &&& verified.raw_event_log@ == attestation.raw_event_log
        },
        Err(rejection) => {
            ||| binding_of(attestation.quote, report, pubkey) == Err::<(), _>(rejection@)
            ||| {
                &&& binding_of(attestation.quote, report, pubkey) is Ok
                &&& !quote_verifies(attestation.quote, collateral, now)
                &&& text::begins_with(rejection@, "DCAP quote verification failed: "@)
            }
        },
    }
}

/// An attestation verifies exactly where its quote is bound to the public key
/// and holds against the collateral at this time. What comes out is what that
/// very quote reports, with the event log that came with it.
pub proof fn verified_attestations_are_bound(
    res: Result<VerifiedAttestation, Rejection>,
    attestation: AttestationView,
    pubkey: Seq<u8>,
    collateral: CollateralView,
    now: u64,
)
    requires
        verified_from(res, attestation, pubkey, collateral, now),
    ensures
        res is Ok <==> quote_verifies(attestation.quote, collateral, now) && binding_of(
            attestation.quote,
            quote_report(attestation.quote),
            pubkey,
        ) is Ok,
        res matches Ok(verified) ==> {
            &&& quote_report(attestation.quote) == Some(verified.report@)
            &&& verified.raw_event_log@ == attestation.raw_event_log
        },
{
}

} // verus!
