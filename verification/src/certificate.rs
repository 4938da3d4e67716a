//! What the library reads of X.509 certificates.

use crate::pem;
use crate::text;
use vstd::prelude::*;
use x509_parser::prelude::{FromDer, GeneralName, X509Certificate};

verus! {

/// An extension of a certificate: its identifier and its value, in DER.
#[derive(Debug)]
pub struct CertExtension {
    pub oid: Vec<u8>,
    pub value: Vec<u8>,
}

/// An extension of a certificate, over views.
pub struct ExtensionValue {
    pub oid: Seq<u8>,
    pub value: Seq<u8>,
}

impl View for CertExtension {
    type V = ExtensionValue;

    open spec fn view(&self) -> ExtensionValue {
        ExtensionValue { oid: self.oid@, value: self.value@ }
    }
}

fn extension_of(oid: &[u8], value: &[u8]) -> (res: CertExtension)
    ensures
        res@ == (ExtensionValue { oid: oid@, value: value@ }),
{
    CertExtension { oid: pem::copy_bytes(oid), value: pem::copy_bytes(value) }
}

/// The parts of a certificate that the library reads.
#[derive(Debug)]
pub struct PeerCertificate {
    /// The common names of the subject, in order; `None` for one that is no
    /// text.
    pub common_names: Vec<Option<String>>,
    /// The subject alternative names, in order: the URIs, and `None` for each
    /// name of another kind.
    pub alternative_names: Vec<Option<String>>,
    /// The bytes of the public key.
    pub public_key: Vec<u8>,
    pub extensions: Vec<CertExtension>,
}

/// The parts of a certificate, over views.
pub struct CertificateView {
    pub common_names: Seq<Option<Seq<char>>>,
    pub alternative_names: Seq<Option<Seq<char>>>,
    pub public_key: Seq<u8>,
    pub extensions: Seq<ExtensionValue>,
}

/// The views of a list of texts that may be absent.
pub open spec fn optional_views(list: Seq<Option<String>>) -> Seq<Option<Seq<char>>> {
    list.map_values(|item: Option<String>| text::optional(item))
}

/// The views of a list of extensions.
pub open spec fn extension_views(list: Seq<CertExtension>) -> Seq<ExtensionValue> {
    list.map_values(|item: CertExtension| item@)
}

impl View for PeerCertificate {
    type V = CertificateView;

    open spec fn view(&self) -> CertificateView {
        CertificateView {
            common_names: optional_views(self.common_names@),
            alternative_names: optional_views(self.alternative_names@),
            public_key: self.public_key@,
            extensions: extension_views(self.extensions@),
        }
    }
}

/// The certificate that some bytes encode, or what is wrong with them.
pub uninterp spec fn x509_certificate(der: Seq<u8>) -> Result<CertificateView, Seq<char>>;

/// What a certificate, or the lack of one, holds.
pub open spec fn certificate_view(res: Result<PeerCertificate, String>) -> Result<
    CertificateView,
    Seq<char>,
> {
    match res {
        Ok(certificate) => Ok(certificate@),
        Err(problem) => Err(problem@),
    }
}

/// `X509Certificate::from_der` of the crate `x509-parser`, with the parts that
/// the library reads. Alternative names that cannot be read count as none. The
/// parts are named, not spelled out: they depend on the bytes alone.
#[verifier::external_body]
pub(crate) fn parse_certificate(der: &[u8]) -> (res: Result<PeerCertificate, String>)
    ensures
        certificate_view(res) == x509_certificate(der@),
{
    let (_, cert) = X509Certificate::from_der(der).map_err(|error| error.to_string())?;
    let uri = |name| match name {
        &GeneralName::URI(uri) => Some(String::from(uri)),
        _ => None,
    };
    Ok(PeerCertificate {
        common_names: cert.subject().iter_common_name().map(|cn| cn.as_str().ok().map(String::from)).collect(),
        alternative_names: cert.subject_alternative_name().ok().flatten().iter().flat_map(|san| &san.value.general_names).map(uri).collect(),
        public_key: cert.public_key().subject_public_key.data.to_vec(),
        extensions: cert.extensions().iter().map(|e| extension_of(e.oid.as_bytes(), e.value)).collect(),
    })
}

/// A number in groups of seven bits, highest first; each but the last has the
/// top bit set.
pub open spec fn base128(n: nat, last: bool) -> Seq<u8>
    decreases n,
{
    let group = (n % 128 + (if last {
        0nat
    } else {
        128nat
    })) as u8;
    if n < 128 {
        seq![group]
    } else {
        base128(n / 128, false).push(group)
    }
}

/// Numbers one after the other, each in groups of seven bits.
pub open spec fn base128_all(arc: Seq<u64>) -> Seq<u8>
    decreases arc.len(),
{
    if arc.len() == 0 {
        Seq::empty()
    } else {
        base128_all(arc.drop_last()) + base128(arc.last() as nat, true)
    }
}

/// The DER form of an object identifier, without its header: the first two
/// numbers in one byte, then the others. `None` where there are too few
/// numbers or the first two are too large.
pub open spec fn oid_der(arc: Seq<u64>) -> Option<Seq<u8>> {
    if arc.len() < 2 {
        if arc.len() == 1 && arc[0] == 0 {
            Some(seq![0u8])
        } else {
            None
        }
    } else if arc[0] >= 7 || arc[1] >= 40 {
        None
    } else {
        Some(seq![((arc[0] * 40 + arc[1]) % 256) as u8] + base128_all(arc.skip(2)))
    }
}

/// The contents of bytes that may be absent.
pub open spec fn optional_bytes(bytes: Option<Vec<u8>>) -> Option<Seq<u8>> {
    match bytes {
        Some(bytes) => Some(bytes@),
        None => None,
    }
}

/// `Oid::from` and `Oid::as_bytes` of the crate `x509-parser` (from `asn1-rs`).
/// The first two numbers are put into one byte, of which the lowest eight bits
/// are kept, and the others are written in groups of seven bits.
#[verifier::external_body]
pub(crate) fn encode_oid(arc: &[u64]) -> (res: Option<Vec<u8>>)
    ensures
        optional_bytes(res) == oid_der(arc@),
{
    let oid = x509_parser::der_parser::oid::Oid::from(arc).ok()?;
    Some(oid.as_bytes().to_vec())
}

/// The bytes inside a DER octet string, or what is wrong with it.
pub uninterp spec fn der_octets(value: Seq<u8>) -> Result<Seq<u8>, Seq<char>>;

/// What some bytes, or the lack of them, hold.
pub open spec fn octets_view(res: Result<Vec<u8>, String>) -> Result<Seq<u8>, Seq<char>> {
    match res {
        Ok(bytes) => Ok(bytes@),
        Err(problem) => Err(problem@),
    }
}

/// `yasna::parse_der` with `read_bytes`. The contents are named, not spelled
/// out: they depend on the bytes alone.
#[verifier::external_body]
pub(crate) fn read_octets(value: &[u8]) -> (res: Result<Vec<u8>, String>)
    ensures
        octets_view(res) == der_octets(value@),
{
    yasna::parse_der(value, |reader| reader.read_bytes()).map_err(|error| format!("{:?}", error))
}

/// The value of the one extension with this identifier; `Err` where there are
/// two or more.
pub open spec fn unique_extension(extensions: Seq<ExtensionValue>, oid: Seq<u8>) -> Result<
    Option<Seq<u8>>,
    (),
>
    decreases extensions.len(),
{
    if extensions.len() == 0 {
        Ok(None)
    } else {
        match unique_extension(extensions.drop_last(), oid) {
            Err(()) => Err(()),
            Ok(found) => if extensions.last().oid != oid {
                Ok(found)
            } else if found is Some {
                Err(())
            } else {
                Ok(Some(extensions.last().value))
            },
        }
    }
}

proof fn lemma_duplicate_stays(extensions: Seq<ExtensionValue>, oid: Seq<u8>, n: int)
    requires
        0 <= n <= extensions.len(),
        unique_extension(extensions.take(n), oid) is Err,
    ensures
        unique_extension(extensions, oid) is Err,
    decreases extensions.len(),
{
    if n < extensions.len() {
        assert(extensions.drop_last().take(n) =~= extensions.take(n));
        lemma_duplicate_stays(extensions.drop_last(), oid, n);
    } else {
        assert(extensions.take(n) =~= extensions);
    }
}

/// Two byte strings are the same when their bytes are.
pub(crate) fn same_bytes(a: &[u8], b: &[u8]) -> (res: bool)
    ensures
        res == (a@ == b@),
{
    if a.len() != b.len() {
        return false;
    }
    let n: usize = a.len();
    let mut i: usize = 0;
    while i < n
        invariant
            i <= n,
            n == a@.len(),
            n == b@.len(),
            forall|j: int| 0 <= j < i ==> a@[j] == b@[j],
        decreases n - i,
    {
        if a[i] != b[i] {
            return false;
        }
        i = i + 1;
    }
    assert(a@ =~= b@);
    true
}

/// Find the value of the one extension with this identifier; `Err` where there
/// are two or more.
pub fn get_extension_unique(extensions: &Vec<CertExtension>, oid: &[u8]) -> (res: Result<
    Option<Vec<u8>>,
    (),
>)
    ensures
        match res {
            Ok(value) => unique_extension(extension_views(extensions@), oid@) == Ok::<_, ()>(
                optional_bytes(value),
            ),
            Err(()) => unique_extension(extension_views(extensions@), oid@) is Err,
        },
{
    let ghost all = extension_views(extensions@);
    let mut found: Option<Vec<u8>> = None;
    let n: usize = extensions.len();
    let mut i: usize = 0;
    assert(all.take(0) =~= Seq::empty());
    while i < n
        invariant
            i <= n,
            n == extensions@.len(),
            all == extension_views(extensions@),
            unique_extension(all.take(i as int), oid@) == Ok::<_, ()>(optional_bytes(found)),
        decreases n - i,
    {
        proof {
            assert(all.take(i + 1).drop_last() =~= all.take(i as int));
            assert(all.take(i + 1).last() == extensions@[i as int]@);
        }
        if same_bytes(extensions[i].oid.as_slice(), oid) {
            if found.is_some() {
                proof {
                    lemma_duplicate_stays(all, oid@, i + 1);
                }
                return Err(());
            }
            found = Some(pem::copy_bytes(extensions[i].value.as_slice()));
        }
        i = i + 1;
    }
    assert(all.take(n as int) =~= all);
    Ok(found)
}

/// The value of an extension is found exactly where one extension has the
/// identifier: none is found where none has it, and two are refused.
pub proof fn extensions_are_found_alone(extensions: Seq<ExtensionValue>, oid: Seq<u8>)
    ensures
        match unique_extension(extensions, oid) {
            Ok(None) => forall|i: int|
                0 <= i < extensions.len() ==> (#[trigger] extensions[i]).oid != oid,
            Ok(Some(value)) => exists|i: int|
                {
                    &&& 0 <= i < extensions.len()
                    &&& #[trigger] extensions[i] == (ExtensionValue { oid, value })
                    &&& forall|j: int|
                        0 <= j < extensions.len() && (#[trigger] extensions[j]).oid == oid ==> j
                            == i
                },
            Err(()) => exists|i: int, j: int|
                {
                    &&& 0 <= i < j < extensions.len()
                    &&& (#[trigger] extensions[i]).oid == oid
                    &&& (#[trigger] extensions[j]).oid == oid
                },
        },
    decreases extensions.len(),
{
    if extensions.len() > 0 {
        let rest = extensions.drop_last();
        let last = extensions.len() - 1;
        extensions_are_found_alone(rest, oid);
        assert(forall|i: int| 0 <= i < rest.len() ==> rest[i] == extensions[i]);
        assert(extensions[last] == extensions.last());
        match unique_extension(rest, oid) {
            Err(()) => {
                let (i, j) = choose|i: int, j: int|
                    {
                        &&& 0 <= i < j < rest.len()
                        &&& (#[trigger] rest[i]).oid == oid
                        &&& (#[trigger] rest[j]).oid == oid
                    };
                assert(extensions[i].oid == oid && extensions[j].oid == oid);
            },
            Ok(None) => {
                assert forall|j: int|
                    0 <= j < extensions.len() && (#[trigger] extensions[j]).oid == oid implies j
                    == last by {
                    if j < rest.len() {
                        assert(rest[j].oid != oid);
                    }
                }
                if extensions[last].oid == oid {
                    assert(extensions[last] == (ExtensionValue {
                        oid,
                        value: extensions[last].value,
                    }));
                } else {
                    assert forall|i: int| 0 <= i < extensions.len() implies (
                    #[trigger] extensions[i]).oid != oid by {
                        if i < rest.len() {
                            assert(rest[i].oid != oid);
                        }
                    }
                }
            },
            Ok(Some(value)) => {
                let i = choose|i: int|
                    {
                        &&& 0 <= i < rest.len()
                        &&& #[trigger] rest[i] == (ExtensionValue { oid, value })
                        &&& forall|j: int|
                            0 <= j < rest.len() && (#[trigger] rest[j]).oid == oid ==> j == i
                    };
                assert(extensions[i] == (ExtensionValue { oid, value }));
                if extensions[last].oid == oid {
                    assert(extensions[i].oid == oid && extensions[last].oid == oid);
                } else {
                    assert forall|j: int|
                        0 <= j < extensions.len() && (#[trigger] extensions[j]).oid
                            == oid implies j == i by {
                        if j < rest.len() {
                            assert(rest[j].oid == oid);
                        }
                    }
                }
            },
        }
    }
}

} // verus!
