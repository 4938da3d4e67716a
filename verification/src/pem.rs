//! Certificates and keys in PEM files.

use crate::config;
use crate::error::{rejected, Rejection};
use vstd::prelude::*;

verus! {

/// One section of a PEM file.
#[derive(Debug)]
pub enum PemItem {
    Certificate(Vec<u8>),
    Pkcs1Key(Vec<u8>),
    Pkcs8Key(Vec<u8>),
    Sec1Key(Vec<u8>),
    Other,
}

/// One section of a PEM file, over views.
pub enum PemView {
    Certificate(Seq<u8>),
    Pkcs1Key(Seq<u8>),
    Pkcs8Key(Seq<u8>),
    Sec1Key(Seq<u8>),
    Other,
}

impl View for PemItem {
    type V = PemView;

    open spec fn view(&self) -> PemView {
        match self {
            PemItem::Certificate(der) => PemView::Certificate(der@),
            PemItem::Pkcs1Key(der) => PemView::Pkcs1Key(der@),
            PemItem::Pkcs8Key(der) => PemView::Pkcs8Key(der@),
            PemItem::Sec1Key(der) => PemView::Sec1Key(der@),
            PemItem::Other => PemView::Other,
        }
    }
}

/// A section, or what is wrong with it, over views.
pub open spec fn section(item: Result<PemItem, String>) -> Result<PemView, Seq<char>> {
    match item {
        Ok(item) => Ok(item@),
        Err(problem) => Err(problem@),
    }
}

/// Sections over views.
pub open spec fn sections(items: Seq<Result<PemItem, String>>) -> Seq<Result<PemView, Seq<char>>> {
    items.map_values(|item: Result<PemItem, String>| section(item))
}

/// The sections of a PEM file, in order, each with its bytes or with what is
/// wrong with it.
pub uninterp spec fn pem_sections(bytes: Seq<u8>) -> Seq<Result<PemView, Seq<char>>>;

/// `rustls_pemfile::read_all`, with the bytes of the certificates and private
/// keys. The sections are named, not spelled out: they depend on the bytes of
/// the file alone.
#[verifier::external_body]
pub(crate) fn read_sections(bytes: &[u8]) -> (res: Vec<Result<PemItem, String>>)
    ensures
        sections(res@) == pem_sections(bytes@),
{
    let convert = |item| match item {
        rustls_pemfile::Item::X509Certificate(der) => PemItem::Certificate(der.to_vec()),
        rustls_pemfile::Item::Pkcs1Key(der) => PemItem::Pkcs1Key(der.secret_pkcs1_der().to_vec()),
        rustls_pemfile::Item::Pkcs8Key(der) => PemItem::Pkcs8Key(der.secret_pkcs8_der().to_vec()),
        rustls_pemfile::Item::Sec1Key(der) => PemItem::Sec1Key(der.secret_sec1_der().to_vec()),
        _ => PemItem::Other,
    };
    let mut reader = bytes;
    rustls_pemfile::read_all(&mut reader)
        .map(|item| item.map(convert).map_err(|error| error.to_string()))
        .collect()
}

/// How a private key is written.
#[derive(Clone, Copy, Debug, PartialEq, Eq, Structural)]
pub enum KeyFormat {
    Pkcs1,
    Pkcs8,
    Sec1,
}

/// A private key and how it is written.
#[derive(Debug)]
pub struct PrivateKey {
    pub format: KeyFormat,
    pub der: Vec<u8>,
}

/// A private key and how it is written, over views.
pub struct KeyView {
    pub format: KeyFormat,
    pub der: Seq<u8>,
}

impl View for PrivateKey {
    type V = KeyView;

    open spec fn view(&self) -> KeyView {
        KeyView { format: self.format, der: self.der@ }
    }
}

/// The views of a list of byte strings.
pub open spec fn byte_views(list: Seq<Vec<u8>>) -> Seq<Seq<u8>> {
    list.map_values(|item: Vec<u8>| item@)
}

/// The certificates among some sections, or the first section that is wrong.
pub open spec fn certificates(items: Seq<Result<PemView, Seq<char>>>) -> Result<
    Seq<Seq<u8>>,
    Seq<char>,
>
    decreases items.len(),
{
    if items.len() == 0 {
        Ok(Seq::empty())
    } else {
        match certificates(items.drop_last()) {
            Err(problem) => Err(problem),
            Ok(found) => match items.last() {
                Err(problem) => Err(problem),
                Ok(PemView::Certificate(der)) => Ok(found.push(der)),
                Ok(_) => Ok(found),
            },
        }
    }
}

/// The first private key among some sections, unless a wrong section comes
/// before it.
pub open spec fn first_key(items: Seq<Result<PemView, Seq<char>>>) -> Result<KeyView, Seq<char>>
    decreases items.len(),
{
    if items.len() == 0 {
        Err("no private key found in bundle"@)
    } else {
        match items[0] {
            Err(problem) => Err(problem),
            Ok(PemView::Pkcs8Key(der)) => Ok(KeyView { format: KeyFormat::Pkcs8, der }),
            Ok(PemView::Pkcs1Key(der)) => Ok(KeyView { format: KeyFormat::Pkcs1, der }),
            Ok(PemView::Sec1Key(der)) => Ok(KeyView { format: KeyFormat::Sec1, der }),
            Ok(_) => first_key(items.skip(1)),
        }
    }
}

/// The certificates of a bundle, which has to hold one.
pub open spec fn chain_of(items: Seq<Result<PemView, Seq<char>>>, lacking: Seq<char>) -> Result<
    Seq<Seq<u8>>,
    Seq<char>,
> {
    match certificates(items) {
        Err(problem) => Err(problem),
        Ok(found) => if found.len() == 0 {
            Err(lacking)
        } else {
            Ok(found)
        },
    }
}

/// What a chain of certificates, or the lack of one, holds.
pub open spec fn chain_view(res: Result<Vec<Vec<u8>>, Rejection>) -> Result<
    Seq<Seq<u8>>,
    Seq<char>,
> {
    match res {
        Ok(chain) => Ok(byte_views(chain@)),
        Err(rejection) => Err(rejection@),
    }
}

proof fn lemma_certificates_fail(items: Seq<Result<PemView, Seq<char>>>, n: int)
    requires
        0 <= n <= items.len(),
        certificates(items.take(n)) is Err,
    ensures
        certificates(items) == certificates(items.take(n)),
    decreases items.len(),
{
    if n < items.len() {
        assert(items.drop_last().take(n) =~= items.take(n));
        lemma_certificates_fail(items.drop_last(), n);
    } else {
        assert(items.take(n) =~= items);
    }
}

/// Collect the certificates among some sections, which have to hold one.
pub fn collect_certificates(items: Vec<Result<PemItem, String>>, lacking: &str) -> (res: Result<
    Vec<Vec<u8>>,
    Rejection,
>)
    ensures
        chain_view(res) == chain_of(sections(items@), lacking@),
{
    let ghost all = sections(items@);
    let mut found: Vec<Vec<u8>> = Vec::new();
    assert(all.take(0) =~= Seq::empty());
    assert(byte_views(found@) =~= Seq::empty());
    let n: usize = items.len();
    let mut i: usize = 0;
    while i < n
        invariant
            i <= n,
            n == items@.len(),
            all == sections(items@),
            certificates(all.take(i as int)) == Ok::<_, Seq<char>>(byte_views(found@)),
        decreases n - i,
    {
        let ghost before = byte_views(found@);
        proof {
            assert(all.take(i + 1).drop_last() =~= all.take(i as int));
            assert(all.take(i + 1).last() == section(items@[i as int]));
        }
        match &items[i] {
            Err(problem) => {
                proof {
                    lemma_certificates_fail(all, i + 1);
                }
                return Err(rejected(problem.as_str()));
            },
            Ok(PemItem::Certificate(der)) => {
                let copy = copy_bytes(der.as_slice());
                found.push(copy);
                assert(byte_views(found@) =~= before.push(der@));
            },
            Ok(_) => {},
        }
        i = i + 1;
    }
    assert(all.take(n as int) =~= all);
    if found.len() == 0 {
        return Err(rejected(lacking));
    }
    Ok(found)
}

/// Some bytes once more.
pub(crate) fn copy_bytes(bytes: &[u8]) -> (res: Vec<u8>)
    ensures
        res@ == bytes@,
{
    let mut out: Vec<u8> = Vec::new();
    out.extend_from_slice(bytes);
    assert(out@ =~= bytes@);
    out
}

/// Find the first private key among some sections.
pub fn find_private_key(items: Vec<Result<PemItem, String>>) -> (res: Result<
    PrivateKey,
    Rejection,
>)
    ensures
        config::answer(res) == first_key(sections(items@)),
{
    let ghost all = sections(items@);
    let n: usize = items.len();
    let mut i: usize = 0;
    assert(all.skip(0) =~= all);
    while i < n
        invariant
            i <= n,
            n == items@.len(),
            all == sections(items@),
            first_key(all) == first_key(all.skip(i as int)),
        decreases n - i,
    {
        proof {
            assert(all.skip(i as int)[0] == section(items@[i as int]));
            assert(all.skip(i as int).skip(1) =~= all.skip(i + 1));
        }
        match &items[i] {
            Err(problem) => return Err(rejected(problem.as_str())),
            Ok(PemItem::Pkcs8Key(der)) => return Ok(
                PrivateKey { format: KeyFormat::Pkcs8, der: copy_bytes(der.as_slice()) },
            ),
            Ok(PemItem::Pkcs1Key(der)) => return Ok(
                PrivateKey { format: KeyFormat::Pkcs1, der: copy_bytes(der.as_slice()) },
            ),
            Ok(PemItem::Sec1Key(der)) => return Ok(
                PrivateKey { format: KeyFormat::Sec1, der: copy_bytes(der.as_slice()) },
            ),
            Ok(_) => {},
        }
        i = i + 1;
    }
    Err(rejected("no private key found in bundle"))
}

/// Read the certificates of a client bundle.
pub fn parse_cert_chain(bytes: &[u8]) -> (res: Result<Vec<Vec<u8>>, Rejection>)
    ensures
        chain_view(res) == chain_of(
            pem_sections(bytes@),
            "no certificates found in client bundle"@,
        ),
{
    collect_certificates(read_sections(bytes), "no certificates found in client bundle")
}

/// Read the private key of a client bundle.
pub fn parse_private_key(bytes: &[u8]) -> (res: Result<PrivateKey, Rejection>)
    ensures
        config::answer(res) == first_key(pem_sections(bytes@)),
{
    find_private_key(read_sections(bytes))
}

/// The certificates of a bundle of authorities.
pub open spec fn authorities_of(items: Seq<Result<PemView, Seq<char>>>) -> Result<
    Seq<Seq<u8>>,
    Seq<char>,
> {
    match certificates(items) {
        Err(problem) => Err("failed to parse local loopback CA cert bundle"@),
        Ok(found) => if found.len() == 0 {
            Err("local loopback CA bundle did not contain any certificates"@)
        } else {
            Ok(found)
        },
    }
}

/// Read the certificates of the authorities for the loopback connection.
pub fn parse_loopback_authorities(bytes: &[u8]) -> (res: Result<Vec<Vec<u8>>, Rejection>)
    ensures
        chain_view(res) == authorities_of(pem_sections(bytes@)),
{
    authorities_among(read_sections(bytes))
}

/// Collect the certificates of authorities among some sections.
pub fn authorities_among(items: Vec<Result<PemItem, String>>) -> (res: Result<
    Vec<Vec<u8>>,
    Rejection,
>)
    ensures
        chain_view(res) == authorities_of(sections(items@)),
{
    let lacking = "local loopback CA bundle did not contain any certificates";
    let whole = all_sound(&items);
    match collect_certificates(items, lacking) {
        Ok(found) => Ok(found),
        Err(rejection) => if whole {
            Err(rejected(lacking))
        } else {
            Err(rejected("failed to parse local loopback CA cert bundle"))
        },
    }
}

fn all_sound(items: &Vec<Result<PemItem, String>>) -> (res: bool)
    ensures
        res == (certificates(sections(items@)) is Ok),
{
    let ghost all = sections(items@);
    let n: usize = items.len();
    let mut i: usize = 0;
    assert(all.take(0) =~= Seq::empty());
    while i < n
        invariant
            i <= n,
            n == items@.len(),
            all == sections(items@),
            certificates(all.take(i as int)) is Ok,
        decreases n - i,
    {
        proof {
            assert(all.take(i + 1).drop_last() =~= all.take(i as int));
            assert(all.take(i + 1).last() == section(items@[i as int]));
        }
        if items[i].is_err() {
            proof {
                lemma_certificates_fail(all, i + 1);
            }
            return false;
        }
        i = i + 1;
    }
    assert(all.take(n as int) =~= all);
    true
}

/// Whether a section is sound and no private key.
pub open spec fn keyless(item: Result<PemView, Seq<char>>) -> bool {
    match item {
        Ok(PemView::Certificate(_)) => true,
        Ok(PemView::Other) => true,
        _ => false,
    }
}

/// The private key of a bundle is the first one in it, whatever follows and
/// whatever certificates come before, and is kept as it is written.
pub proof fn the_first_key_is_taken(
    before: Seq<Result<PemView, Seq<char>>>,
    item: Result<PemView, Seq<char>>,
    after: Seq<Result<PemView, Seq<char>>>,
)
    requires
        forall|i: int| 0 <= i < before.len() ==> keyless(#[trigger] before[i]),
    ensures
        first_key(before) is Err,
        item matches Err(problem) ==> first_key(before.push(item) + after) == Err::<KeyView, _>(
            problem,
        ),
        item matches Ok(PemView::Pkcs8Key(der)) ==> first_key(before.push(item) + after) == Ok::<
            _,
            Seq<char>,
        >((KeyView { format: KeyFormat::Pkcs8, der })),
        item matches Ok(PemView::Pkcs1Key(der)) ==> first_key(before.push(item) + after) == Ok::<
            _,
            Seq<char>,
        >((KeyView { format: KeyFormat::Pkcs1, der })),
        item matches Ok(PemView::Sec1Key(der)) ==> first_key(before.push(item) + after) == Ok::<
            _,
            Seq<char>,
        >((KeyView { format: KeyFormat::Sec1, der })),
    decreases before.len(),
{
    let all = before.push(item) + after;
    if before.len() == 0 {
        assert(all[0] == item);
    } else {
        let rest = before.skip(1);
        assert(keyless(before[0]));
        assert(all[0] == before[0]);
        assert(all.skip(1) =~= rest.push(item) + after);
        assert forall|i: int| 0 <= i < rest.len() implies keyless(#[trigger] rest[i]) by {
            assert(rest[i] == before[i + 1]);
        }
        the_first_key_is_taken(rest, item, after);
    }
}

/// The certificates of two bundles one after the other are those of the first
/// and then those of the second, and nothing else is among them; one broken
/// section spoils them all.
pub proof fn certificates_are_taken_in_order(
    first: Seq<Result<PemView, Seq<char>>>,
    second: Seq<Result<PemView, Seq<char>>>,
    item: Result<PemView, Seq<char>>,
)
    ensures
        match (certificates(first), certificates(second)) {
            (Err(problem), _) => certificates(first + second) == Err::<Seq<Seq<u8>>, _>(problem),
            (Ok(_), Err(problem)) => certificates(first + second) == Err::<Seq<Seq<u8>>, _>(
                problem,
            ),
            (Ok(a), Ok(b)) => certificates(first + second) == Ok::<_, Seq<char>>(a + b),
        },
        match item {
            Err(problem) => certificates(seq![item]) == Err::<Seq<Seq<u8>>, _>(problem),
            Ok(PemView::Certificate(der)) => certificates(seq![item]) == Ok::<_, Seq<char>>(
                seq![der],
            ),
            Ok(_) => certificates(seq![item]) == Ok::<_, Seq<char>>(Seq::<Seq<u8>>::empty()),
        },
    decreases second.len(),
{
    assert(seq![item].drop_last() =~= Seq::empty());
    assert(certificates(seq![item].drop_last()) == Ok::<_, Seq<char>>(Seq::<Seq<u8>>::empty()));
    assert(seq![item].last() == item);
    if let Ok(PemView::Certificate(der)) = item {
        assert(Seq::<Seq<u8>>::empty().push(der) =~= seq![der]);
    }
    if second.len() == 0 {
        assert(first + second =~= first);
        if let Ok(a) = certificates(first) {
            assert(a + Seq::<Seq<u8>>::empty() =~= a);
        }
    } else {
        certificates_are_taken_in_order(first, second.drop_last(), item);
        assert((first + second).drop_last() =~= first + second.drop_last());
        assert((first + second).last() == second.last());
        if let (Ok(a), Ok(b)) = (certificates(first), certificates(second.drop_last())) {
            if let Ok(PemView::Certificate(der)) = second.last() {
                assert((a + b).push(der) =~= a + b.push(der));
            }
        }
    }
}

/// A bundle has a chain exactly where its sections are sound and there is a
/// certificate among them, and the chain is then all of them; the authorities
/// are read in the same way.
pub proof fn chains_are_never_empty(items: Seq<Result<PemView, Seq<char>>>, lacking: Seq<char>)
    ensures
        chain_of(items, lacking) matches Ok(chain) ==> chain.len() > 0 && certificates(items)
            == Ok::<_, Seq<char>>(chain),
        certificates(items) matches Ok(found) ==> found.len() > 0 ==> chain_of(items, lacking)
            == Ok::<_, Seq<char>>(found),
        chain_of(items, lacking) is Ok <==> authorities_of(items) is Ok,
        chain_of(items, lacking) is Ok ==> authorities_of(items) == chain_of(items, lacking),
        certificates(items) == Ok::<_, Seq<char>>(Seq::<Seq<u8>>::empty()) ==> chain_of(
            items,
            lacking,
        ) == Err::<Seq<Seq<u8>>, _>(lacking),
{
}

} // verus!
