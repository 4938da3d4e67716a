//! Configuration of the broker client: its endpoint, how it makes sure of its
//! peer, its own identity, and how the channel to the broker is built.

use crate::config;
use crate::config::{EnvValue, EnvView};
use crate::endpoint;
use crate::endpoint::{Endpoint, EndpointView};
use crate::error::{rejected, Rejection};
use crate::pem;
use crate::pem::{KeyView, PrivateKey};
use crate::secret_broker_client;
use crate::secret_broker_client::{
    AttestationMode, ClientPolicy, ClientPolicyView, PolicySource,
};
use crate::string_set::StringSet;
use crate::text;
use vstd::prelude::*;

verus! {

/// Whether a text is one part of a dotted IPv4 address: a number up to 255
/// without leading zeros.
pub open spec fn is_octet(s: Seq<char>) -> bool {
    &&& 1 <= s.len() <= 3
    &&& forall|i: int| 0 <= i < s.len() ==> text::is_digit(#[trigger] s[i])
    &&& s.len() > 1 ==> s[0] != '0'
    &&& text::digits_value(s) <= 255
}

/// Whether a text is a dotted IPv4 address that belongs to the host itself.
pub open spec fn is_ipv4_loopback(s: Seq<char>) -> bool {
    let octets = text::parts(s, '.');
    &&& octets.len() == 4
    &&& forall|i: int| 0 <= i < 4 ==> is_octet(#[trigger] octets[i])
    &&& text::digits_value(octets[0]) == 127
}

/// Whether a host is the host itself, by its name or by its IPv4 address.
pub open spec fn is_loopback_host(host: Seq<char>) -> bool {
    let normal = text::ascii_lowercase(text::trimmed(host));
    ||| normal == "localhost"@
    ||| text::finishes_with(normal, ".localhost"@)
    ||| is_ipv4_loopback(normal)
}

/// Whether an endpoint is on the host itself. An IPv6 address stands in
/// brackets there, and no bracketed host counts.
pub open spec fn is_loopback(endpoint: EndpointView) -> bool {
    endpoint.host matches Some(host) && is_loopback_host(host)
}

fn octet_value(s: &str) -> (res: Option<u32>)
    ensures
        res is Some <==> is_octet(s@),
        res matches Some(value) ==> value == text::digits_value(s@),
{
    let chars = text::chars_of(s);
    let n: usize = chars.len();
    if n < 1 || n > 3 || (n > 1 && chars[0] == '0') {
        return None;
    }
    let mut value: u32 = 0;
    let mut i: usize = 0;
    assert(s@.take(0) =~= Seq::empty());
    while i < n
        invariant
            i <= n,
            n == chars@.len(),
            n <= 3,
            chars@ == s@,
            value == text::digits_value(s@.take(i as int)),
            i == 0 ==> value == 0,
            i == 1 ==> value <= 9,
            i == 2 ==> value <= 99,
            i == 3 ==> value <= 999,
            forall|j: int| 0 <= j < i ==> text::is_digit(#[trigger] s@[j]),
        decreases n - i,
    {
        let c = chars[i];
        if c < '0' || c > '9' {
            assert(!text::is_digit(s@[i as int]));
            return None;
        }
        value = value * 10 + (c as u32 - '0' as u32);
        i = i + 1;
        assert(s@.take(i as int).drop_last() =~= s@.take(i - 1));
    }
    assert(s@.take(n as int) =~= s@);
    if value <= 255 {
        Some(value)
    } else {
        None
    }
}

fn ipv4_loopback(s: &str) -> (res: bool)
    ensures
        res == is_ipv4_loopback(s@),
{
    let octets = text::split(s, '.');
    let ghost all = text::parts(s@, '.');
    assert(all.len() == octets@.len());
    if octets.len() != 4 {
        return false;
    }
    assert(forall|i: int| 0 <= i < 4 ==> #[trigger] all[i] == octets@[i]@);
    let first = match octet_value(octets[0].as_str()) {
        Some(value) => value,
        None => {
            assert(!is_octet(all[0]));
            return false;
        },
    };
    let mut i: usize = 1;
    while i < 4
        invariant
            1 <= i <= 4,
            octets@.len() == 4,
            all == text::parts(s@, '.'),
            all.len() == 4,
            forall|j: int| 0 <= j < 4 ==> #[trigger] all[j] == octets@[j]@,
            forall|j: int| 0 <= j < i ==> is_octet(#[trigger] all[j]),
        decreases 4 - i,
    {
        if octet_value(octets[i].as_str()).is_none() {
            assert(!is_octet(all[i as int]));
            return false;
        }
        i = i + 1;
    }
    first == 127
}

/// Whether an endpoint is on the host itself.
pub fn secret_broker_endpoint_is_loopback(endpoint: &Endpoint) -> (res: bool)
    requires
        endpoint@.wf(),
    ensures
        res == is_loopback(endpoint@),
{
    match &endpoint.host {
        None => false,
        Some(host) => {
            let normal = text::to_ascii_lowercase(text::trim(host.as_str()));
            let normal = normal.as_str();
            text::equal(normal, "localhost") || text::ends_with(normal, ".localhost")
                || ipv4_loopback(normal)
        },
    }
}

/// Whether the switch for relaxed attestation is on.
pub open spec fn unsafe_broker_allowed(flag: EnvView) -> bool {
    flag.readable() matches Some(raw) && {
        let word = text::lowercase(text::trimmed(raw));
        word == "1"@ || word == "true"@ || word == "yes"@
    }
}

/// Whether a mode may be used in this build. A mode that does not make sure of
/// the peer takes a debug build and a switch.
pub open spec fn mode_permitted(mode: AttestationMode, debug_build: bool, flag: EnvView) -> Result<
    (),
    Seq<char>,
> {
    if mode != AttestationMode::Disabled {
        Ok(())
    } else if debug_build {
        if unsafe_broker_allowed(flag) {
            Ok(())
        } else {
            Err(
                "secret-broker attestation mode "@ + mode.name_text()
                    + " requires SECURE_DB_ALLOW_UNSAFE_BROKER=1 and a debug build"@,
            )
        }
    } else {
        Err(
            "secret-broker attestation mode "@ + mode.name_text()
                + " is forbidden in release builds"@,
        )
    }
}

/// Accept a mode for this build, or refuse it.
pub fn ensure_attestation_mode(mode: AttestationMode, debug_build: bool, flag: &EnvValue) -> (res:
    Result<(), Rejection>)
    ensures
        match res {
            Ok(()) => mode_permitted(mode, debug_build, flag@) is Ok,
            Err(rejection) => mode_permitted(mode, debug_build, flag@) == Err::<(), _>(rejection@),
        },
{
    if mode.is_enforced() || matches!(mode, AttestationMode::Spiffe | AttestationMode::Local) {
        return Ok(());
    }
    if debug_build {
        let allowed = match flag.get() {
            Some(raw) => {
                let word = text::to_lowercase(text::trim(raw));
                let word = word.as_str();
                text::equal(word, "1") || text::equal(word, "true") || text::equal(word, "yes")
            },
            None => false,
        };
        if allowed {
            return Ok(());
        }
        let reason = text::concat3(
            "secret-broker attestation mode ",
            mode.name(),
            " requires SECURE_DB_ALLOW_UNSAFE_BROKER=1 and a debug build",
        );
        return Err(rejected(reason.as_str()));
    }
    let reason = text::concat3(
        "secret-broker attestation mode ",
        mode.name(),
        " is forbidden in release builds",
    );
    Err(rejected(reason.as_str()))
}

/// The variables that the broker client is configured by.
#[derive(Debug)]
pub struct BrokerEnvironment {
    /// `SECRET_BROKER_ENDPOINT`
    pub endpoint: EnvValue,
    /// `SECRET_BROKER_CLIENT_MODE`
    pub client_mode: EnvValue,
    /// `SECURE_DB_ALLOW_UNSAFE_BROKER`
    pub allow_unsafe: EnvValue,
    /// `SECRET_BROKER_CLIENT_POLICY_FILE`
    pub policy_file: EnvValue,
    /// `SECRET_BROKER_CLIENT_SUBJECTS`
    pub subjects: EnvValue,
    /// `SECRET_BROKER_PCCS_URL`
    pub pccs_url: EnvValue,
    /// `SECRET_BROKER_CLIENT_CERT`
    pub client_cert: EnvValue,
    /// `SECRET_BROKER_CLIENT_KEY`
    pub client_key: EnvValue,
    /// `SECRET_BROKER_CLIENT_TIMEOUT_SECS`
    pub timeout: EnvValue,
    /// `SECRET_BROKER_SPIFFE_SOCKET`
    pub spiffe_socket: EnvValue,
    /// `SECRET_BROKER_CLIENT_SPIFFE_ID`
    pub client_spiffe_id: EnvValue,
}

/// The contents of the files that the variables name; `None` where a file
/// could not be read or is not named.
#[derive(Debug)]
pub struct BrokerFiles {
    pub policy: Option<String>,
    pub client_cert: Option<Vec<u8>>,
    pub client_key: Option<Vec<u8>>,
}

/// The contents of a file, over views.
pub open spec fn contents(file: Option<Vec<u8>>) -> Option<Seq<u8>> {
    match file {
        Some(bytes) => Some(bytes@),
        None => None,
    }
}

/// The endpoint and the mode. A mode that trusts the network takes an endpoint
/// on the host itself; every mode but the disabled one takes TLS.
pub open spec fn checked_endpoint(env: BrokerEnvironment, debug_build: bool) -> Result<
    (EndpointView, AttestationMode),
    Seq<char>,
> {
    match env.endpoint@.readable() {
        None => Err("SECRET_BROKER_ENDPOINT is required"@),
        Some(raw) => match endpoint::url_parts(raw) {
            None => Err("invalid SECRET_BROKER_ENDPOINT"@),
            Some(endpoint) => endpoint_for_mode(endpoint, env, debug_build),
        },
    }
}

/// The endpoint with the mode that the environment asks for, if they go
/// together.
pub open spec fn endpoint_for_mode(
    endpoint: EndpointView,
    env: BrokerEnvironment,
    debug_build: bool,
) -> Result<(EndpointView, AttestationMode), Seq<char>> {
    match secret_broker_client::mode_from(
        "SECRET_BROKER_CLIENT_MODE"@,
        env.client_mode@,
        "enforced"@,
    ) {
        Err(reason) => Err(reason),
        Ok(mode) => if (mode == AttestationMode::Local || mode == AttestationMode::Disabled)
            && !is_loopback(endpoint) {
            Err(
                "SECRET_BROKER_CLIENT_MODE="@ + mode.name_text()
                    + " requires a loopback SECRET_BROKER_ENDPOINT"@,
            )
        } else if mode != AttestationMode::Disabled && endpoint.scheme != "https"@ {
            Err("SECRET_BROKER_ENDPOINT must use https unless client mode is disabled"@)
        } else {
            match mode_permitted(mode, debug_build, env.allow_unsafe@) {
                Err(reason) => Err(reason),
                Ok(()) => Ok((endpoint, mode)),
            }
        },
    }
}

/// Choose the mode for an endpoint, and check that they go together.
pub fn check_endpoint(endpoint: Endpoint, env: &BrokerEnvironment, debug_build: bool) -> (res:
    Result<(Endpoint, AttestationMode), Rejection>)
    requires
        endpoint@.wf(),
    ensures
        match res {
            Ok((checked, mode)) => {
                &&& checked == endpoint
                &&& endpoint_for_mode(endpoint@, *env, debug_build) == Ok::<_, Seq<char>>(
                    (checked@, mode),
                )
            },
            Err(rejection) => endpoint_for_mode(endpoint@, *env, debug_build) == Err::<
                (EndpointView, AttestationMode),
                _,
            >(rejection@),
        },
{
    let mode = match AttestationMode::from_env_var(
        "SECRET_BROKER_CLIENT_MODE",
        &env.client_mode,
        "enforced",
    ) {
        Ok(mode) => mode,
        Err(rejection) => return Err(rejection),
    };
    if matches!(mode, AttestationMode::Local | AttestationMode::Disabled)
        && !secret_broker_endpoint_is_loopback(&endpoint) {
        let reason = text::concat3(
            "SECRET_BROKER_CLIENT_MODE=",
            mode.name(),
            " requires a loopback SECRET_BROKER_ENDPOINT",
        );
        return Err(rejected(reason.as_str()));
    }
    if !matches!(mode, AttestationMode::Disabled) && !text::equal(
        endpoint.scheme.as_str(),
        "https",
    ) {
        return Err(
            rejected("SECRET_BROKER_ENDPOINT must use https unless client mode is disabled"),
        );
    }
    match ensure_attestation_mode(mode, debug_build, &env.allow_unsafe) {
        Ok(()) => Ok((endpoint, mode)),
        Err(rejection) => Err(rejection),
    }
}

/// The policy that the environment asks for, with the text of its file.
pub open spec fn policy_for(mode: AttestationMode, file: EnvView, source: Option<Seq<char>>) -> Result<
    ClientPolicyView,
    Seq<char>,
> {
    match secret_broker_client::policy_path(mode, file) {
        Err(reason) => Err(reason),
        Ok(None) => Ok(ClientPolicyView::transport_only()),
        Ok(Some(path)) => match source {
            None => Err("failed to read client policy file: "@ + path),
            Some(source) => secret_broker_client::policy_from(source),
        },
    }
}

fn load_policy(mode: AttestationMode, file: &EnvValue, source: &Option<String>) -> (res: Result<
    ClientPolicy,
    Rejection,
>)
    ensures
        config::answer(res) == policy_for(mode, file@, text::optional(*source)),
{
    match ClientPolicy::from_env(mode, file) {
        Err(rejection) => Err(rejection),
        Ok(PolicySource::TransportOnly(policy)) => Ok(policy),
        Ok(PolicySource::File(path)) => match source {
            None => {
                let reason = text::concat2("failed to read client policy file: ", path.as_str());
                Err(rejected(reason.as_str()))
            },
            Some(source) => ClientPolicy::from_file(source.as_str()),
        },
    }
}

/// The entries of a list, trimmed and in lower case, without the empty ones.
pub open spec fn subject_entries(items: Seq<Seq<char>>) -> Set<Seq<char>>
    decreases items.len(),
{
    if items.len() == 0 {
        Set::empty()
    } else {
        let rest = subject_entries(items.drop_last());
        let entry = text::lowercase(text::trimmed(items.last()));
        if entry.len() == 0 {
            rest
        } else {
            rest.insert(entry)
        }
    }
}

/// The subjects that are accepted, where any are listed.
pub open spec fn listed_subjects(value: EnvView) -> Option<Set<Seq<char>>> {
    match value.readable() {
        None => None,
        Some(raw) => {
            let subjects = subject_entries(text::parts(raw, ','));
            if subjects == Set::<Seq<char>>::empty() {
                None
            } else {
                Some(subjects)
            }
        },
    }
}

/// What a set of texts, or the lack of one, holds.
pub open spec fn optional_set(set: Option<StringSet>) -> Option<Set<Seq<char>>> {
    match set {
        Some(set) => Some(set@),
        None => None,
    }
}

/// Read the subjects that are accepted, where any are listed.
pub fn parse_subject_allowlist(value: &EnvValue) -> (res: Option<StringSet>)
    ensures
        optional_set(res) == listed_subjects(value@),
{
    let raw = match value.get() {
        Some(raw) => raw,
        None => return None,
    };
    let items = text::split(raw, ',');
    let ghost all = text::views(items@);
    let mut set = StringSet::new();
    let n: usize = items.len();
    let mut i: usize = 0;
    assert(all.take(0) =~= Seq::empty());
    while i < n
        invariant
            i <= n,
            n == items@.len(),
            all == text::views(items@),
            set@ == subject_entries(all.take(i as int)),
        decreases n - i,
    {
        let entry = text::to_lowercase(text::trim(items[i].as_str()));
        proof {
            assert(all.take(i + 1).drop_last() =~= all.take(i as int));
            assert(all.take(i + 1).last() == items@[i as int]@);
        }
        if !entry.as_str().is_empty() {
            set = set.with(entry);
        }
        i = i + 1;
    }
    assert(all.take(n as int) =~= all);
    if set.is_empty() {
        None
    } else {
        Some(set)
    }
}

/// The certificates, the key and the bundle of both that the client shows.
#[derive(Debug)]
pub struct ClientIdentity {
    pub cert_chain: Vec<Vec<u8>>,
    pub key: PrivateKey,
    pub pem: Vec<u8>,
}

/// The identity of the client, over views.
pub struct IdentityView {
    pub cert_chain: Seq<Seq<u8>>,
    pub key: KeyView,
    pub pem: Seq<u8>,
}

impl View for ClientIdentity {
    type V = IdentityView;

    open spec fn view(&self) -> IdentityView {
        IdentityView {
            cert_chain: pem::byte_views(self.cert_chain@),
            key: self.key@,
            pem: self.pem@,
        }
    }
}

/// The identity that two files hold, by the sections of each.
pub open spec fn identity_of(
    cert: Seq<u8>,
    key: Seq<u8>,
    cert_sections: Seq<Result<pem::PemView, Seq<char>>>,
    key_sections: Seq<Result<pem::PemView, Seq<char>>>,
) -> Result<IdentityView, Seq<char>> {
    match pem::chain_of(cert_sections, "no certificates found in client bundle"@) {
        Err(problem) => Err("failed to parse client certificate chain"@),
        Ok(cert_chain) => match pem::first_key(key_sections) {
            Err(problem) => Err("failed to parse client private key"@),
            Ok(private_key) => Ok(IdentityView { cert_chain, key: private_key, pem: cert + key }),
        },
    }
}

/// The identity that the environment names: both files or neither, and both
/// where attestation is enforced.
pub open spec fn identity_for(
    mode: AttestationMode,
    cert_path: EnvView,
    key_path: EnvView,
    cert: Option<Seq<u8>>,
    key: Option<Seq<u8>>,
) -> Result<Option<IdentityView>, Seq<char>> {
    match (cert_path.readable(), key_path.readable()) {
        (Some(cert_path), Some(key_path)) => match cert {
            None => Err("failed to read client cert "@ + cert_path),
            Some(cert) => match key {
                None => Err("failed to read client key "@ + key_path),
                Some(key) => match identity_of(
                    cert,
                    key,
                    pem::pem_sections(cert),
                    pem::pem_sections(key),
                ) {
                    Err(reason) => Err(reason),
                    Ok(identity) => Ok(Some(identity)),
                },
            },
        },
        (None, None) => if mode == AttestationMode::Enforced {
            Err(
                "client attestation mode is enforced but SECRET_BROKER_CLIENT_CERT/KEY are not configured"@,
            )
        } else {
            Ok(None)
        },
        _ => Err(
            "SECRET_BROKER_CLIENT_CERT and SECRET_BROKER_CLIENT_KEY must both be set or both unset"@,
        ),
    }
}

/// What an identity, or the lack of one, holds.
pub open spec fn optional_identity(identity: Option<ClientIdentity>) -> Option<IdentityView> {
    match identity {
        Some(identity) => Some(identity@),
        None => None,
    }
}

/// What the loading of an identity gave.
pub open spec fn loaded_identity(res: Result<Option<ClientIdentity>, Rejection>) -> Result<
    Option<IdentityView>,
    Seq<char>,
> {
    match res {
        Ok(identity) => Ok(optional_identity(identity)),
        Err(rejection) => Err(rejection@),
    }
}

fn identity_from(cert: &Vec<u8>, key: &Vec<u8>) -> (res: Result<ClientIdentity, Rejection>)
    ensures
        config::answer(res) == identity_of(
            cert@,
            key@,
            pem::pem_sections(cert@),
            pem::pem_sections(key@),
        ),
{
    let cert_chain = match pem::parse_cert_chain(cert.as_slice()) {
        Ok(chain) => chain,
        Err(_) => return Err(rejected("failed to parse client certificate chain")),
    };
    let private_key = match pem::parse_private_key(key.as_slice()) {
        Ok(private_key) => private_key,
        Err(_) => return Err(rejected("failed to parse client private key")),
    };
    let mut bundle = pem::copy_bytes(cert.as_slice());
    bundle.extend_from_slice(key.as_slice());
    assert(bundle@ =~= cert@ + key@);
    Ok(ClientIdentity { cert_chain, key: private_key, pem: bundle })
}

/// Load the identity that the client shows, where it has one.
pub fn load_client_identity(
    mode: AttestationMode,
    cert_path: &EnvValue,
    key_path: &EnvValue,
    cert: &Option<Vec<u8>>,
    key: &Option<Vec<u8>>,
) -> (res: Result<Option<ClientIdentity>, Rejection>)
    ensures
        loaded_identity(res) == identity_for(
            mode,
            cert_path@,
            key_path@,
            contents(*cert),
            contents(*key),
        ),
{
    match (cert_path.get(), key_path.get()) {
        (Some(cert_path), Some(key_path)) => {
            let cert = match cert {
                Some(cert) => cert,
                None => {
                    let reason = text::concat2("failed to read client cert ", cert_path);
                    return Err(rejected(reason.as_str()));
                },
            };
            let key = match key {
                Some(key) => key,
                None => {
                    let reason = text::concat2("failed to read client key ", key_path);
                    return Err(rejected(reason.as_str()));
                },
            };
            match identity_from(cert, key) {
                Ok(identity) => Ok(Some(identity)),
                Err(rejection) => Err(rejection),
            }
        },
        (None, None) => if mode.is_enforced() {
            Err(
                rejected(
                    "client attestation mode is enforced but SECRET_BROKER_CLIENT_CERT/KEY are not configured",
                ),
            )
        } else {
            Ok(None)
        },
        _ => Err(
            rejected(
                "SECRET_BROKER_CLIENT_CERT and SECRET_BROKER_CLIENT_KEY must both be set or both unset",
            ),
        ),
    }
}

/// The timeout in seconds, which is above zero.
pub open spec fn timeout_of(value: EnvView) -> Result<u64, Seq<char>> {
    match value {
        EnvView::Unreadable(problem) => Err("failed to read broker timeout: "@ + problem),
        EnvView::Absent => Ok(10),
        EnvView::Present(raw) => if !text::spells_up_to(raw, u64::MAX as nat) {
            Err("invalid SECRET_BROKER_CLIENT_TIMEOUT_SECS value "@ + text::debug_text(raw))
        } else if text::unsigned_value(raw)->0 == 0 {
            Err("SECRET_BROKER_CLIENT_TIMEOUT_SECS must be greater than zero"@)
        } else {
            Ok(text::unsigned_value(raw)->0 as u64)
        },
    }
}

fn parse_timeout(value: &EnvValue) -> (res: Result<u64, Rejection>)
    ensures
        config::answer(res) == timeout_of(value@),
{
    let seconds: u64 = match value {
        EnvValue::Absent => 10,
        EnvValue::Unreadable(problem) => {
            let reason = text::concat2("failed to read broker timeout: ", problem.as_str());
            return Err(rejected(reason.as_str()));
        },
        EnvValue::Present(raw) => match text::parse_u64(raw.as_str()) {
            Ok(seconds) => seconds,
            Err(_) => {
                let shown = text::to_debug(raw.as_str());
                let reason = text::concat2(
                    "invalid SECRET_BROKER_CLIENT_TIMEOUT_SECS value ",
                    shown.as_str(),
                );
                return Err(rejected(reason.as_str()));
            },
        },
    };
    if seconds == 0 {
        return Err(rejected("SECRET_BROKER_CLIENT_TIMEOUT_SECS must be greater than zero"));
    }
    Ok(seconds)
}

/// The socket of the SPIFFE agent: the one that is named, or the usual one in
/// SPIFFE mode.
pub open spec fn spiffe_socket_for(mode: AttestationMode, value: EnvView) -> Option<Seq<char>> {
    match value.readable() {
        Some(path) => Some(path),
        None => if mode == AttestationMode::Spiffe {
            Some("/var/run/spire/agent.sock"@)
        } else {
            None
        },
    }
}

/// How the broker client is set up.
#[derive(Debug)]
pub struct SecretBrokerClientConfig {
    pub endpoint: Endpoint,
    pub attestation_mode: AttestationMode,
    pub policy: ClientPolicy,
    pub pccs_url: Option<String>,
    pub subject_allowlist: Option<StringSet>,
    pub identity: Option<ClientIdentity>,
    pub timeout_seconds: u64,
    pub spiffe_socket_path: Option<String>,
    /// Client's own SPIFFE ID for SVID selection when multiple match
    pub my_spiffe_id: Option<String>,
}

/// How the broker client is set up, over views.
pub struct BrokerConfigView {
    pub endpoint: EndpointView,
    pub attestation_mode: AttestationMode,
    pub policy: ClientPolicyView,
    pub pccs_url: Option<Seq<char>>,
    pub subject_allowlist: Option<Set<Seq<char>>>,
    pub identity: Option<IdentityView>,
    pub timeout_seconds: u64,
    pub spiffe_socket_path: Option<Seq<char>>,
    pub my_spiffe_id: Option<Seq<char>>,
}

impl View for SecretBrokerClientConfig {
    type V = BrokerConfigView;

    open spec fn view(&self) -> BrokerConfigView {
        BrokerConfigView {
            endpoint: self.endpoint@,
            attestation_mode: self.attestation_mode,
            policy: self.policy@,
            pccs_url: text::optional(self.pccs_url),
            subject_allowlist: optional_set(self.subject_allowlist),
            identity: optional_identity(self.identity),
            timeout_seconds: self.timeout_seconds,
            spiffe_socket_path: text::optional(self.spiffe_socket_path),
            my_spiffe_id: text::optional(self.my_spiffe_id),
        }
    }
}

/// The rest of the set-up, once endpoint and mode are chosen.
pub open spec fn config_for(
    endpoint: EndpointView,
    mode: AttestationMode,
    env: BrokerEnvironment,
    files: BrokerFiles,
) -> Result<BrokerConfigView, Seq<char>> {
    match policy_for(mode, env.policy_file@, text::optional(files.policy)) {
        Err(reason) => Err(reason),
        Ok(policy) => if listed_subjects(env.subjects@) is None && mode
            == AttestationMode::Enforced {
            Err("SECRET_BROKER_CLIENT_SUBJECTS must be set when attestation is enforced"@)
        } else {
            match identity_for(
                mode,
                env.client_cert@,
                env.client_key@,
                contents(files.client_cert),
                contents(files.client_key),
            ) {
                Err(reason) => Err(reason),
                Ok(identity) => match timeout_of(env.timeout@) {
                    Err(reason) => Err(reason),
                    Ok(timeout_seconds) => Ok(
                        BrokerConfigView {
                            endpoint,
                            attestation_mode: mode,
                            policy,
                            pccs_url: env.pccs_url@.readable(),
                            subject_allowlist: listed_subjects(env.subjects@),
                            identity,
                            timeout_seconds,
                            spiffe_socket_path: spiffe_socket_for(mode, env.spiffe_socket@),
                            my_spiffe_id: env.client_spiffe_id@.readable(),
                        },
                    ),
                },
            }
        },
    }
}

/// The set-up that the environment asks for, or the first thing that is wrong
/// with it.
pub open spec fn broker_config(env: BrokerEnvironment, files: BrokerFiles, debug_build: bool) -> Result<
    BrokerConfigView,
    Seq<char>,
> {
    match checked_endpoint(env, debug_build) {
        Err(reason) => Err(reason),
        Ok((endpoint, mode)) => config_for(endpoint, mode, env, files),
    }
}

fn owned(value: Option<&str>) -> (res: Option<String>)
    ensures
        text::optional(res) == text::optional_str(value),
{
    match value {
        Some(value) => Some(value.to_owned()),
        None => None,
    }
}

impl SecretBrokerClientConfig {
    /// Read the set-up from the environment and the files that it names.
    pub fn from_env(env: &BrokerEnvironment, files: &BrokerFiles, debug_build: bool) -> (res:
        Result<Self, Rejection>)
        ensures
            config::answer(res) == broker_config(*env, *files, debug_build),
            res matches Ok(config) ==> config.endpoint@.wf(),
    {
        let raw = match env.endpoint.get() {
            Some(raw) => raw,
            None => return Err(rejected("SECRET_BROKER_ENDPOINT is required")),
        };
        let endpoint = match endpoint::parse_url(raw) {
            Some(endpoint) => endpoint,
            None => return Err(rejected("invalid SECRET_BROKER_ENDPOINT")),
        };
        let (endpoint, mode) = match check_endpoint(endpoint, env, debug_build) {
            Ok(checked) => checked,
            Err(rejection) => return Err(rejection),
        };
        Self::for_endpoint(endpoint, mode, env, files)
    }

    /// Read the rest of the set-up, once endpoint and mode are chosen.
    pub fn for_endpoint(
        endpoint: Endpoint,
        mode: AttestationMode,
        env: &BrokerEnvironment,
        files: &BrokerFiles,
    ) -> (res: Result<Self, Rejection>)
        ensures
            config::answer(res) == config_for(endpoint@, mode, *env, *files),
            res matches Ok(config) ==> config.endpoint == endpoint,
    {
        let policy = match load_policy(mode, &env.policy_file, &files.policy) {
            Ok(policy) => policy,
            Err(rejection) => return Err(rejection),
        };
        let subject_allowlist = parse_subject_allowlist(&env.subjects);
        if subject_allowlist.is_none() && mode.is_enforced() {
            return Err(
                rejected("SECRET_BROKER_CLIENT_SUBJECTS must be set when attestation is enforced"),
            );
        }
        let pccs_url = owned(env.pccs_url.get());
        let identity = match load_client_identity(
            mode,
            &env.client_cert,
            &env.client_key,
            &files.client_cert,
            &files.client_key,
        ) {
            Ok(identity) => identity,
            Err(rejection) => return Err(rejection),
        };
        let timeout_seconds: u64 = match parse_timeout(&env.timeout) {
            Ok(seconds) => seconds,
            Err(rejection) => return Err(rejection),
        };
        let spiffe_socket_path = match env.spiffe_socket.get() {
            Some(path) => Some(path.to_owned()),
            None => if matches!(mode, AttestationMode::Spiffe) {
                Some("/var/run/spire/agent.sock".to_owned())
            } else {
                None
            },
        };
        let my_spiffe_id = owned(env.client_spiffe_id.get());
        Ok(
            SecretBrokerClientConfig {
                endpoint,
                attestation_mode: mode,
                policy,
                pccs_url,
                subject_allowlist,
                identity,
                timeout_seconds,
                spiffe_socket_path,
                my_spiffe_id,
            },
        )
    }
}

/// No accepted set-up is weaker than its mode: the peer of an enforced one is
/// attested against a policy and a list of subjects, and the client shows an
/// identity; a mode that trusts the network stays on the host itself; and
/// attestation is off only in a debug build with its switch on.
pub proof fn accepted_set_ups_are_safe(
    env: BrokerEnvironment,
    files: BrokerFiles,
    debug_build: bool,
)
    ensures
        broker_config(env, files, debug_build) matches Ok(config) ==> {
            let mode = config.attestation_mode;
            &&& mode == AttestationMode::Enforced ==> {
                &&& config.policy.measurement.restricts()
                &&& config.subject_allowlist is Some
                &&& config.identity is Some
            }
            &&& mode == AttestationMode::Local || mode == AttestationMode::Disabled ==> is_loopback(
                config.endpoint,
            )
            &&& mode != AttestationMode::Disabled ==> config.endpoint.scheme == "https"@
            &&& mode == AttestationMode::Disabled ==> debug_build && unsafe_broker_allowed(
                env.allow_unsafe@,
            )
            &&& config.subject_allowlist matches Some(subjects) ==> subjects != Set::<
                Seq<char>,
            >::empty()
            &&& config.timeout_seconds > 0
        },
{
}

/// A dotted address.
pub open spec fn dotted(a: nat, b: nat, c: nat, d: nat) -> Seq<char> {
    text::decimal(a).push('.') + (text::decimal(b).push('.') + (text::decimal(c).push('.')
        + text::decimal(d)))
}

proof fn lemma_decimal_shape(n: nat)
    ensures
        text::decimal(n).len() > 0,
        forall|i: int|
            0 <= i < text::decimal(n).len() ==> text::is_digit(#[trigger] text::decimal(n)[i]),
        text::digits_value(text::decimal(n)) == n,
        n > 0 ==> text::decimal(n)[0] != '0',
        n < 10 ==> text::decimal(n).len() == 1,
        10 <= n < 100 ==> text::decimal(n).len() == 2,
        100 <= n < 1_000 ==> text::decimal(n).len() == 3,
    decreases n,
{
    text::decimal_is_read_back(n);
    if n >= 10 {
        lemma_decimal_shape(n / 10);
    }
    let s = text::decimal(n);
    assert forall|i: int| 0 <= i < s.len() implies text::is_digit(#[trigger] s[i]) by {
        if n >= 10 && i < s.len() - 1 {
            assert(s[i] == text::decimal(n / 10)[i]);
        }
    }
    assert(text::is_digit(s[0]));
    assert(text::without_plus(s) == s);
}

proof fn lemma_decimal_part(n: nat, rest: Seq<char>)
    ensures
        text::parts(text::decimal(n).push('.') + rest, '.') == seq![text::decimal(n)]
            + text::parts(rest, '.'),
        text::parts(text::decimal(n), '.') == seq![text::decimal(n)],
{
    lemma_decimal_shape(n);
    let digits = text::decimal(n);
    let all = digits.push('.') + rest;
    assert forall|i: int| 0 <= i < digits.len() implies #[trigger] all[i] != '.' by {
        assert(text::is_digit(digits[i]));
    }
    assert forall|i: int| 0 <= i < digits.len() implies #[trigger] digits[i] != '.' by {
        assert(text::is_digit(digits[i]));
    }
    text::lemma_first_position_is(all, '.', digits.len() as int);
    text::lemma_first_position_is(digits, '.', digits.len() as int);
    assert(all.take(digits.len() as int) =~= digits);
    assert(all.skip(digits.len() as int + 1) =~= rest);
}

proof fn lemma_octet(n: nat)
    ensures
        is_octet(text::decimal(n)) <==> n <= 255,
{
    lemma_decimal_shape(n);
}

/// A dotted address belongs to the host itself exactly where it is one and its
/// first number is 127, whatever the others are.
pub proof fn the_127_net_is_the_host_itself(a: nat, b: nat, c: nat, d: nat)
    ensures
        is_ipv4_loopback(dotted(a, b, c, d)) <==> a == 127 && b <= 255 && c <= 255 && d <= 255,
{
    let third = text::decimal(c).push('.') + text::decimal(d);
    let second = text::decimal(b).push('.') + third;
    lemma_decimal_part(d, Seq::empty());
    lemma_decimal_part(c, text::decimal(d));
    lemma_decimal_part(b, third);
    lemma_decimal_part(a, second);
    let octets = text::parts(dotted(a, b, c, d), '.');
    assert(octets =~= seq![
        text::decimal(a),
        text::decimal(b),
        text::decimal(c),
        text::decimal(d),
    ]);
    lemma_octet(a);
    lemma_octet(b);
    lemma_octet(c);
    lemma_octet(d);
    lemma_decimal_shape(a);
    if is_ipv4_loopback(dotted(a, b, c, d)) {
        assert(is_octet(octets[0]) && is_octet(octets[1]) && is_octet(octets[2]) && is_octet(
            octets[3],
        ));
    }
}

/// The names of the host itself are `localhost` and what lies under it, in
/// letters of any case; no endpoint without a host is on the host itself.
pub proof fn the_host_itself_has_its_names(endpoint: EndpointView, under: Seq<char>)
    ensures
        endpoint.host is None ==> !is_loopback(endpoint),
        endpoint.host matches Some(host) ==> ({
            let normal = text::ascii_lowercase(text::trimmed(host));
            &&& normal == "localhost"@ ==> is_loopback(endpoint)
            &&& normal == under + ".localhost"@ ==> is_loopback(endpoint)
            &&& is_ipv4_loopback(normal) ==> is_loopback(endpoint)
            &&& is_loopback(endpoint) && !is_ipv4_loopback(normal) ==> normal.len() >= 9
                && normal.skip(normal.len() - 9) == "localhost"@
        }),
{
    reveal_strlit("localhost");
    reveal_strlit(".localhost");
    assert(".localhost"@.skip(1) =~= "localhost"@);
    if let Some(host) = endpoint.host {
        let normal = text::ascii_lowercase(text::trimmed(host));
        if normal == under + ".localhost"@ {
            text::parts_of_a_text_are_found(under, Seq::empty(), ".localhost"@);
            assert(under + Seq::empty() + ".localhost"@ =~= normal);
        }
        if normal == "localhost"@ {
            assert(normal.skip(normal.len() - 9) =~= "localhost"@);
        }
        if text::finishes_with(normal, ".localhost"@) {
            text::found_parts_stand_there(normal, ".localhost"@);
            assert(normal.skip(normal.len() - 9) =~= ".localhost"@.skip(1));
        }
    }
}

/// The switch for relaxed attestation is on for three words alone, in letters
/// of any case and with white space around them.
pub proof fn three_words_relax_attestation(flag: EnvValue)
    ensures
        unsafe_broker_allowed(flag@) <==> (flag matches EnvValue::Present(raw) && seq![
            "1"@,
            "true"@,
            "yes"@,
        ].contains(text::lowercase(text::trimmed(raw@)))),
{
    let words = seq!["1"@, "true"@, "yes"@];
    assert(words[0] == "1"@ && words[1] == "true"@ && words[2] == "yes"@);
}

/// Modes that make sure of the peer are permitted in every build. Without
/// attestation it takes a debug build and the switch.
pub proof fn only_disabled_modes_need_permission(
    mode: AttestationMode,
    debug_build: bool,
    flag: EnvView,
)
    ensures
        mode_permitted(mode, debug_build, flag) is Ok <==> mode is Enforced || mode is Spiffe
            || mode is Local || (debug_build && unsafe_broker_allowed(flag)),
{
}

/// Whether a text is an entry of a list, once it is trimmed and in lower case.
pub open spec fn listed_subject(items: Seq<Seq<char>>, subject: Seq<char>) -> bool {
    exists|i: int|
        0 <= i < items.len() && text::lowercase(text::trimmed(#[trigger] items[i])) == subject
}

/// The subjects that are accepted are the entries of the list, trimmed and in
/// lower case, but for empty ones.
pub proof fn subjects_are_those_listed(items: Seq<Seq<char>>, subject: Seq<char>)
    ensures
        subject_entries(items).contains(subject) <==> subject.len() > 0 && listed_subject(
            items,
            subject,
        ),
    decreases items.len(),
{
    if items.len() > 0 {
        let rest = items.drop_last();
        subjects_are_those_listed(rest, subject);
        assert(items[items.len() - 1] == items.last());
        if listed_subject(rest, subject) {
            let i = choose|i: int|
                0 <= i < rest.len() && text::lowercase(text::trimmed(#[trigger] rest[i]))
                    == subject;
            assert(items[i] == rest[i]);
        }
        if listed_subject(items, subject) {
            let i = choose|i: int|
                0 <= i < items.len() && text::lowercase(text::trimmed(#[trigger] items[i]))
                    == subject;
            if i < rest.len() {
                assert(rest[i] == items[i]);
            }
        }
    }
}

/// Every part of an accepted set-up is the one that its own variable, or the
/// file that it names, asks for.
pub proof fn set_ups_come_from_their_variables(
    env: BrokerEnvironment,
    files: BrokerFiles,
    debug_build: bool,
)
    ensures
        broker_config(env, files, debug_build) matches Ok(config) ==> {
            &&& match env.endpoint {
                EnvValue::Present(raw) => endpoint::url_parts(raw@) == Some(config.endpoint),
                _ => false,
            }
            &&& text::ascii_lowercase(
                text::trimmed(
                    match env.client_mode {
                        EnvValue::Present(raw) => raw@,
                        _ => "enforced"@,
                    },
                ),
            ) == text::ascii_lowercase(config.attestation_mode.name_text())
            &&& match env.policy_file {
                EnvValue::Present(_) => match files.policy {
                    Some(source) => secret_broker_client::policy_from(source@) == Ok::<
                        _,
                        Seq<char>,
                    >(config.policy),
                    None => false,
                },
                _ => config.policy == ClientPolicyView::transport_only(),
            }
            &&& match env.pccs_url {
                EnvValue::Present(url) => config.pccs_url == Some(url@),
                _ => config.pccs_url is None,
            }
            &&& match env.client_spiffe_id {
                EnvValue::Present(id) => config.my_spiffe_id == Some(id@),
                _ => config.my_spiffe_id is None,
            }
            &&& match env.spiffe_socket {
                EnvValue::Present(path) => config.spiffe_socket_path == Some(path@),
                _ => if config.attestation_mode is Spiffe {
                    config.spiffe_socket_path == Some("/var/run/spire/agent.sock"@)
                } else {
                    config.spiffe_socket_path is None
                },
            }
            &&& config::asked_number(env.timeout, config.timeout_seconds as nat, 10)
        },
{
    if let Ok(config) = broker_config(env, files, debug_build) {
        secret_broker_client::modes_are_asked_for_by_name(
            "SECRET_BROKER_CLIENT_MODE"@,
            env.client_mode,
            "enforced"@,
            config.attestation_mode,
        );
    }
}

/// The list of subjects in an accepted set-up holds exactly the entries that
/// its variable lists; where it lists none, any subject is accepted.
pub proof fn set_ups_keep_their_subjects(
    env: BrokerEnvironment,
    files: BrokerFiles,
    debug_build: bool,
    subject: Seq<char>,
)
    ensures
        broker_config(env, files, debug_build) matches Ok(config) ==> match env.subjects {
            EnvValue::Present(raw) => subject.len() > 0 && listed_subject(
                text::parts(raw@, ','),
                subject,
            ) <==> (config.subject_allowlist is Some && config.subject_allowlist->0.contains(
                subject,
            )),
            _ => config.subject_allowlist is None,
        },
{
    if let EnvValue::Present(raw) = env.subjects {
        subjects_are_those_listed(text::parts(raw@, ','), subject);
    }
}

/// The identity that a client shows is made of both its files: the
/// certificates of the one, the key of the other, and the bundle of the two.
/// There is one exactly where both files are named.
pub proof fn identities_are_made_of_both_files(
    mode: AttestationMode,
    cert_path: EnvValue,
    key_path: EnvValue,
    cert: Option<Vec<u8>>,
    key: Option<Vec<u8>>,
)
    ensures
        identity_for(mode, cert_path@, key_path@, contents(cert), contents(key)) matches Ok(
            identity,
        ) ==> {
            &&& identity is Some <==> cert_path is Present
            &&& identity is Some <==> key_path is Present
            &&& identity is None ==> !(mode is Enforced)
            &&& identity matches Some(identity) ==> {
                &&& cert is Some && key is Some
                &&& identity.pem == cert->0@ + key->0@
                &&& pem::chain_of(
                    pem::pem_sections(cert->0@),
                    "no certificates found in client bundle"@,
                ) == Ok::<_, Seq<char>>(identity.cert_chain)
                &&& pem::first_key(pem::pem_sections(key->0@)) == Ok::<_, Seq<char>>(identity.key)
            }
        },
        cert_path is Present != key_path is Present ==> identity_for(
            mode,
            cert_path@,
            key_path@,
            contents(cert),
            contents(key),
        ) is Err,
        !(cert_path is Present) && !(key_path is Present) && !(mode is Enforced) ==> identity_for(
            mode,
            cert_path@,
            key_path@,
            contents(cert),
            contents(key),
        ) == Ok::<Option<IdentityView>, Seq<char>>(None),
{
}

/// An endpoint goes with its mode where the connection to it is safe: over TLS
/// unless attestation is off, and on the host itself where the network is
/// trusted.
pub proof fn safe_endpoints_are_accepted(
    endpoint: EndpointView,
    env: BrokerEnvironment,
    debug_build: bool,
    mode: AttestationMode,
)
    ensures
        endpoint_for_mode(endpoint, env, debug_build) == Ok::<_, Seq<char>>((endpoint, mode)) <==> {
            &&& text::ascii_lowercase(
                text::trimmed(
                    match env.client_mode {
                        EnvValue::Present(raw) => raw@,
                        _ => "enforced"@,
                    },
                ),
            ) == text::ascii_lowercase(mode.name_text())
            &&& match mode {
                AttestationMode::Enforced => endpoint.scheme == "https"@,
                AttestationMode::Spiffe => endpoint.scheme == "https"@,
                AttestationMode::Local => endpoint.scheme == "https"@ && is_loopback(endpoint),
                AttestationMode::Disabled => is_loopback(endpoint) && debug_build
                    && unsafe_broker_allowed(env.allow_unsafe@),
            }
        },
{
    secret_broker_client::modes_are_asked_for_by_name(
        "SECRET_BROKER_CLIENT_MODE"@,
        env.client_mode,
        "enforced"@,
        mode,
    );
}

/// A set-up that is read holds each setting in its own place.
pub proof fn read_set_ups_hold_their_settings(
    config: SecretBrokerClientConfig,
    env: BrokerEnvironment,
    files: BrokerFiles,
    debug_build: bool,
)
    requires
        broker_config(env, files, debug_build) == Ok::<_, Seq<char>>(config@),
    ensures
        config.pccs_url is Some <==> env.pccs_url is Present,
        env.pccs_url matches EnvValue::Present(url) ==> config.pccs_url->0@ == url@,
        config.my_spiffe_id is Some <==> env.client_spiffe_id is Present,
        env.client_spiffe_id matches EnvValue::Present(id) ==> config.my_spiffe_id->0@ == id@,
        env.spiffe_socket matches EnvValue::Present(path) ==> config.spiffe_socket_path is Some
            && config.spiffe_socket_path->0@ == path@,
        config::asked_number(env.timeout, config.timeout_seconds as nat, 10),
        config.identity is Some <==> env.client_cert is Present,
        config.identity is Some ==> files.client_cert is Some && files.client_key is Some
            && config.identity->0.pem@ == files.client_cert->0@ + files.client_key->0@,
{
    set_ups_come_from_their_variables(env, files, debug_build);
    identities_are_made_of_both_files(
        config.attestation_mode,
        env.client_cert,
        env.client_key,
        files.client_cert,
        files.client_key,
    );
    assert(config@.timeout_seconds == config.timeout_seconds);
    assert(config@.identity == optional_identity(config.identity));
    assert(config@.pccs_url == text::optional(config.pccs_url));
    assert(config@.my_spiffe_id == text::optional(config.my_spiffe_id));
    assert(config@.spiffe_socket_path == text::optional(config.spiffe_socket_path));
}

} // verus!
