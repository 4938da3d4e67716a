//! The channel to the secret broker: how it is protected, where it leads, and
//! what goes over it.

use crate::broker_config;
use crate::broker_config::{ClientIdentity, SecretBrokerClientConfig};
use crate::config;
use crate::config::{EnvValue, EnvView};
use crate::endpoint::{Endpoint, EndpointView};
use crate::error::{rejected, Rejection};
use crate::peer;
use crate::peer::{RaTlsServerVerifier, SpiffeServerVerifier};
use crate::pem;
use crate::pem::{KeyView, PrivateKey};
use crate::secret_broker_client::{AttestationMode, PostgresCredentialRequest};
use crate::text;
use vstd::prelude::*;

verus! {

/// The path that a variable names, which is required in local mode.
pub open spec fn local_path_of(key: Seq<char>, value: EnvView) -> Result<Seq<char>, Seq<char>> {
    match value.readable() {
        Some(path) => Ok(path),
        None => Err(key + " is required in local mode"@),
    }
}

/// Read the path that a variable names, which is required in local mode.
pub fn local_path(key: &str, value: &EnvValue) -> (res: Result<String, Rejection>)
    ensures
        config::answer(res) == local_path_of(key@, value@),
{
    match value.get() {
        Some(path) => Ok(path.to_owned()),
        None => {
            let reason = text::concat2(key, " is required in local mode");
            Err(rejected(reason.as_str()))
        },
    }
}

/// What is said of a file that could not be read.
pub open spec fn unreadable_file(what: Seq<char>, path: Seq<char>) -> Seq<char> {
    "failed to read local loopback "@ + what + " from "@ + path
}

fn unreadable_file_text(what: &str, path: &str) -> (res: String)
    ensures
        res@ == unreadable_file(what@, path@),
{
    text::concat3("failed to read local loopback ", what, " from ").concat(path)
}

/// The variables and files of the connection on the host itself. A file is
/// `None` where it could not be read or is not named.
#[derive(Debug)]
pub struct LoopbackFiles {
    /// `SECRET_BROKER_CLIENT_CERT`
    pub client_cert_path: EnvValue,
    pub client_cert: Option<Vec<u8>>,
    /// `SECRET_BROKER_CLIENT_KEY`
    pub client_key_path: EnvValue,
    pub client_key: Option<Vec<u8>>,
    /// `SECRET_BROKER_TLS_CA_CERT`
    pub authorities_path: EnvValue,
    pub authorities: Option<Vec<u8>>,
}

/// The contents of a required file, or why there are none.
pub open spec fn local_file_of(
    key: Seq<char>,
    path: EnvView,
    what: Seq<char>,
    contents: Option<Seq<u8>>,
) -> Result<Seq<u8>, Seq<char>> {
    match local_path_of(key, path) {
        Err(reason) => Err(reason),
        Ok(path) => match contents {
            Some(bytes) => Ok(bytes),
            None => Err(unreadable_file(what, path)),
        },
    }
}

fn local_file<'a>(key: &str, path: &EnvValue, what: &str, contents: &'a Option<Vec<u8>>) -> (res:
    Result<&'a Vec<u8>, Rejection>)
    ensures
        match res {
            Ok(bytes) => local_file_of(
                key@,
                path@,
                what@,
                broker_config::contents(*contents),
            ) == Ok::<_, Seq<char>>(bytes@),
            Err(rejection) => local_file_of(
                key@,
                path@,
                what@,
                broker_config::contents(*contents),
            ) == Err::<Seq<u8>, _>(rejection@),
        },
{
    let path = match local_path(key, path) {
        Ok(path) => path,
        Err(rejection) => return Err(rejection),
    };
    match contents {
        Some(bytes) => Ok(bytes),
        None => {
            let reason = unreadable_file_text(what, path.as_str());
            Err(rejected(reason.as_str()))
        },
    }
}

/// What the connection on the host itself is protected by.
#[derive(Debug)]
pub struct LoopbackTls {
    pub cert_chain: Vec<Vec<u8>>,
    pub key: PrivateKey,
    pub authorities: Vec<Vec<u8>>,
}

/// What the connection on the host itself is protected by, over views.
pub struct LoopbackView {
    pub cert_chain: Seq<Seq<u8>>,
    pub key: KeyView,
    pub authorities: Seq<Seq<u8>>,
}

impl View for LoopbackTls {
    type V = LoopbackView;

    open spec fn view(&self) -> LoopbackView {
        LoopbackView {
            cert_chain: pem::byte_views(self.cert_chain@),
            key: self.key@,
            authorities: pem::byte_views(self.authorities@),
        }
    }
}

/// The certificates that the client shows: those of its identity, or those of
/// the file.
pub open spec fn loopback_chain(
    identity: Option<broker_config::IdentityView>,
    files: LoopbackFiles,
) -> Result<Seq<Seq<u8>>, Seq<char>> {
    match identity {
        Some(identity) => Ok(identity.cert_chain),
        None => match local_file_of(
            "SECRET_BROKER_CLIENT_CERT"@,
            files.client_cert_path@,
            "client cert"@,
            broker_config::contents(files.client_cert),
        ) {
            Err(reason) => Err(reason),
            Ok(bytes) => pem::chain_of(
                pem::pem_sections(bytes),
                "no certificates found in client bundle"@,
            ),
        },
    }
}

/// The key that the client uses: that of its identity, or that of the file.
pub open spec fn loopback_key(
    identity: Option<broker_config::IdentityView>,
    files: LoopbackFiles,
) -> Result<KeyView, Seq<char>> {
    match identity {
        Some(identity) => Ok(identity.key),
        None => match local_file_of(
            "SECRET_BROKER_CLIENT_KEY"@,
            files.client_key_path@,
            "client key"@,
            broker_config::contents(files.client_key),
        ) {
            Err(reason) => Err(reason),
            Ok(bytes) => pem::first_key(pem::pem_sections(bytes)),
        },
    }
}

/// What the connection on the host itself is protected by, or what is missing.
pub open spec fn loopback_tls(
    identity: Option<broker_config::IdentityView>,
    files: LoopbackFiles,
) -> Result<LoopbackView, Seq<char>> {
    match loopback_chain(identity, files) {
        Err(reason) => Err(reason),
        Ok(cert_chain) => match loopback_key(identity, files) {
            Err(reason) => Err(reason),
            Ok(key) => match local_file_of(
                "SECRET_BROKER_TLS_CA_CERT"@,
                files.authorities_path@,
                "CA cert"@,
                broker_config::contents(files.authorities),
            ) {
                Err(reason) => Err(reason),
                Ok(bytes) => match pem::authorities_of(pem::pem_sections(bytes)) {
                    Err(reason) => Err(reason),
                    Ok(authorities) => Ok(LoopbackView { cert_chain, key, authorities }),
                },
            },
        },
    }
}

fn copy_chain(chain: &Vec<Vec<u8>>) -> (res: Vec<Vec<u8>>)
    ensures
        pem::byte_views(res@) == pem::byte_views(chain@),
{
    let mut out: Vec<Vec<u8>> = Vec::new();
    let ghost all = pem::byte_views(chain@);
    let n: usize = chain.len();
    let mut i: usize = 0;
    assert(pem::byte_views(out@) =~= all.take(0));
    while i < n
        invariant
            i <= n,
            n == chain@.len(),
            all == pem::byte_views(chain@),
            pem::byte_views(out@) == all.take(i as int),
        decreases n - i,
    {
        let ghost before = pem::byte_views(out@);
        out.push(pem::copy_bytes(chain[i].as_slice()));
        i = i + 1;
        assert(pem::byte_views(out@) =~= before.push(chain@[i - 1]@));
        assert(all.take(i as int) =~= all.take(i - 1).push(chain@[i - 1]@));
    }
    assert(all.take(n as int) =~= all);
    out
}

/// Gather what the connection on the host itself is protected by.
pub fn build_loopback_tls(identity: &Option<ClientIdentity>, files: &LoopbackFiles) -> (res: Result<
    LoopbackTls,
    Rejection,
>)
    ensures
        config::answer(res) == loopback_tls(broker_config::optional_identity(*identity), *files),
{
    let cert_chain = match identity {
        Some(identity) => copy_chain(&identity.cert_chain),
        None => {
            let bytes = match local_file(
                "SECRET_BROKER_CLIENT_CERT",
                &files.client_cert_path,
                "client cert",
                &files.client_cert,
            ) {
                Ok(bytes) => bytes,
                Err(rejection) => return Err(rejection),
            };
            match pem::parse_cert_chain(bytes.as_slice()) {
                Ok(chain) => chain,
                Err(rejection) => return Err(rejection),
            }
        },
    };
    let key = match identity {
        Some(identity) => PrivateKey {
            format: identity.key.format,
            der: pem::copy_bytes(identity.key.der.as_slice()),
        },
        None => {
            let bytes = match local_file(
                "SECRET_BROKER_CLIENT_KEY",
                &files.client_key_path,
                "client key",
                &files.client_key,
            ) {
                Ok(bytes) => bytes,
                Err(rejection) => return Err(rejection),
            };
            match pem::parse_private_key(bytes.as_slice()) {
                Ok(key) => key,
                Err(rejection) => return Err(rejection),
            }
        },
    };
    let bytes = match local_file(
        "SECRET_BROKER_TLS_CA_CERT",
        &files.authorities_path,
        "CA cert",
        &files.authorities,
    ) {
        Ok(bytes) => bytes,
        Err(rejection) => return Err(rejection),
    };
    match pem::parse_loopback_authorities(bytes.as_slice()) {
        Ok(authorities) => Ok(LoopbackTls { cert_chain, key, authorities }),
        Err(rejection) => Err(rejection),
    }
}

/// The address of the SPIFFE agent.
pub open spec fn agent_address(socket_path: Option<Seq<char>>) -> Seq<char> {
    "unix:"@ + (match socket_path {
        Some(path) => path,
        None => "/var/run/spire/agent.sock"@,
    })
}

/// The address of the SPIFFE agent.
pub fn spiffe_socket_endpoint(socket_path: &Option<String>) -> (res: String)
    ensures
        res@ == agent_address(text::optional(*socket_path)),
{
    match socket_path {
        Some(path) => text::concat2("unix:", path.as_str()),
        None => text::concat2("unix:", "/var/run/spire/agent.sock"),
    }
}

/// What is said where the SPIFFE agent knows no authorities for a domain.
pub fn missing_bundle(trust_domain: &str) -> (res: Rejection)
    ensures
        res@ == "no SPIFFE bundle found for trust domain: "@ + trust_domain@,
{
    let reason = text::concat2("no SPIFFE bundle found for trust domain: ", trust_domain);
    rejected(reason.as_str())
}

/// The verifier for the peer that the environment names, in SPIFFE mode.
pub fn spiffe_verifier(target: &EnvValue) -> (res: Result<SpiffeServerVerifier, Rejection>)
    ensures
        match target@.readable() {
            None => res matches Err(rejection) && rejection@
                == "SECRET_BROKER_TARGET_SPIFFE_ID is required in SPIFFE mode"@,
            Some(id) => match res {
                Ok(verifier) => peer::spiffe_id_of(id) == Some(verifier.allowed_id()),
                Err(rejection) => peer::spiffe_id_of(id) is None && rejection@
                    == "failed to create SPIFFE verifier: unexpected error: invalid target SPIFFE ID: "@
                    + id,
            },
        },
{
    let id = match target.get() {
        Some(id) => id,
        None => return Err(
            rejected("SECRET_BROKER_TARGET_SPIFFE_ID is required in SPIFFE mode"),
        ),
    };
    match SpiffeServerVerifier::new(id) {
        Ok(verifier) => Ok(verifier),
        Err(_) => {
            let reason = text::concat2(
                "failed to create SPIFFE verifier: unexpected error: invalid target SPIFFE ID: ",
                id,
            );
            Err(rejected(reason.as_str()))
        },
    }
}

/// How the channel is protected, and the protocols that are offered on it.
#[derive(Debug)]
pub struct TlsPlan {
    pub protection: TlsProtection,
    /// The application protocols, best first; none where there is no TLS.
    pub alpn_protocols: Vec<Vec<u8>>,
}

/// How the channel is protected.
#[derive(Debug)]
pub enum TlsProtection {
    /// Not by the client itself; only on the host itself, for debugging.
    Off,
    /// By authorities from a file, and by the identity of the client.
    Loopback(LoopbackTls),
    /// By the identity and the authorities that the SPIFFE agent at this
    /// address hands out.
    Spiffe { socket_endpoint: String },
    /// By the attestation of the peer; the client shows its identity where it
    /// has one.
    Attested { with_identity: bool },
}

/// How the channel is protected, over views.
pub enum TlsPlanView {
    Off,
    Loopback(LoopbackView),
    Spiffe { socket_endpoint: Seq<char> },
    Attested { with_identity: bool },
}

impl View for TlsProtection {
    type V = TlsPlanView;

    open spec fn view(&self) -> TlsPlanView {
        match self {
            TlsProtection::Off => TlsPlanView::Off,
            TlsProtection::Loopback(tls) => TlsPlanView::Loopback(tls@),
            TlsProtection::Spiffe { socket_endpoint } => TlsPlanView::Spiffe {
                socket_endpoint: socket_endpoint@,
            },
            TlsProtection::Attested { with_identity } => TlsPlanView::Attested {
                with_identity: *with_identity,
            },
        }
    }
}

impl View for TlsPlan {
    type V = TlsPlanView;

    open spec fn view(&self) -> TlsPlanView {
        self.protection@
    }
}

/// How the channel of a set-up is protected.
pub open spec fn tls_plan(config: broker_config::BrokerConfigView, files: LoopbackFiles) -> Result<
    TlsPlanView,
    Seq<char>,
> {
    match config.attestation_mode {
        AttestationMode::Local => match loopback_tls(config.identity, files) {
            Ok(tls) => Ok(TlsPlanView::Loopback(tls)),
            Err(reason) => Err(reason),
        },
        AttestationMode::Disabled => Ok(TlsPlanView::Off),
        AttestationMode::Spiffe => Ok(
            TlsPlanView::Spiffe { socket_endpoint: agent_address(config.spiffe_socket_path) },
        ),
        AttestationMode::Enforced => Ok(
            TlsPlanView::Attested { with_identity: config.identity is Some },
        ),
    }
}

fn protection_for(config: &SecretBrokerClientConfig, files: &LoopbackFiles) -> (res: Result<
    TlsProtection,
    Rejection,
>)
    ensures
        config::answer(res) == tls_plan(config@, *files),
{
    match config.attestation_mode {
        AttestationMode::Local => match build_loopback_tls(&config.identity, files) {
            Ok(tls) => Ok(TlsProtection::Loopback(tls)),
            Err(rejection) => Err(rejection),
        },
        AttestationMode::Disabled => Ok(TlsProtection::Off),
        AttestationMode::Spiffe => Ok(
            TlsProtection::Spiffe {
                socket_endpoint: spiffe_socket_endpoint(&config.spiffe_socket_path),
            },
        ),
        AttestationMode::Enforced => Ok(
            TlsProtection::Attested { with_identity: config.identity.is_some() },
        ),
    }
}

/// Decide how the channel of a set-up is protected. Over TLS only HTTP/2 is
/// offered. Nothing but the disabled mode leads to a plan without TLS.
pub fn build_tls_config(config: &SecretBrokerClientConfig, files: &LoopbackFiles) -> (res: Result<
    TlsPlan,
    Rejection,
>)
    ensures
        config::answer(res) == tls_plan(config@, *files),
        res matches Ok(plan) ==> (plan@ is Off <==> config.attestation_mode
            == AttestationMode::Disabled),
        res matches Ok(plan) ==> (plan@ is Off ==> plan.alpn_protocols@.len() == 0),
        res matches Ok(plan) ==> (!(plan@ is Off) ==> pem::byte_views(plan.alpn_protocols@)
            == seq![seq![0x68u8, 0x32u8]]),
        config.attestation_mode == AttestationMode::Disabled ==> res is Ok,
{
    let protection = match protection_for(config, files) {
        Ok(protection) => protection,
        Err(rejection) => return Err(rejection),
    };
    let mut alpn_protocols: Vec<Vec<u8>> = Vec::new();
    if !matches!(protection, TlsProtection::Off) {
        let h2: Vec<u8> = vec![0x68, 0x32];
        assert(h2@ =~= seq![0x68u8, 0x32u8]);
        alpn_protocols.push(h2);
        assert(pem::byte_views(alpn_protocols@) =~= seq![seq![0x68u8, 0x32u8]]);
    }
    Ok(TlsPlan { protection, alpn_protocols })
}

/// How a connection is secured once it is open.
#[derive(Clone, Copy, Debug, PartialEq, Eq, Structural)]
pub enum ChannelSecurity {
    /// By the TLS set-up of the client.
    Custom,
    /// By TLS with the usual roots.
    Roots,
    /// Not at all.
    Plain,
}

/// Where a channel leads and how it is opened.
#[derive(Debug)]
pub struct ChannelPlan {
    pub address: String,
    pub security: ChannelSecurity,
    pub connect_timeout_seconds: u64,
    /// Whether the connection waits for the first call.
    pub lazy: bool,
}

/// Whether a channel leads to an endpoint and is opened as asked for.
pub open spec fn leads_to(
    plan: ChannelPlan,
    endpoint: EndpointView,
    timeout_seconds: u64,
    custom_tls: bool,
    lazy: bool,
) -> bool {
    &&& plan.address@ == (if custom_tls {
        endpoint.http_address
    } else {
        endpoint.address
    })
    &&& plan.security == (if custom_tls {
        ChannelSecurity::Custom
    } else if endpoint.scheme == "https"@ {
        ChannelSecurity::Roots
    } else {
        ChannelSecurity::Plain
    })
    &&& plan.connect_timeout_seconds == timeout_seconds
    &&& plan.lazy == lazy
}

/// Decide where a channel leads and how it is opened. With the TLS set-up of
/// the client the address is written with `http`, for that set-up encrypts by
/// itself.
pub fn build_channel(endpoint: &Endpoint, timeout_seconds: u64, custom_tls: bool, lazy: bool) -> (res:
    ChannelPlan)
    ensures
        leads_to(res, endpoint@, timeout_seconds, custom_tls, lazy),
{
    if custom_tls {
        return ChannelPlan {
            address: endpoint.http_address.clone(),
            security: ChannelSecurity::Custom,
            connect_timeout_seconds: timeout_seconds,
            lazy,
        };
    }
    let security = if text::equal(endpoint.scheme.as_str(), "https") {
        ChannelSecurity::Roots
    } else {
        ChannelSecurity::Plain
    };
    ChannelPlan {
        address: endpoint.address.clone(),
        security,
        connect_timeout_seconds: timeout_seconds,
        lazy,
    }
}

/// Whether a channel is the one of a set-up.
pub open spec fn channel_of(
    plan: ChannelPlan,
    config: broker_config::BrokerConfigView,
) -> bool {
    leads_to(
        plan,
        config.endpoint,
        config.timeout_seconds,
        config.attestation_mode != AttestationMode::Disabled,
        config.attestation_mode == AttestationMode::Disabled,
    )
}

/// Decide where the channel of a set-up leads. It waits for the first call
/// where the client does not make sure of its peer.
pub fn channel_for(config: &SecretBrokerClientConfig) -> (res: ChannelPlan)
    ensures
        channel_of(res, config@),
        res.security == ChannelSecurity::Custom <==> config.attestation_mode
            != AttestationMode::Disabled,
        res.lazy == (config.attestation_mode == AttestationMode::Disabled),
        res.connect_timeout_seconds == config.timeout_seconds,
        res.address@ == (if config.attestation_mode == AttestationMode::Disabled {
            config.endpoint@.address
        } else {
            config.endpoint@.http_address
        }),
        config.attestation_mode == AttestationMode::Disabled ==> (res.security
            == ChannelSecurity::Roots <==> config.endpoint@.scheme == "https"@),
{
    let disabled = matches!(config.attestation_mode, AttestationMode::Disabled);
    build_channel(&config.endpoint, config.timeout_seconds, !disabled, disabled)
}

/// The host and the port that a connection is opened to.
#[derive(Debug)]
pub struct ConnectTarget {
    pub host: String,
    pub port: u16,
    pub address: String,
}

/// Whether a connection is opened to this host and this port, with defaults.
pub open spec fn targets(
    target: ConnectTarget,
    host: Option<Seq<char>>,
    port: Option<u16>,
) -> bool {
    &&& target.host@ == (match host {
        Some(host) => host,
        None => "localhost"@,
    })
    &&& target.port == (match port {
        Some(port) => port,
        None => 443,
    })
    &&& target.address@ == target.host@ + ":"@ + text::decimal(target.port as nat)
}

/// The host and the port that an address names, with defaults.
pub fn connect_target(host: Option<&str>, port: Option<u16>) -> (res: ConnectTarget)
    ensures
        targets(res, text::optional_str(host), port),
{
    let host = match host {
        Some(host) => host.to_owned(),
        None => "localhost".to_owned(),
    };
    let port: u16 = match port {
        Some(port) => port,
        None => 443,
    };
    let number = text::to_decimal(port as u64);
    let address = text::concat3(host.as_str(), ":", number.as_str());
    ConnectTarget { host, port, address }
}

/// The parameters of a request for database credentials.
#[derive(Debug)]
pub struct PostgresCredentialParams {
    pub audience: String,
    pub scope: Vec<String>,
    pub ttl_seconds: Option<u64>,
    pub application_name: Option<String>,
}

/// Whether parameters are those of a request for database credentials.
pub open spec fn params_of(
    params: PostgresCredentialParams,
    request: PostgresCredentialRequest,
) -> bool {
    &&& params.audience@ == text::trimmed(request.audience@)
    &&& params.scope == request.scope
    &&& params.ttl_seconds == (if request.ttl_seconds == 0 {
        None::<u64>
    } else {
        Some(request.ttl_seconds)
    })
    &&& params.application_name == request.application_name
}

/// The parameters of a request for database credentials: a lifetime of zero
/// leaves it to the broker.
pub fn issue_postgres_credentials(request: PostgresCredentialRequest) -> (res:
    PostgresCredentialParams)
    ensures
        params_of(res, request),
{
    PostgresCredentialParams {
        audience: text::trim(request.audience.as_str()).to_owned(),
        scope: request.scope,
        ttl_seconds: if request.ttl_seconds == 0 {
            None
        } else {
            Some(request.ttl_seconds)
        },
        application_name: request.application_name,
    }
}

/// The parameters of a request to unwrap a secret with a token.
#[derive(Debug)]
pub struct UnwrapParams {
    pub handle: String,
    pub redeem_token: String,
}

/// Whether parameters are those of a request to unwrap a secret with a token.
pub open spec fn unwrap_params_of(
    params: UnwrapParams,
    handle: Seq<char>,
    redeem_token: Seq<char>,
) -> bool {
    &&& params.handle@ == text::trimmed(handle)
    &&& params.redeem_token@ == text::trimmed(redeem_token)
}

/// The parameters of a request to unwrap a secret with a token.
pub fn unwrap_secret_v2_with_token(handle: &str, redeem_token_b64: &str) -> (res: UnwrapParams)
    ensures
        unwrap_params_of(res, handle@, redeem_token_b64@),
{
    UnwrapParams {
        handle: text::trim(handle).to_owned(),
        redeem_token: text::trim(redeem_token_b64).to_owned(),
    }
}

/// The verifier for attested peers of a set-up.
pub open spec fn verifier_of(config: SecretBrokerClientConfig) -> RaTlsServerVerifier {
    RaTlsServerVerifier {
        policy: config.policy,
        subject_allowlist: config.subject_allowlist,
        pccs_url: config.pccs_url,
    }
}

/// The verifier for attested peers of a set-up.
pub fn attested_verifier(config: SecretBrokerClientConfig) -> (res: RaTlsServerVerifier)
    ensures
        res == verifier_of(config),
{
    RaTlsServerVerifier::new(config.policy, config.subject_allowlist, config.pccs_url)
}

/// The connection on the host itself is protected by the identity of the
/// client where it has one, and else by the certificates of the one file and
/// the key of the other. The authorities are those of their own file.
pub proof fn loopback_goes_by_the_identity(
    identity: Option<broker_config::IdentityView>,
    files: LoopbackFiles,
)
    ensures
        loopback_tls(identity, files) matches Ok(tls) ==> {
            &&& match identity {
                Some(identity) => tls.cert_chain == identity.cert_chain && tls.key == identity.key,
                None => {
                    &&& files.client_cert_path is Present
                    &&& files.client_key_path is Present
                    &&& files.client_cert is Some
                    &&& files.client_key is Some
                    &&& pem::chain_of(
                        pem::pem_sections(files.client_cert->0@),
                        "no certificates found in client bundle"@,
                    ) == Ok::<_, Seq<char>>(tls.cert_chain)
                    &&& pem::first_key(pem::pem_sections(files.client_key->0@)) == Ok::<
                        _,
                        Seq<char>,
                    >(tls.key)
                },
            }
            &&& files.authorities_path is Present
            &&& files.authorities is Some
            &&& pem::authorities_of(pem::pem_sections(files.authorities->0@)) == Ok::<
                _,
                Seq<char>,
            >(tls.authorities)
        },
{
}

/// With an identity nothing but the authorities has to be read from a file.
pub proof fn identities_need_no_files(
    identity: broker_config::IdentityView,
    files: LoopbackFiles,
)
    requires
        files.authorities_path is Present,
        files.authorities is Some,
        pem::authorities_of(pem::pem_sections(files.authorities->0@)) is Ok,
    ensures
        loopback_tls(Some(identity), files) is Ok,
{
}

/// Every mode has its own protection: the network is trusted with the files of
/// the host alone, the SPIFFE agent is asked at the socket of the set-up, and
/// an attested peer sees the identity of the client wherever there is one.
pub proof fn protections_follow_the_mode(
    config: broker_config::BrokerConfigView,
    files: LoopbackFiles,
)
    ensures
        match config.attestation_mode {
            AttestationMode::Local => {
                &&& tls_plan(config, files) is Ok <==> loopback_tls(config.identity, files) is Ok
                &&& tls_plan(config, files) matches Ok(plan) ==> plan == TlsPlanView::Loopback(
                    loopback_tls(config.identity, files)->Ok_0,
                )
            },
            AttestationMode::Disabled => tls_plan(config, files) == Ok::<_, Seq<char>>(
                TlsPlanView::Off,
            ),
            AttestationMode::Spiffe => tls_plan(config, files) == Ok::<_, Seq<char>>(
                TlsPlanView::Spiffe {
                    socket_endpoint: "unix:"@ + (match config.spiffe_socket_path {
                        Some(path) => path,
                        None => "/var/run/spire/agent.sock"@,
                    }),
                },
            ),
            AttestationMode::Enforced => tls_plan(config, files) == Ok::<_, Seq<char>>(
                TlsPlanView::Attested { with_identity: config.identity is Some },
            ),
        },
{
}

/// The channel of a set-up leads to its endpoint and gives up after its
/// timeout. Only without attestation may it go without TLS, wait for the first
/// call, or keep the scheme of the address.
pub proof fn channels_lead_to_their_endpoint(
    plan: ChannelPlan,
    config: broker_config::BrokerConfigView,
)
    requires
        channel_of(plan, config),
    ensures
        plan.connect_timeout_seconds == config.timeout_seconds,
        match config.attestation_mode {
            AttestationMode::Disabled => {
                &&& plan.address@ == config.endpoint.address
                &&& plan.lazy
                &&& plan.security is Roots <==> config.endpoint.scheme == "https"@
                &&& plan.security is Plain <==> config.endpoint.scheme != "https"@
            },
            _ => {
                &&& plan.address@ == config.endpoint.http_address
                &&& !plan.lazy
                &&& plan.security is Custom
            },
        },
{
}

/// A channel leads where it is asked to, whoever asks: the timeout and the
/// laziness are kept, and its own TLS set-up goes with the plain address.
pub proof fn channels_are_opened_as_asked(
    plan: ChannelPlan,
    endpoint: EndpointView,
    timeout_seconds: u64,
    custom_tls: bool,
    lazy: bool,
)
    requires
        leads_to(plan, endpoint, timeout_seconds, custom_tls, lazy),
    ensures
        plan.connect_timeout_seconds == timeout_seconds,
        plan.lazy <==> lazy,
        plan.security is Custom <==> custom_tls,
        custom_tls ==> plan.address@ == endpoint.http_address,
        !custom_tls ==> plan.address@ == endpoint.address,
        plan.security is Plain ==> !custom_tls && endpoint.scheme != "https"@,
{
}

/// The address of a connection is its host and its port in decimal digits, and
/// both can be read off it again: two connections to one address have the same
/// host and port, where no colon stands in the hosts.
pub proof fn targets_are_told_by_their_address(
    first: ConnectTarget,
    first_host: Seq<char>,
    first_port: u16,
    second: ConnectTarget,
    second_host: Seq<char>,
    second_port: u16,
)
    requires
        targets(first, Some(first_host), Some(first_port)),
        targets(second, Some(second_host), Some(second_port)),
        !first_host.contains(':'),
        !second_host.contains(':'),
        first.address@ == second.address@,
    ensures
        first_host == second_host,
        first_port == second_port,
{
    reveal_strlit(":");
    assert(":"@ =~= seq![':']);
    let address = first.address@;
    let n = first_host.len() as int;
    let m = second_host.len() as int;
    assert forall|i: int| 0 <= i < n implies #[trigger] address[i] != ':' by {
        assert(address[i] == first_host[i]);
        assert(first_host.contains(first_host[i]));
    }
    assert forall|i: int| 0 <= i < m implies #[trigger] address[i] != ':' by {
        assert(second.address@[i] == second_host[i]);
        assert(second_host.contains(second_host[i]));
    }
    assert(first.address@[n] == ':');
    assert(second.address@[m] == ':');
    assert(n == m);
    assert(first_host =~= address.take(n));
    assert(second_host =~= second.address@.take(n));
    assert(text::decimal(first_port as nat) =~= address.skip(n + 1));
    assert(text::decimal(second_port as nat) =~= second.address@.skip(n + 1));
    text::decimal_is_read_back(first_port as nat);
    text::decimal_is_read_back(second_port as nat);
}

/// A connection without a host is to this one, and one without a port to the
/// usual port of TLS.
pub proof fn targets_have_defaults(target: ConnectTarget, host: Option<Seq<char>>, port: Option<u16>)
    requires
        targets(target, host, port),
    ensures
        host is None ==> target.host@ == "localhost"@,
        host is Some ==> target.host@ == host->0,
        port is None ==> target.port == 443,
        port is Some ==> target.port == port->0,
        target.address@ == target.host@ + ":"@ + text::decimal(target.port as nat),
{
}

/// A request for database credentials reaches the broker whole: its scopes and
/// its application as they are, its audience without white space around it,
/// and its lifetime unless that is zero.
pub proof fn requests_reach_the_broker_whole(
    params: PostgresCredentialParams,
    request: PostgresCredentialRequest,
)
    requires
        params_of(params, request),
    ensures
        params.audience@ == text::trimmed(request.audience@),
        params.scope@ == request.scope@,
        params.application_name == request.application_name,
        request.ttl_seconds == 0 <==> params.ttl_seconds is None,
        params.ttl_seconds is Some ==> params.ttl_seconds->0 == request.ttl_seconds,
{
}

/// A secret is unwrapped by its own handle with its own token; white space
/// around them does not count.
pub proof fn handles_and_tokens_keep_their_place(
    params: UnwrapParams,
    handle: Seq<char>,
    redeem_token: Seq<char>,
)
    requires
        unwrap_params_of(params, handle, redeem_token),
    ensures
        params.handle@ == text::trimmed(handle),
        params.redeem_token@ == text::trimmed(redeem_token),
{
}

/// Peers are verified by the policy, the subjects and the collateral service
/// of the set-up, all of them as they are.
pub proof fn verifiers_keep_the_set_up(config: SecretBrokerClientConfig)
    ensures
        ({
            let verifier = verifier_of(config);
            &&& verifier.policy@ == config@.policy
            &&& broker_config::optional_set(verifier.subject_allowlist)
                == config@.subject_allowlist
            &&& text::optional(verifier.pccs_url) == config@.pccs_url
        }),
{
}

/// What protects the connection on the host itself has the certificates of the
/// client and those of the authorities each in its own place.
pub proof fn loopback_keeps_its_parts(
    tls: LoopbackTls,
    identity: ClientIdentity,
    files: LoopbackFiles,
)
    requires
        loopback_tls(Some(identity@), files) == Ok::<_, Seq<char>>(tls@),
    ensures
        pem::byte_views(tls.cert_chain@) == pem::byte_views(identity.cert_chain@),
        tls.key.der@ == identity.key.der@,
        tls.key.format == identity.key.format,
        files.authorities is Some,
        pem::certificates(pem::pem_sections(files.authorities->0@)) == Ok::<_, Seq<char>>(
            pem::byte_views(tls.authorities@),
        ),
{
    assert(tls@.cert_chain == pem::byte_views(tls.cert_chain@));
    assert(tls@.key == tls.key@ && identity@.key == identity.key@);
    assert(tls@.authorities == pem::byte_views(tls.authorities@));
    assert(tls.key@.der == identity.key@.der);
}

} // verus!
