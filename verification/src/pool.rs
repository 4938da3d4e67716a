//! Connection pools: how each is connected, which extensions it may hold, and
//! when leased credentials are replaced.

use crate::config;
use crate::config::{
    env_flag, BrokerCredentialConfig, EnvValue, EnvView, NativeAuthConfig, NativeConfig,
};
use crate::endpoint;
use crate::endpoint::{Endpoint, EndpointView};
use crate::error;
use crate::error::{configuration_error, DatabaseError, DbResult};
use crate::secret_broker_client::{PostgresCredentialLease, PostgresCredentialRequest};
use crate::text;
use crate::time::Timestamp;
use vstd::prelude::*;

verus! {

/// How long before the expiry of a lease it is replaced.
pub const LEASE_REFRESH_GRACE_SECS: i64 = 60;

/// How long to wait after a failure to replace a lease.
pub const LEASE_REFRESH_RETRY_SECS: u64 = 15;

/// The host that a connection is made to: the last one that a parameter names,
/// or else the one of the authority. A parameter that names a socket leaves
/// the host as it is.
pub open spec fn dsn_host(
    authority: Option<Seq<char>>,
    query: Seq<(Seq<char>, Seq<char>)>,
) -> Option<Seq<char>>
    decreases query.len(),
{
    if query.len() == 0 {
        authority
    } else {
        let (name, value) = query.last();
        if name == "hostaddr"@ || name == "host"@ && !text::begins_with(value, "/"@) {
            Some(value)
        } else {
            dsn_host(authority, query.drop_last())
        }
    }
}

/// The port that a connection is made to: the last one that a parameter names,
/// or else the one of the authority.
pub open spec fn dsn_port(authority: Option<u16>, query: Seq<(Seq<char>, Seq<char>)>) -> Option<nat>
    decreases query.len(),
{
    if query.len() == 0 {
        match authority {
            Some(port) => Some(port as nat),
            None => None,
        }
    } else {
        let (name, value) = query.last();
        if name == "port"@ && text::spells_up_to(value, 65_535) {
            text::unsigned_value(value)
        } else {
            dsn_port(authority, query.drop_last())
        }
    }
}

/// Whether an address names PgBouncer: by the host `pgbouncer`, in upper or
/// lower case, or by the port 6432. A text that spells no address does not.
pub open spec fn names_pgbouncer(endpoint: Option<EndpointView>) -> bool {
    match endpoint {
        None => false,
        Some(endpoint) => {
            ||| dsn_host(endpoint.host, endpoint.query) matches Some(host) && text::ascii_lowercase(
                host,
            ) == "pgbouncer"@
            ||| dsn_port(endpoint.port, endpoint.query) == Some(6_432nat)
        },
    }
}

/// Without parameters that name a host or a port, those of the authority
/// decide; a parameter in the last place replaces them.
pub proof fn parameters_replace_the_authority(
    endpoint: EndpointView,
    query: Seq<(Seq<char>, Seq<char>)>,
    value: Seq<char>,
)
    ensures
        (forall|i: int|
            0 <= i < endpoint.query.len() ==> {
                let name = (#[trigger] endpoint.query[i]).0;
                name != "host"@ && name != "hostaddr"@ && name != "port"@
            }) ==> (names_pgbouncer(Some(endpoint)) <==> {
            ||| endpoint.host matches Some(host) && text::ascii_lowercase(host) == "pgbouncer"@
            ||| endpoint.port == Some(6_432u16)
        }),
        endpoint.query == query.push(("port"@, value)) && text::spells_up_to(value, 65_535)
            ==> dsn_port(endpoint.port, endpoint.query) == text::unsigned_value(value),
        endpoint.query == query.push(("host"@, value)) && !text::begins_with(value, "/"@)
            ==> dsn_host(endpoint.host, endpoint.query) == Some(value),
{
    assert(query.push(("port"@, value)).last() == ("port"@, value));
    assert(query.push(("host"@, value)).last() == ("host"@, value));
    if forall|i: int|
        0 <= i < endpoint.query.len() ==> {
            let name = (#[trigger] endpoint.query[i]).0;
            name != "host"@ && name != "hostaddr"@ && name != "port"@
        } {
        lemma_no_parameters(endpoint.host, endpoint.port, endpoint.query);
    }
}

proof fn lemma_no_parameters(
    host: Option<Seq<char>>,
    port: Option<u16>,
    query: Seq<(Seq<char>, Seq<char>)>,
)
    requires
        forall|i: int|
            0 <= i < query.len() ==> {
                let name = (#[trigger] query[i]).0;
                name != "host"@ && name != "hostaddr"@ && name != "port"@
            },
    ensures
        dsn_host(host, query) == host,
        dsn_port(port, query) == (match port {
            Some(port) => Some(port as nat),
            None => None,
        }),
    decreases query.len(),
{
    if query.len() > 0 {
        assert(query[query.len() - 1] == query.last());
        let rest = query.drop_last();
        assert forall|i: int| 0 <= i < rest.len() implies {
            let name = (#[trigger] rest[i]).0;
            name != "host"@ && name != "hostaddr"@ && name != "port"@
        } by {
            assert(rest[i] == query[i]);
        }
        lemma_no_parameters(host, port, rest);
    }
}

fn has_pgbouncer_host(endpoint: &Endpoint) -> (res: bool)
    ensures
        res == (dsn_host(endpoint@.host, endpoint@.query) matches Some(host)
            && text::ascii_lowercase(host) == "pgbouncer"@),
{
    let query = &endpoint.query;
    let ghost all = endpoint@.query;
    let mut i: usize = query.len();
    assert(all.take(i as int) =~= all);
    while i > 0
        invariant
            i <= query@.len(),
            *query == endpoint.query,
            all == endpoint::pair_views(query@),
            all == endpoint@.query,
            dsn_host(endpoint@.host, all) == dsn_host(endpoint@.host, all.take(i as int)),
        decreases i,
    {
        let (name, value) = &query[i - 1];
        proof {
            assert(all.take(i as int).last() == (name@, value@));
            assert(all.take(i as int).drop_last() =~= all.take(i - 1));
        }
        if text::equal(name.as_str(), "hostaddr") || (text::equal(name.as_str(), "host")
            && !text::starts_with(value.as_str(), "/")) {
            let lower = text::to_ascii_lowercase(value.as_str());
            return text::equal(lower.as_str(), "pgbouncer");
        }
        i = i - 1;
    }
    match &endpoint.host {
        Some(host) => text::equal(text::to_ascii_lowercase(host.as_str()).as_str(), "pgbouncer"),
        None => false,
    }
}

fn has_pgbouncer_port(endpoint: &Endpoint) -> (res: bool)
    ensures
        res == (dsn_port(endpoint@.port, endpoint@.query) == Some(6_432nat)),
{
    let query = &endpoint.query;
    let ghost all = endpoint@.query;
    let mut i: usize = query.len();
    assert(all.take(i as int) =~= all);
    while i > 0
        invariant
            i <= query@.len(),
            *query == endpoint.query,
            all == endpoint::pair_views(query@),
            all == endpoint@.query,
            dsn_port(endpoint@.port, all) == dsn_port(endpoint@.port, all.take(i as int)),
        decreases i,
    {
        let (name, value) = &query[i - 1];
        proof {
            assert(all.take(i as int).last() == (name@, value@));
            assert(all.take(i as int).drop_last() =~= all.take(i - 1));
        }
        if text::equal(name.as_str(), "port") {
            if let Ok(port) = text::parse_u64(value.as_str()) {
                if port <= 65_535 {
                    return port == 6_432;
                }
            }
        }
        i = i - 1;
    }
    match endpoint.port {
        Some(port) => port == 6_432,
        None => false,
    }
}

/// What is said of an address that does not name PgBouncer.
pub open spec fn pgbouncer_required(url: Seq<char>) -> Seq<char> {
    "PgBouncer DSN required (port 6432 or host pgbouncer): "@ + url
        + ". Set SECURE_DB_ALLOW_DIRECT_BOOTSTRAP=1 for admin bootstrap or SECURE_DB_RATLS_MODE=disabled for development."@
}

/// Accept only an address that names PgBouncer, by the parts that it is read
/// as.
pub fn check_pgbouncer(url: &str, endpoint: &Option<Endpoint>) -> (res: DbResult<()>)
    ensures
        res is Ok <==> names_pgbouncer(endpoint::endpoint_view(*endpoint)),
        res matches Err(error) ==> error@ == error::configuration(pgbouncer_required(url@)),
{
    if let Some(endpoint) = endpoint {
        if has_pgbouncer_host(endpoint) || has_pgbouncer_port(endpoint) {
            return Ok(());
        }
    }
    let message = text::concat3(
        "PgBouncer DSN required (port 6432 or host pgbouncer): ",
        url,
        ". Set SECURE_DB_ALLOW_DIRECT_BOOTSTRAP=1 for admin bootstrap or SECURE_DB_RATLS_MODE=disabled for development.",
    );
    Err(configuration_error(message.as_str()))
}

/// Accept only an address that names PgBouncer.
pub fn ensure_pgbouncer_dsn(url: &str) -> (res: DbResult<()>)
    ensures
        res is Ok <==> names_pgbouncer(endpoint::url_parts(url@)),
        res matches Err(error) ==> error@ == error::configuration(pgbouncer_required(url@)),
        endpoint::plainly_read(url@, endpoint::url_parts(url@)),
{
    check_pgbouncer(url, &endpoint::parse_url(url))
}

/// Whether a connection may do without TLS.
#[derive(Clone, Copy, Debug, PartialEq, Eq, Structural)]
pub enum SslMode {
    Prefer,
    Require,
}

/// Which pool is meant.
#[derive(Clone, Copy, Debug, PartialEq, Eq, Structural)]
pub enum PoolKind {
    Data,
    Secrets,
}

impl PoolKind {
    /// The name of the pool in messages.
    pub open spec fn label_text(self) -> Seq<char> {
        match self {
            PoolKind::Data => "data"@,
            PoolKind::Secrets => "secrets"@,
        }
    }

    /// The name of the pool in messages.
    pub fn label(self) -> (res: &'static str)
        ensures
            res@ == self.label_text(),
    {
        match self {
            PoolKind::Data => "data",
            PoolKind::Secrets => "secrets",
        }
    }
}

/// How to connect a pool.
#[derive(Debug)]
pub struct ConnectPlan {
    pub database_url: String,
    pub ssl_mode: SslMode,
    pub application_name: String,
    pub username: Option<String>,
    pub password: Option<String>,
}

/// How to connect a pool, over views.
pub struct ConnectView {
    pub database_url: Seq<char>,
    pub ssl_mode: SslMode,
    pub application_name: Seq<char>,
    pub username: Option<Seq<char>>,
    pub password: Option<Seq<char>>,
}

impl View for ConnectPlan {
    type V = ConnectView;

    open spec fn view(&self) -> ConnectView {
        ConnectView {
            database_url: self.database_url@,
            ssl_mode: self.ssl_mode,
            application_name: self.application_name@,
            username: text::optional(self.username),
            password: text::optional(self.password),
        }
    }
}

/// Whether the variable for RA-TLS turns it off.
pub open spec fn ratls_disabled(mode: EnvView) -> bool {
    text::ascii_lowercase(mode.or_default("enforced"@)) == text::ascii_lowercase("disabled"@)
}

/// How a pool with a static address is connected. The address has to name
/// PgBouncer, unless RA-TLS is off or the direct bootstrap is allowed; TLS is
/// required, unless RA-TLS is off.
pub open spec fn static_plan(
    database_url: Seq<char>,
    endpoint: Option<EndpointView>,
    application_name: Seq<char>,
    ratls_mode: EnvView,
    allow_direct: EnvView,
) -> Result<ConnectView, error::ErrorView> {
    let plan = ConnectView {
        database_url,
        ssl_mode: if ratls_disabled(ratls_mode) {
            SslMode::Prefer
        } else {
            SslMode::Require
        },
        application_name,
        username: None,
        password: None,
    };
    if ratls_disabled(ratls_mode) {
        Ok(plan)
    } else {
        match config::flag("SECURE_DB_ALLOW_DIRECT_BOOTSTRAP"@, allow_direct) {
            Err(error) => Err(error),
            Ok(true) => Ok(plan),
            Ok(false) => if names_pgbouncer(endpoint) {
                Ok(plan)
            } else {
                Err(error::configuration(pgbouncer_required(database_url)))
            },
        }
    }
}

/// Decide how a pool with a static address is connected.
pub fn plan_static_pool(
    database_url: &str,
    application_name: &str,
    ratls_mode: &EnvValue,
    allow_direct: &EnvValue,
) -> (res: DbResult<ConnectPlan>)
    ensures
        error::outcome(res) == static_plan(
            database_url@,
            endpoint::url_parts(database_url@),
            application_name@,
            ratls_mode@,
            allow_direct@,
        ),
        endpoint::plainly_read(database_url@, endpoint::url_parts(database_url@)),
{
    let endpoint = endpoint::parse_url(database_url);
    plan_addressed_pool(database_url, &endpoint, application_name, ratls_mode, allow_direct)
}

/// Decide how a pool with a static address is connected, by the parts that the
/// address is read as.
pub fn plan_addressed_pool(
    database_url: &str,
    endpoint: &Option<Endpoint>,
    application_name: &str,
    ratls_mode: &EnvValue,
    allow_direct: &EnvValue,
) -> (res: DbResult<ConnectPlan>)
    ensures
        error::outcome(res) == static_plan(
            database_url@,
            endpoint::endpoint_view(*endpoint),
            application_name@,
            ratls_mode@,
            allow_direct@,
        ),
{
    let mode = text::to_ascii_lowercase(ratls_mode.or("enforced"));
    let disabled = text::equal(mode.as_str(), text::to_ascii_lowercase("disabled").as_str());
    if !disabled {
        let direct: bool = match env_flag("SECURE_DB_ALLOW_DIRECT_BOOTSTRAP", allow_direct) {
            Ok(direct) => direct,
            Err(error) => return Err(error),
        };
        if !direct {
            match check_pgbouncer(database_url, endpoint) {
                Ok(()) => {},
                Err(error) => return Err(error),
            }
        }
    }
    Ok(
        ConnectPlan {
            database_url: database_url.to_owned(),
            ssl_mode: if disabled {
                SslMode::Prefer
            } else {
                SslMode::Require
            },
            application_name: application_name.to_owned(),
            username: None,
            password: None,
        },
    )
}

/// How a pool with leased credentials is connected: always with TLS.
pub open spec fn leased_plan(
    lease: PostgresCredentialLease,
    application_name: Seq<char>,
) -> ConnectView {
    ConnectView {
        database_url: lease.database_url@,
        ssl_mode: SslMode::Require,
        application_name,
        username: text::optional(lease.username),
        password: text::optional(lease.password),
    }
}

/// How a pool with leased credentials is connected: always with TLS.
pub fn connect_options_from_lease(lease: &PostgresCredentialLease, application_name: &str) -> (res:
    ConnectPlan)
    ensures
        res@ == leased_plan(*lease, application_name@),
{
    ConnectPlan {
        database_url: lease.database_url.clone(),
        ssl_mode: SslMode::Require,
        application_name: application_name.to_owned(),
        username: text::copy_optional(&lease.username),
        password: text::copy_optional(&lease.password),
    }
}

/// TLS is left optional only where RA-TLS is explicitly off.
pub proof fn plain_connections_are_explicit(
    database_url: Seq<char>,
    endpoint: Option<EndpointView>,
    application_name: Seq<char>,
    ratls_mode: EnvView,
    allow_direct: EnvView,
)
    ensures
        static_plan(database_url, endpoint, application_name, ratls_mode, allow_direct) matches Ok(plan) ==> (
        plan.ssl_mode == SslMode::Prefer <==> ratls_disabled(ratls_mode)),
        ratls_disabled(ratls_mode) ==> ratls_mode is Present,
{
    if !(ratls_mode is Present) {
        reveal_strlit("enforced");
        reveal_strlit("disabled");
        assert(text::ascii_lowercase("enforced"@)[0] == 'e');
        assert(text::ascii_lowercase("disabled"@)[0] == 'd');
    }
}

/// Whether a request asks for leased credentials as they are configured, in
/// the name of the application.
pub open spec fn asks_for(
    request: PostgresCredentialRequest,
    credential: BrokerCredentialConfig,
    application_name: Seq<char>,
) -> bool {
    &&& request.audience == credential.audience
    &&& request.scope@ == credential.scope@
    &&& request.ttl_seconds == credential.ttl_seconds
    &&& text::optional(request.application_name) == Some(application_name)
}

/// The request for leased credentials, in the name of the application.
pub fn lease_request(credential: &BrokerCredentialConfig, application_name: &str) -> (res:
    PostgresCredentialRequest)
    ensures
        asks_for(res, *credential, application_name@),
{
    PostgresCredentialRequest {
        audience: credential.audience.clone(),
        scope: text::copy_list(&credential.scope),
        ttl_seconds: credential.ttl_seconds,
        application_name: Some(application_name.to_owned()),
    }
}

/// The failure of the broker to lease credentials.
pub fn lease_failure(problem: &str) -> (res: DatabaseError)
    ensures
        res@ == error::configuration(
            "failed to obtain PostgreSQL credentials from secret broker: "@ + problem@,
        ),
{
    let message = text::concat2(
        "failed to obtain PostgreSQL credentials from secret broker: ",
        problem,
    );
    configuration_error(message.as_str())
}

/// The failure to set up the broker client.
pub fn broker_client_failure(problem: &str) -> (res: DatabaseError)
    ensures
        res@ == error::configuration(
            "failed to initialise secret-broker client for Postgres credentials: "@ + problem@,
        ),
{
    let message = text::concat2(
        "failed to initialise secret-broker client for Postgres credentials: ",
        problem,
    );
    configuration_error(message.as_str())
}

/// The failure to read the address of a lease.
pub fn lease_url_failure(kind: PoolKind, problem: &str) -> (res: DatabaseError)
    ensures
        res@ == error::configuration(
            "invalid database_url from secret broker lease for "@ + kind.label_text() + ": "@
                + problem@,
        ),
{
    let message = text::concat3(
        "invalid database_url from secret broker lease for ",
        kind.label(),
        ": ",
    ).concat(problem);
    configuration_error(message.as_str())
}

/// The failure to read a static address.
pub fn static_url_failure(problem: &str) -> (res: DatabaseError)
    ensures
        res@ == error::configuration("invalid DATABASE_URL: "@ + problem@),
{
    let message = text::concat2("invalid DATABASE_URL: ", problem);
    configuration_error(message.as_str())
}

/// The failure to set up a pool.
pub fn pool_failure(problem: &str) -> (res: DatabaseError)
    ensures
        res@ == error::configuration("failed to instantiate connection pool: "@ + problem@),
{
    let message = text::concat2("failed to instantiate connection pool: ", problem);
    configuration_error(message.as_str())
}

/// What every pool of a configuration has in common.
#[derive(Debug)]
pub struct PoolContext {
    pub application_name: String,
    pub kind: PoolKind,
    pub max_connections: u32,
    pub min_connections: u32,
    pub connect_timeout_seconds: u64,
    pub idle_timeout_seconds: u64,
}

/// One pool to set up.
#[derive(Debug)]
pub struct PoolSetup {
    pub auth: NativeAuthConfig,
    pub context: PoolContext,
}

/// The pools to set up, in this order: the one for data, and the one for
/// secrets where it is a pool of its own. Otherwise the secrets share the first.
#[derive(Debug)]
pub struct ConnectionPlan {
    pub data: PoolSetup,
    pub secrets: Option<PoolSetup>,
}

/// Whether a pool is set up with these credentials and the limits of the
/// configuration.
pub open spec fn set_up(
    setup: PoolSetup,
    auth: NativeAuthConfig,
    kind: PoolKind,
    config: NativeConfig,
) -> bool {
    &&& setup.auth == auth
    &&& setup.context.kind == kind
    &&& setup.context.application_name == config.application_name
    &&& setup.context.max_connections == config.max_connections
    &&& setup.context.min_connections == config.min_connections
    &&& setup.context.connect_timeout_seconds == config.connect_timeout_seconds
    &&& setup.context.idle_timeout_seconds == config.idle_timeout_seconds
}

/// Whether the pools are those that a configuration asks for.
pub open spec fn planned_from(plan: ConnectionPlan, config: NativeConfig) -> bool {
    &&& set_up(plan.data, config.data_auth, PoolKind::Data, config)
    &&& plan.secrets is Some <==> config.secrets_auth is Some
    &&& plan.secrets matches Some(setup) ==> set_up(
        setup,
        config.secrets_auth->0,
        PoolKind::Secrets,
        config,
    )
}

/// Decide which pools a configuration asks for.
pub fn connect_postgres(config: NativeConfig) -> (res: ConnectionPlan)
    ensures
        planned_from(res, config),
{
    let data = PoolSetup {
        auth: config.data_auth,
        context: PoolContext {
            application_name: config.application_name.clone(),
            kind: PoolKind::Data,
            max_connections: config.max_connections,
            min_connections: config.min_connections,
            connect_timeout_seconds: config.connect_timeout_seconds,
            idle_timeout_seconds: config.idle_timeout_seconds,
        },
    };
    let secrets = match config.secrets_auth {
        Some(auth) => Some(
            PoolSetup {
                auth,
                context: PoolContext {
                    application_name: config.application_name,
                    kind: PoolKind::Secrets,
                    max_connections: config.max_connections,
                    min_connections: config.min_connections,
                    connect_timeout_seconds: config.connect_timeout_seconds,
                    idle_timeout_seconds: config.idle_timeout_seconds,
                },
            },
        ),
        None => None,
    };
    ConnectionPlan { data, secrets }
}

/// How the credentials of a pool are come by.
#[derive(Debug)]
pub enum PoolPlan {
    /// Connect like this, for good.
    Connect(ConnectPlan),
    /// Have the broker lease credentials, connect with them, and keep
    /// replacing them.
    Lease(PostgresCredentialRequest),
}

/// Whether a pool is connected as its setup asks for.
pub open spec fn created_from(
    res: DbResult<PoolPlan>,
    setup: PoolSetup,
    ratls_mode: EnvView,
    allow_direct: EnvView,
) -> bool {
    match setup.auth {
        NativeAuthConfig::StaticUrl { database_url } => match static_plan(
            database_url@,
            endpoint::url_parts(database_url@),
            setup.context.application_name@,
            ratls_mode,
            allow_direct,
        ) {
            Ok(plan) => res matches Ok(PoolPlan::Connect(connect)) && connect@ == plan,
            Err(error) => res matches Err(e) && e@ == error,
        },
        NativeAuthConfig::Broker(broker) => {
            &&& res matches Ok(PoolPlan::Lease(request))
            &&& asks_for(request, broker, setup.context.application_name@)
        },
    }
}

/// Decide how a pool is connected.
pub fn create_pool(setup: &PoolSetup, ratls_mode: &EnvValue, allow_direct: &EnvValue) -> (res:
    DbResult<PoolPlan>)
    ensures
        created_from(res, *setup, ratls_mode@, allow_direct@),
        setup.auth matches NativeAuthConfig::StaticUrl { database_url } ==> endpoint::plainly_read(
            database_url@,
            endpoint::url_parts(database_url@),
        ),
{
    match &setup.auth {
        NativeAuthConfig::StaticUrl { database_url } => match plan_static_pool(
            database_url.as_str(),
            setup.context.application_name.as_str(),
            ratls_mode,
            allow_direct,
        ) {
            Ok(plan) => Ok(PoolPlan::Connect(plan)),
            Err(error) => Err(error),
        },
        NativeAuthConfig::Broker(broker) => Ok(
            PoolPlan::Lease(lease_request(broker, setup.context.application_name.as_str())),
        ),
    }
}

/// How long to wait.
#[derive(Clone, Copy, Debug, PartialEq, Eq, Structural)]
pub struct Wait {
    pub seconds: u64,
    pub nanos: u32,
}

impl Wait {
    /// The length in nanoseconds.
    pub open spec fn length(self) -> int {
        self.seconds * 1_000_000_000 + self.nanos
    }
}

/// What the replacing of leased credentials has to do next.
#[derive(Clone, Copy, Debug, PartialEq, Eq, Structural)]
pub enum RotationStep {
    /// The credentials do not expire: stop.
    Stop,
    /// Wait, then replace the credentials.
    RefreshAfter(Wait),
}

/// What came of replacing the credentials.
#[derive(Clone, Copy, Debug, PartialEq, Eq, Structural)]
pub enum RotationEvent {
    /// The new credentials expire then, or never.
    Refreshed(Option<Timestamp>),
    /// The credentials could not be replaced.
    Failed,
}

/// The replacing of leased credentials, by the expiry of those in use.
#[derive(Clone, Copy, Debug, PartialEq, Eq, Structural)]
pub struct LeaseRotation {
    pub next_expiry: Option<Timestamp>,
}

/// The time left before leased credentials are due for replacement.
pub open spec fn time_to_refresh(expiry: Timestamp, now: Timestamp) -> int {
    let left = expiry.instant() - LEASE_REFRESH_GRACE_SECS * 1_000_000_000 - now.instant();
    if left > 0 {
        left
    } else {
        0
    }
}

/// Whether a step is the one that is due by the expiry of the credentials.
pub open spec fn due_step(rotation: LeaseRotation, now: Timestamp, step: RotationStep) -> bool {
    match rotation.next_expiry {
        None => step is Stop,
        Some(expiry) => step matches RotationStep::RefreshAfter(wait) && {
            &&& wait.nanos < 1_000_000_000
            &&& wait.length() == time_to_refresh(expiry, now)
        },
    }
}

/// Whether the outcome of replacing the credentials is noted, with the wait
/// that it calls for.
pub open spec fn noted(
    before: LeaseRotation,
    event: RotationEvent,
    after: LeaseRotation,
    wait: Wait,
) -> bool {
    match event {
        RotationEvent::Refreshed(expiry) => {
            &&& after.next_expiry == expiry
            &&& wait.length() == 0
        },
        RotationEvent::Failed => {
            &&& after.next_expiry == before.next_expiry
            &&& wait.length() == LEASE_REFRESH_RETRY_SECS * 1_000_000_000
        },
    }
}

impl LeaseRotation {
    /// Decide when to replace the credentials.
    pub fn next(&self, now: Timestamp) -> (res: RotationStep)
        requires
            now.wf(),
            self.next_expiry matches Some(expiry) ==> expiry.wf(),
        ensures
            due_step(*self, now, res),
    {
        match self.next_expiry {
            None => RotationStep::Stop,
            Some(expiry) => {
                let due: i64 = expiry.seconds - LEASE_REFRESH_GRACE_SECS;
                let zero = Wait { seconds: 0, nanos: 0 };
                let wait = if due < now.seconds || (due == now.seconds && expiry.nanos
                    <= now.nanos) {
                    zero
                } else if expiry.nanos >= now.nanos {
                    Wait { seconds: (due - now.seconds) as u64, nanos: expiry.nanos - now.nanos }
                } else {
                    Wait {
                        seconds: (due - now.seconds - 1) as u64,
                        nanos: expiry.nanos + 1_000_000_000 - now.nanos,
                    }
                };
                RotationStep::RefreshAfter(wait)
            },
        }
    }

    /// Note what came of replacing the credentials, and say how long to wait
    /// before going on. A failure keeps the expiry, to try again.
    pub fn record(&mut self, event: RotationEvent) -> (res: Wait)
        ensures
            noted(*old(self), event, *final(self), res),
    {
        match event {
            RotationEvent::Refreshed(expiry) => {
                self.next_expiry = expiry;
                Wait { seconds: 0, nanos: 0 }
            },
            RotationEvent::Failed => Wait { seconds: LEASE_REFRESH_RETRY_SECS, nanos: 0 },
        }
    }
}

/// A lease is replaced exactly a minute before it expires, or at once where that
/// minute has already begun. So a lease that is still good is replaced while it
/// is good.
pub proof fn leases_are_replaced_ahead_of_expiry(expiry: Timestamp, now: Timestamp)
    ensures
        now.instant() < expiry.instant() - 60_000_000_000 ==> now.instant() + time_to_refresh(
            expiry,
            now,
        ) == expiry.instant() - 60_000_000_000,
        now.instant() >= expiry.instant() - 60_000_000_000 ==> time_to_refresh(expiry, now) == 0,
        now.instant() < expiry.instant() ==> now.instant() + time_to_refresh(expiry, now)
            < expiry.instant(),
{
}

/// The whole seconds that a lease has left, or none.
pub open spec fn seconds_left(expiry: Timestamp, now: Timestamp) -> int {
    if expiry.instant() <= now.instant() {
        0
    } else {
        (expiry.instant() - now.instant()) / 1_000_000_000
    }
}

/// The whole seconds that a lease has left, or none.
pub fn lease_ttl_seconds(expiry: Timestamp, now: Timestamp) -> (res: i64)
    requires
        expiry.wf(),
        now.wf(),
    ensures
        res == seconds_left(expiry, now),
{
    if expiry.seconds < now.seconds || (expiry.seconds == now.seconds && expiry.nanos
        <= now.nanos) {
        0
    } else if expiry.nanos >= now.nanos {
        expiry.seconds - now.seconds
    } else {
        expiry.seconds - now.seconds - 1
    }
}

/// Which optional extensions are built in.
#[derive(Clone, Copy, Debug, PartialEq, Eq, Structural)]
pub struct ExtensionFeatures {
    pub pgaudit: bool,
    pub pg_stat_statements: bool,
    pub timescaledb: bool,
    pub citus: bool,
}

/// One step of setting up the extensions of a pool.
#[derive(Clone, Copy, Debug)]
pub enum ExtensionStep {
    /// Run this statement.
    Execute(&'static str),
    /// Put this extension on the list of allowed ones.
    Allow(&'static str),
}

/// One step of setting up the extensions, over views.
pub enum ExtensionView {
    Execute(Seq<char>),
    Allow(Seq<char>),
}

/// What a list of steps holds.
pub open spec fn step_views(steps: Seq<ExtensionStep>) -> Seq<ExtensionView> {
    steps.map_values(
        |step: ExtensionStep|
            match step {
                ExtensionStep::Execute(statement) => ExtensionView::Execute(statement@),
                ExtensionStep::Allow(name) => ExtensionView::Allow(name@),
            },
    )
}

/// The steps, or none where the extension is not built in.
pub open spec fn steps_if(present: bool, steps: Seq<ExtensionView>) -> Seq<ExtensionView> {
    if present {
        steps
    } else {
        Seq::empty()
    }
}

/// The steps that set up the extensions of a pool.
pub open spec fn extension_steps(kind: PoolKind, features: ExtensionFeatures) -> Seq<
    ExtensionView,
> {
    seq![ExtensionView::Allow("pgcrypto"@)] + steps_if(
        features.pgaudit,
        seq![
            ExtensionView::Execute("CREATE EXTENSION IF NOT EXISTS pgaudit;"@),
            ExtensionView::Allow("pgaudit"@),
        ],
    ) + steps_if(
        features.pg_stat_statements,
        seq![
            ExtensionView::Execute("CREATE EXTENSION IF NOT EXISTS pg_stat_statements;"@),
            ExtensionView::Allow("pg_stat_statements"@),
        ],
    ) + steps_if(
        kind == PoolKind::Data && features.timescaledb,
        seq![
            ExtensionView::Execute("CREATE EXTENSION IF NOT EXISTS timescaledb;"@),
            ExtensionView::Execute(
                "SELECT create_hypertable('gateway_data.tor_connect_audits', 'occurred_at', if_not_exists => TRUE);"@,
            ),
            ExtensionView::Allow("timescaledb"@),
        ],
    ) + steps_if(
        kind == PoolKind::Data && features.citus,
        seq![
            ExtensionView::Execute("CREATE EXTENSION IF NOT EXISTS citus;"@),
            ExtensionView::Execute(
                "SELECT create_distributed_table('gateway_secrets.zk_proofs', 'user_id', if_not_exists => TRUE);"@,
            ),
            ExtensionView::Execute(
                "SELECT create_distributed_table('gateway_secrets.tee_attestations', 'user_id', if_not_exists => TRUE);"@,
            ),
            ExtensionView::Allow("citus"@),
        ],
    )
}

/// List the steps that set up the extensions of a pool.
pub fn ensure_postgres_extensions(kind: PoolKind, features: ExtensionFeatures) -> (res: Vec<
    ExtensionStep,
>)
    ensures
        step_views(res@) == extension_steps(kind, features),
{
    let mut steps: Vec<ExtensionStep> = Vec::new();
    steps.push(ExtensionStep::Allow("pgcrypto"));
    if features.pgaudit {
        steps.push(ExtensionStep::Execute("CREATE EXTENSION IF NOT EXISTS pgaudit;"));
        steps.push(ExtensionStep::Allow("pgaudit"));
    }
    if features.pg_stat_statements {
        steps.push(ExtensionStep::Execute("CREATE EXTENSION IF NOT EXISTS pg_stat_statements;"));
        steps.push(ExtensionStep::Allow("pg_stat_statements"));
    }
    if matches!(kind, PoolKind::Data) {
        if features.timescaledb {
            steps.push(ExtensionStep::Execute("CREATE EXTENSION IF NOT EXISTS timescaledb;"));
            steps.push(
                ExtensionStep::Execute(
                    "SELECT create_hypertable('gateway_data.tor_connect_audits', 'occurred_at', if_not_exists => TRUE);",
                ),
            );
            steps.push(ExtensionStep::Allow("timescaledb"));
        }
        if features.citus {
            steps.push(ExtensionStep::Execute("CREATE EXTENSION IF NOT EXISTS citus;"));
            steps.push(
                ExtensionStep::Execute(
                    "SELECT create_distributed_table('gateway_secrets.zk_proofs', 'user_id', if_not_exists => TRUE);",
                ),
            );
            steps.push(
                ExtensionStep::Execute(
                    "SELECT create_distributed_table('gateway_secrets.tee_attestations', 'user_id', if_not_exists => TRUE);",
                ),
            );
            steps.push(ExtensionStep::Allow("citus"));
        }
    }
    assert(step_views(steps@) =~= extension_steps(kind, features));
    steps
}

/// Whether the embedded migrations are to be skipped.
pub fn skip_migrations(value: &EnvValue) -> (res: DbResult<bool>)
    ensures
        error::outcome(res) == config::flag("SECURE_DB_SKIP_MIGRATIONS"@, value@),
{
    env_flag("SECURE_DB_SKIP_MIGRATIONS", value)
}

/// Whether extensions outside the list are let be.
pub fn allow_unlisted_extensions(value: &EnvValue) -> (res: DbResult<bool>)
    ensures
        error::outcome(res) == config::flag("SECURE_DB_ALLOW_UNLISTED_EXTENSIONS"@, value@),
{
    env_flag("SECURE_DB_ALLOW_UNLISTED_EXTENSIONS", value)
}

/// What is said of extensions outside the list, where there are any.
pub open spec fn allowlist_check(unauthorized: Seq<Seq<char>>) -> Result<(), error::ErrorView> {
    if unauthorized.len() == 0 {
        Ok(())
    } else {
        Err(
            error::configuration(
                "found disallowed extensions: "@ + text::joined(unauthorized, ", "@)
                    + " (set SECURE_DB_ALLOW_UNLISTED_EXTENSIONS=1 to override)"@,
            ),
        )
    }
}

/// Refuse a database that holds extensions outside the list.
pub fn enforce_extension_allowlist(unauthorized: &Vec<String>) -> (res: DbResult<()>)
    ensures
        error::outcome(res) == allowlist_check(text::views(unauthorized@)),
{
    if unauthorized.is_empty() {
        return Ok(());
    }
    let names = text::join(unauthorized, ", ");
    let message = text::concat3(
        "found disallowed extensions: ",
        names.as_str(),
        " (set SECURE_DB_ALLOW_UNLISTED_EXTENSIONS=1 to override)",
    );
    Err(configuration_error(message.as_str()))
}

/// How many attestations a query returns at most.
pub open spec fn query_limit(limit: i64) -> Result<i64, error::ErrorView> {
    if limit <= 0 {
        Err(error::configuration("attestation query limit must be greater than zero"@))
    } else if limit < 1_000 {
        Ok(limit)
    } else {
        Ok(1_000)
    }
}

/// How many attestations a query returns at most: the number asked for, which
/// has to be positive, and never more than a thousand.
pub fn attestation_query_limit(limit: i64) -> (res: DbResult<i64>)
    ensures
        error::outcome(res) == query_limit(limit),
{
    if limit <= 0 {
        return Err(configuration_error("attestation query limit must be greater than zero"));
    }
    if limit < 1_000 {
        Ok(limit)
    } else {
        Ok(1_000)
    }
}

/// A lease is used whole: its address, its user and its password are those
/// that the pool connects with, in the name of the application, and TLS is
/// required whatever the lease says.
pub proof fn leases_are_used_whole(
    lease: PostgresCredentialLease,
    application_name: Seq<char>,
    plan: ConnectPlan,
)
    requires
        plan@ == leased_plan(lease, application_name),
    ensures
        plan.database_url@ == lease.database_url@,
        plan.username is Some <==> lease.username is Some,
        plan.username is Some ==> plan.username->0@ == lease.username->0@,
        plan.password is Some <==> lease.password is Some,
        plan.password is Some ==> plan.password->0@ == lease.password->0@,
        plan.application_name@ == application_name,
        plan.ssl_mode is Require,
{
}

/// A pool with a static address connects to that address in the name of the
/// application, and sets neither user nor password. An address that names
/// PgBouncer is accepted wherever the switch for the direct bootstrap can be
/// read; any other takes that switch, or RA-TLS that is off.
pub proof fn static_addresses_are_kept(
    database_url: Seq<char>,
    endpoint: Option<EndpointView>,
    application_name: Seq<char>,
    ratls_mode: EnvView,
    allow_direct: EnvView,
)
    ensures
        ({
            let plan = static_plan(
                database_url,
                endpoint,
                application_name,
                ratls_mode,
                allow_direct,
            );
            let direct = config::flag("SECURE_DB_ALLOW_DIRECT_BOOTSTRAP"@, allow_direct);
            &&& plan matches Ok(plan) ==> {
                &&& plan.database_url == database_url
                &&& plan.application_name == application_name
                &&& plan.username is None
                &&& plan.password is None
            }
            &&& plan is Ok <==> {
                ||| ratls_disabled(ratls_mode)
                ||| direct == Ok::<_, error::ErrorView>(true)
                ||| direct is Ok && names_pgbouncer(endpoint)
            }
            &&& !ratls_disabled(ratls_mode) && direct is Err ==> plan
                == Err::<ConnectView, error::ErrorView>(direct->Err_0)
        }),
{
}

/// RA-TLS is off where the variable holds the word `disabled`, in letters of
/// any case, and on in every other case.
pub proof fn one_word_turns_ratls_off(mode: EnvValue)
    ensures
        ratls_disabled(mode@) <==> (mode matches EnvValue::Present(word) && text::ascii_lowercase(
            word@,
        ) == "disabled"@),
{
    reveal_strlit("enforced");
    reveal_strlit("disabled");
    assert(text::ascii_lowercase("disabled"@) =~= "disabled"@);
    assert(text::ascii_lowercase("enforced"@)[0] == 'e');
}

/// All pools of a configuration have its name and its limits, each has the
/// credentials of its own, and secrets have a pool of their own exactly where
/// they have credentials of their own.
pub proof fn pools_share_their_limits(plan: ConnectionPlan, config: NativeConfig)
    requires
        planned_from(plan, config),
    ensures
        plan.data.auth == config.data_auth,
        plan.data.context.kind is Data,
        match config.secrets_auth {
            None => plan.secrets is None,
            Some(auth) => {
                &&& plan.secrets matches Some(secrets)
                &&& secrets.auth == auth
                &&& secrets.context == (PoolContext {
                    kind: PoolKind::Secrets,
                    ..plan.data.context
                })
            },
        },
        plan.data.context.application_name == config.application_name,
        plan.data.context.max_connections == config.max_connections,
        plan.data.context.min_connections == config.min_connections,
        plan.data.context.connect_timeout_seconds == config.connect_timeout_seconds,
        plan.data.context.idle_timeout_seconds == config.idle_timeout_seconds,
{
}

/// A pool with leased credentials asks the broker for those that are
/// configured, in the name of the application; the variables for static
/// addresses do not bear on it. A pool with a static address never asks.
pub proof fn pools_go_by_their_credentials(
    res: DbResult<PoolPlan>,
    setup: PoolSetup,
    ratls_mode: EnvView,
    allow_direct: EnvView,
)
    requires
        created_from(res, setup, ratls_mode, allow_direct),
    ensures
        match setup.auth {
            NativeAuthConfig::Broker(broker) => {
                &&& res matches Ok(PoolPlan::Lease(request))
                &&& request.audience@ == broker.audience@
                &&& request.scope@ == broker.scope@
                &&& request.ttl_seconds == broker.ttl_seconds
                &&& request.application_name matches Some(name)
                &&& name@ == setup.context.application_name@
            },
            NativeAuthConfig::StaticUrl { database_url } => match res {
                Ok(PoolPlan::Connect(connect)) => {
                    &&& connect.database_url@ == database_url@
                    &&& connect.application_name@ == setup.context.application_name@
                    &&& connect.ssl_mode is Require || ratls_disabled(ratls_mode)
                },
                Ok(PoolPlan::Lease(_)) => false,
                Err(_) => !ratls_disabled(ratls_mode),
            },
        },
{
}

/// After a failure the credentials stay due when they were due, and a quarter
/// of a minute passes before the next try; new credentials are due by their
/// own expiry, and those that do not expire end the replacing.
pub proof fn failures_leave_the_expiry(
    before: LeaseRotation,
    event: RotationEvent,
    after: LeaseRotation,
    wait: Wait,
    now: Timestamp,
    step: RotationStep,
)
    requires
        noted(before, event, after, wait),
        due_step(after, now, step),
    ensures
        match event {
            RotationEvent::Failed => {
                &&& due_step(before, now, step)
                &&& wait.seconds * 1_000_000_000 + wait.nanos == 15_000_000_000
            },
            RotationEvent::Refreshed(None) => step is Stop && wait.seconds == 0 && wait.nanos == 0,
            RotationEvent::Refreshed(Some(expiry)) => {
                &&& step matches RotationStep::RefreshAfter(pause)
                &&& pause.seconds * 1_000_000_000 + pause.nanos == time_to_refresh(expiry, now)
                &&& wait.seconds == 0 && wait.nanos == 0
            },
        },
{
}

/// The seconds that a lease has left are whole: after them the lease has not
/// expired, and after one more it has.
pub proof fn seconds_left_are_whole(expiry: Timestamp, now: Timestamp)
    ensures
        now.instant() < expiry.instant() ==> now.instant() + seconds_left(expiry, now)
            * 1_000_000_000 <= expiry.instant() < now.instant() + (seconds_left(expiry, now) + 1)
            * 1_000_000_000,
        now.instant() >= expiry.instant() ==> seconds_left(expiry, now) == 0,
{
}

/// Every extension that a pool sets up is put on the list of allowed ones, and
/// none that is not built in. The extensions for time series and for
/// distribution are for data alone.
pub proof fn extensions_are_allowed_where_built_in(kind: PoolKind, features: ExtensionFeatures)
    ensures
        ({
            let steps = extension_steps(kind, features);
            &&& steps.contains(ExtensionView::Allow("pgcrypto"@))
            &&& steps.contains(ExtensionView::Allow("pgaudit"@)) <==> features.pgaudit
            &&& steps.contains(ExtensionView::Allow("pg_stat_statements"@))
                <==> features.pg_stat_statements
            &&& steps.contains(ExtensionView::Allow("timescaledb"@)) <==> features.timescaledb
                && kind is Data
            &&& steps.contains(ExtensionView::Allow("citus"@)) <==> features.citus && kind is Data
        }),
{
    reveal_strlit("pgcrypto");
    reveal_strlit("pgaudit");
    reveal_strlit("pg_stat_statements");
    reveal_strlit("timescaledb");
    reveal_strlit("citus");
    assert("pgcrypto"@.len() == 8 && "pgaudit"@.len() == 7 && "pg_stat_statements"@.len() == 18
        && "timescaledb"@.len() == 11 && "citus"@.len() == 5);
    let a = seq![ExtensionView::Allow("pgcrypto"@)];
    let b = a + steps_if(
        features.pgaudit,
        seq![
            ExtensionView::Execute("CREATE EXTENSION IF NOT EXISTS pgaudit;"@),
            ExtensionView::Allow("pgaudit"@),
        ],
    );
    let c = b + steps_if(
        features.pg_stat_statements,
        seq![
            ExtensionView::Execute("CREATE EXTENSION IF NOT EXISTS pg_stat_statements;"@),
            ExtensionView::Allow("pg_stat_statements"@),
        ],
    );
    let d = c + steps_if(
        kind == PoolKind::Data && features.timescaledb,
        seq![
            ExtensionView::Execute("CREATE EXTENSION IF NOT EXISTS timescaledb;"@),
            ExtensionView::Execute(
                "SELECT create_hypertable('gateway_data.tor_connect_audits', 'occurred_at', if_not_exists => TRUE);"@,
            ),
            ExtensionView::Allow("timescaledb"@),
        ],
    );
    let steps = extension_steps(kind, features);
    assert(steps[0] == ExtensionView::Allow("pgcrypto"@));
    if features.pgaudit {
        assert(steps[a.len() as int + 1] == ExtensionView::Allow("pgaudit"@));
    }
    if features.pg_stat_statements {
        assert(steps[b.len() as int + 1] == ExtensionView::Allow("pg_stat_statements"@));
    }
    if kind is Data && features.timescaledb {
        assert(steps[c.len() as int + 2] == ExtensionView::Allow("timescaledb"@));
    }
    if kind is Data && features.citus {
        assert(steps[d.len() as int + 3] == ExtensionView::Allow("citus"@));
    }
}

/// A database is let be exactly where it holds no extension outside the list;
/// otherwise the refusal names each of them.
pub proof fn refused_extensions_are_named(unauthorized: Seq<Seq<char>>, last: Seq<char>)
    ensures
        allowlist_check(unauthorized) is Ok <==> unauthorized =~= Seq::empty(),
        allowlist_check(seq![last]) == Err::<(), _>(
            error::configuration(
                "found disallowed extensions: "@ + last
                    + " (set SECURE_DB_ALLOW_UNLISTED_EXTENSIONS=1 to override)"@,
            ),
        ),
        unauthorized.len() > 0 ==> allowlist_check(unauthorized.push(last)) == Err::<(), _>(
            error::configuration(
                "found disallowed extensions: "@ + (text::joined(unauthorized, ", "@) + ", "@
                    + last) + " (set SECURE_DB_ALLOW_UNLISTED_EXTENSIONS=1 to override)"@,
            ),
        ),
{
    assert(unauthorized.push(last).drop_last() =~= unauthorized);
}

/// A query returns as many attestations as were asked for, up to a thousand,
/// and a query for none is refused.
pub proof fn queries_are_capped(limit: i64)
    ensures
        query_limit(limit) is Ok <==> 1 <= limit,
        1 <= limit <= 1_000 ==> query_limit(limit) == Ok::<_, error::ErrorView>(limit),
        1_000 <= limit ==> query_limit(limit) == Ok::<_, error::ErrorView>(1_000i64),
{
}

} // verus!
