//! Configuration from the environment: which credentials to use, and how the
//! connection pools are sized.

use crate::error;
use crate::error::{configuration_error, rejected, DbResult, Rejection};
use crate::text;
use vstd::prelude::*;

verus! {

/// What the environment holds for a variable.
#[derive(Debug)]
pub enum EnvValue {
    /// The variable is not set.
    Absent,
    /// The variable is set to something that is not Unicode; the text says so.
    Unreadable(String),
    /// The variable is set to this.
    Present(String),
}

/// What the environment holds for a variable, over views.
pub enum EnvView {
    Absent,
    Unreadable(Seq<char>),
    Present(Seq<char>),
}

impl View for EnvValue {
    type V = EnvView;

    open spec fn view(&self) -> EnvView {
        match self {
            EnvValue::Absent => EnvView::Absent,
            EnvValue::Unreadable(problem) => EnvView::Unreadable(problem@),
            EnvValue::Present(value) => EnvView::Present(value@),
        }
    }
}

impl EnvView {
    /// The value, where there is one that can be read.
    pub open spec fn readable(self) -> Option<Seq<char>> {
        match self {
            EnvView::Present(value) => Some(value),
            _ => None,
        }
    }
}

impl EnvValue {
    /// The value, where there is one that can be read.
    pub(crate) fn get(&self) -> (res: Option<&str>)
        ensures
            text::optional_str(res) == self@.readable(),
    {
        match self {
            EnvValue::Present(value) => Some(value.as_str()),
            _ => None,
        }
    }

    /// The value, or a default where there is none that can be read.
    pub(crate) fn or<'a>(&'a self, default: &'a str) -> (res: &'a str)
        ensures
            res@ == self@.or_default(default@),
    {
        match self {
            EnvValue::Present(value) => value.as_str(),
            _ => default,
        }
    }
}

impl EnvView {
    /// The value, or a default where there is none that can be read.
    pub open spec fn or_default(self, default: Seq<char>) -> Seq<char> {
        match self {
            EnvView::Present(value) => value,
            _ => default,
        }
    }
}

/// What a result with a reason for its refusal holds.
pub open spec fn answer<T: View>(res: Result<T, Rejection>) -> Result<T::V, Seq<char>> {
    match res {
        Ok(value) => Ok(value@),
        Err(rejection) => Err(rejection@),
    }
}

/// A variable that has to be set, and not to blanks.
pub open spec fn required(key: Seq<char>, value: EnvView) -> Result<Seq<char>, Seq<char>> {
    match value.readable() {
        None => Err(key + " is required"@),
        Some(value) => if text::is_blank(value) {
            Err(key + " must not be empty"@)
        } else {
            Ok(value)
        },
    }
}

/// Read a variable that has to be set, and not to blanks.
pub fn required_env(key: &str, value: &EnvValue) -> (res: Result<String, Rejection>)
    ensures
        answer(res) == required(key@, value@),
{
    match value.get() {
        None => {
            let reason = text::concat2(key, " is required");
            Err(rejected(reason.as_str()))
        },
        Some(value) => if text::blank(value) {
            let reason = text::concat2(key, " must not be empty");
            Err(rejected(reason.as_str()))
        } else {
            Ok(value.to_owned())
        },
    }
}

/// What is said of a number that does not parse.
pub open spec fn invalid_number(key: Seq<char>, raw: Seq<char>, problem: Seq<char>) -> Seq<char> {
    "invalid "@ + key + " value "@ + text::debug_text(raw) + ": "@ + problem
}

/// What is said of a variable that cannot be read.
pub open spec fn unreadable(key: Seq<char>, problem: Seq<char>) -> Seq<char> {
    "failed to read "@ + key + ": "@ + problem
}

fn invalid_number_text(key: &str, raw: &str, problem: &str) -> (res: String)
    ensures
        res@ == invalid_number(key@, raw@, problem@),
{
    let shown = text::to_debug(raw);
    text::concat5("invalid ", key, " value ", shown.as_str(), ": ").concat(problem)
}

fn unreadable_text(key: &str, problem: &str) -> (res: String)
    ensures
        res@ == unreadable(key@, problem@),
{
    text::concat3("failed to read ", key, ": ").concat(problem)
}

/// A number of at most thirty-two bits, with a default for an unset variable.
pub open spec fn number_u32(key: Seq<char>, value: EnvView, default: u32) -> Result<
    u32,
    Seq<char>,
> {
    match value {
        EnvView::Absent => Ok(default),
        EnvView::Unreadable(problem) => Err(unreadable(key, problem)),
        EnvView::Present(raw) => if text::spells_up_to(raw, u32::MAX as nat) {
            Ok(text::unsigned_value(raw)->0 as u32)
        } else {
            Err(invalid_number(key, raw, text::u32_parse_error(raw)))
        },
    }
}

/// A number of at most sixty-four bits, with a default for an unset variable.
pub open spec fn number_u64(key: Seq<char>, value: EnvView, default: u64) -> Result<
    u64,
    Seq<char>,
> {
    match value {
        EnvView::Absent => Ok(default),
        EnvView::Unreadable(problem) => Err(unreadable(key, problem)),
        EnvView::Present(raw) => if text::spells_up_to(raw, u64::MAX as nat) {
            Ok(text::unsigned_value(raw)->0 as u64)
        } else {
            Err(invalid_number(key, raw, text::u64_parse_error(raw)))
        },
    }
}

/// Read a number, with a default for an unset variable.
pub fn parse_u32_env(key: &str, value: &EnvValue, default: u32) -> (res: Result<u32, Rejection>)
    ensures
        answer(res) == number_u32(key@, value@, default),
{
    match value {
        EnvValue::Absent => Ok(default),
        EnvValue::Unreadable(problem) => {
            let reason = unreadable_text(key, problem.as_str());
            Err(rejected(reason.as_str()))
        },
        EnvValue::Present(raw) => match text::parse_u32(raw.as_str()) {
            Ok(number) => Ok(number),
            Err(problem) => {
                let reason = invalid_number_text(key, raw.as_str(), problem.as_str());
                Err(rejected(reason.as_str()))
            },
        },
    }
}

/// Read a number, with a default for an unset variable.
pub fn parse_u64_env(key: &str, value: &EnvValue, default: u64) -> (res: Result<u64, Rejection>)
    ensures
        answer(res) == number_u64(key@, value@, default),
{
    match value {
        EnvValue::Absent => Ok(default),
        EnvValue::Unreadable(problem) => {
            let reason = unreadable_text(key, problem.as_str());
            Err(rejected(reason.as_str()))
        },
        EnvValue::Present(raw) => match text::parse_u64(raw.as_str()) {
            Ok(number) => Ok(number),
            Err(problem) => {
                let reason = invalid_number_text(key, raw.as_str(), problem.as_str());
                Err(rejected(reason.as_str()))
            },
        },
    }
}

/// Whether a word stands for yes.
pub open spec fn affirmative(word: Seq<char>) -> bool {
    word == "1"@ || word == "true"@ || word == "yes"@ || word == "on"@
}

/// Whether a word stands for no.
pub open spec fn negative(word: Seq<char>) -> bool {
    word == "0"@ || word == "false"@ || word == "no"@ || word == "off"@
}

/// A switch, which is off where the variable is not set.
pub open spec fn flag(key: Seq<char>, value: EnvView) -> Result<bool, error::ErrorView> {
    match value {
        EnvView::Absent => Ok(false),
        EnvView::Unreadable(problem) => Err(error::configuration(unreadable(key, problem))),
        EnvView::Present(value) => {
            let word = text::ascii_lowercase(text::trimmed(value));
            if affirmative(word) {
                Ok(true)
            } else if negative(word) {
                Ok(false)
            } else {
                Err(error::configuration(key + " must be a boolean value"@))
            }
        },
    }
}

/// Read a switch, which is off where the variable is not set.
pub fn env_flag(key: &str, value: &EnvValue) -> (res: DbResult<bool>)
    ensures
        error::outcome(res) == flag(key@, value@),
{
    match value {
        EnvValue::Absent => Ok(false),
        EnvValue::Unreadable(problem) => {
            let message = unreadable_text(key, problem.as_str());
            Err(configuration_error(message.as_str()))
        },
        EnvValue::Present(value) => {
            let word = text::to_ascii_lowercase(text::trim(value.as_str()));
            let word = word.as_str();
            if text::equal(word, "1") || text::equal(word, "true") || text::equal(word, "yes")
                || text::equal(word, "on") {
                Ok(true)
            } else if text::equal(word, "0") || text::equal(word, "false") || text::equal(
                word,
                "no",
            ) || text::equal(word, "off") {
                Ok(false)
            } else {
                let message = text::concat2(key, " must be a boolean value");
                Err(configuration_error(message.as_str()))
            }
        },
    }
}

/// No word stands for both yes and no.
pub proof fn switches_are_unambiguous(word: Seq<char>)
    ensures
        !(affirmative(word) && negative(word)),
{
    reveal_strlit("1");
    reveal_strlit("true");
    reveal_strlit("yes");
    reveal_strlit("on");
    reveal_strlit("0");
    reveal_strlit("false");
    reveal_strlit("no");
    reveal_strlit("off");
    if affirmative(word) && negative(word) {
        assert("1"@.len() == 1 && "true"@.len() == 4 && "yes"@.len() == 3 && "on"@.len() == 2);
        assert("0"@.len() == 1 && "false"@.len() == 5 && "no"@.len() == 2 && "off"@.len() == 3);
        assert("1"@[0] == '1' && "yes"@[0] == 'y' && "on"@[0] == 'o');
        assert("0"@[0] == '0' && "off"@[0] == 'o' && "no"@[0] == 'n');
    }
}

/// The scopes in a comma-separated list, trimmed, without the blank ones.
pub fn parse_scope_list(raw: &str) -> (res: Vec<String>)
    ensures
        text::views(res@) == text::list_entries(text::parts(raw@, ',')),
{
    text::comma_list(raw)
}

/// The variables that the connection pools are configured by.
#[derive(Debug)]
pub struct NativeEnvironment {
    /// `SECURE_DB_CREDENTIAL_SOURCE`
    pub credential_source: EnvValue,
    /// `SECURE_DB_BROKER_AUDIENCE`
    pub broker_audience: EnvValue,
    /// `SECURE_DB_BROKER_SCOPE`
    pub broker_scope: EnvValue,
    /// `SECURE_DB_BROKER_TTL_SECONDS`
    pub broker_ttl_seconds: EnvValue,
    /// `SECURE_DB_ALLOW_STATIC`
    pub allow_static: EnvValue,
    /// `SECURE_DB_URL`
    pub database_url: EnvValue,
    /// `SECURE_DB_SECRETS_BROKER_AUDIENCE`
    pub secrets_broker_audience: EnvValue,
    /// `SECURE_DB_SECRETS_BROKER_SCOPE`
    pub secrets_broker_scope: EnvValue,
    /// `SECURE_DB_SECRETS_BROKER_TTL_SECONDS`
    pub secrets_broker_ttl_seconds: EnvValue,
    /// `SECURE_DB_SECRETS_URL`
    pub secrets_url: EnvValue,
    /// `SECURE_DB_POOL_MAX`
    pub pool_max: EnvValue,
    /// `SECURE_DB_POOL_MIN`
    pub pool_min: EnvValue,
    /// `SECURE_DB_CONNECT_TIMEOUT`
    pub connect_timeout: EnvValue,
    /// `SECURE_DB_IDLE_TIMEOUT`
    pub idle_timeout: EnvValue,
    /// `SECURE_DB_APP_NAME`
    pub app_name: EnvValue,
}

/// How the pools connect, and with which limits.
#[derive(Debug)]
pub struct NativeConfig {
    pub data_auth: NativeAuthConfig,
    pub secrets_auth: Option<NativeAuthConfig>,
    pub max_connections: u32,
    pub min_connections: u32,
    pub connect_timeout_seconds: u64,
    pub idle_timeout_seconds: u64,
    pub application_name: String,
}

/// Where a pool has its credentials from.
#[derive(Debug)]
pub enum NativeAuthConfig {
    StaticUrl { database_url: String },
    Broker(BrokerCredentialConfig),
}

/// Which credentials the broker is asked for.
#[derive(Debug, Clone)]
pub struct BrokerCredentialConfig {
    pub audience: String,
    pub scope: Vec<String>,
    pub ttl_seconds: u64,
}

/// Which credentials the broker is asked for, over views.
pub struct BrokerView {
    pub audience: Seq<char>,
    pub scope: Seq<Seq<char>>,
    pub ttl_seconds: u64,
}

/// Where a pool has its credentials from, over views.
pub enum AuthView {
    StaticUrl { database_url: Seq<char> },
    Broker(BrokerView),
}

/// How the pools connect, over views.
pub struct ConfigView {
    pub data_auth: AuthView,
    pub secrets_auth: Option<AuthView>,
    pub max_connections: u32,
    pub min_connections: u32,
    pub connect_timeout_seconds: u64,
    pub idle_timeout_seconds: u64,
    pub application_name: Seq<char>,
}

impl View for BrokerCredentialConfig {
    type V = BrokerView;

    open spec fn view(&self) -> BrokerView {
        BrokerView {
            audience: self.audience@,
            scope: text::views(self.scope@),
            ttl_seconds: self.ttl_seconds,
        }
    }
}

impl View for NativeAuthConfig {
    type V = AuthView;

    open spec fn view(&self) -> AuthView {
        match self {
            NativeAuthConfig::StaticUrl { database_url } => AuthView::StaticUrl {
                database_url: database_url@,
            },
            NativeAuthConfig::Broker(broker) => AuthView::Broker(broker@),
        }
    }
}

impl View for NativeConfig {
    type V = ConfigView;

    open spec fn view(&self) -> ConfigView {
        ConfigView {
            data_auth: self.data_auth@,
            secrets_auth: match self.secrets_auth {
                Some(auth) => Some(auth@),
                None => None,
            },
            max_connections: self.max_connections,
            min_connections: self.min_connections,
            connect_timeout_seconds: self.connect_timeout_seconds,
            idle_timeout_seconds: self.idle_timeout_seconds,
            application_name: self.application_name@,
        }
    }
}

/// The scopes that a variable lists, or a default where it is not set.
pub open spec fn scopes(value: EnvView, default: Seq<Seq<char>>) -> Seq<Seq<char>> {
    match value.readable() {
        Some(raw) => text::list_entries(text::parts(raw, ',')),
        None => default,
    }
}

/// The credentials that a broker is asked for, with a lifetime above zero.
pub open spec fn broker_auth(
    audience: Seq<char>,
    scope: Seq<Seq<char>>,
    ttl_key: Seq<char>,
    ttl: EnvView,
    default_ttl: u64,
) -> Result<BrokerView, Seq<char>> {
    match number_u64(ttl_key, ttl, default_ttl) {
        Err(reason) => Err(reason),
        Ok(ttl_seconds) => if ttl_seconds == 0 {
            Err(ttl_key + " must be greater than zero"@)
        } else {
            Ok(BrokerView { audience, scope, ttl_seconds })
        },
    }
}

/// Where the data pool has its credentials from. Static ones take an explicit
/// permission.
pub open spec fn data_auth(env: NativeEnvironment) -> Result<AuthView, Seq<char>> {
    let source = text::ascii_lowercase(env.credential_source@.or_default("broker"@));
    if source == "broker"@ {
        match required("SECURE_DB_BROKER_AUDIENCE"@, env.broker_audience@) {
            Err(reason) => Err(reason),
            Ok(audience) => match broker_auth(
                audience,
                scopes(env.broker_scope@, Seq::empty()),
                "SECURE_DB_BROKER_TTL_SECONDS"@,
                env.broker_ttl_seconds@,
                900,
            ) {
                Err(reason) => Err(reason),
                Ok(broker) => Ok(AuthView::Broker(broker)),
            },
        }
    } else if source == "static"@ {
        match flag("SECURE_DB_ALLOW_STATIC"@, env.allow_static@) {
            Err(error) => Err(error.message()),
            Ok(false) => Err(
                "SECURE_DB_CREDENTIAL_SOURCE=static requires SECURE_DB_ALLOW_STATIC=true"@,
            ),
            Ok(true) => match required("SECURE_DB_URL"@, env.database_url@) {
                Err(reason) => Err(reason),
                Ok(database_url) => Ok(AuthView::StaticUrl { database_url }),
            },
        }
    } else {
        Err(
            "SECURE_DB_CREDENTIAL_SOURCE must be 'broker' or 'static', got "@ + text::debug_text(
                source,
            ),
        )
    }
}

/// Where the pool for secrets has its credentials from, if it has its own: from
/// the same kind of source as the data pool.
pub open spec fn secrets_auth(env: NativeEnvironment, data: AuthView) -> Result<
    Option<AuthView>,
    Seq<char>,
> {
    match data {
        AuthView::Broker(data_broker) => match env.secrets_broker_audience@.readable() {
            Some(audience) => if text::is_blank(audience) {
                Err("SECURE_DB_SECRETS_BROKER_AUDIENCE must not be empty"@)
            } else {
                match broker_auth(
                    audience,
                    scopes(env.secrets_broker_scope@, data_broker.scope),
                    "SECURE_DB_SECRETS_BROKER_TTL_SECONDS"@,
                    env.secrets_broker_ttl_seconds@,
                    data_broker.ttl_seconds,
                ) {
                    Err(reason) => Err(reason),
                    Ok(broker) => Ok(Some(AuthView::Broker(broker))),
                }
            },
            None => if !(env.secrets_broker_scope@ is Absent)
                || !(env.secrets_broker_ttl_seconds@ is Absent) {
                Err(
                    "SECURE_DB_SECRETS_BROKER_AUDIENCE is required when secret-pool broker overrides are set"@,
                )
            } else {
                Ok(None)
            },
        },
        AuthView::StaticUrl { database_url } => match env.secrets_url@.readable() {
            Some(url) => if text::is_blank(url) {
                Ok(None)
            } else {
                Ok(Some(AuthView::StaticUrl { database_url: url }))
            },
            None => Ok(None),
        },
    }
}

/// The largest and the smallest number of connections.
pub open spec fn pool_sizes(env: NativeEnvironment) -> Result<(u32, u32), Seq<char>> {
    match number_u32("SECURE_DB_POOL_MAX"@, env.pool_max@, 20) {
        Err(reason) => Err(reason),
        Ok(max) => match number_u32("SECURE_DB_POOL_MIN"@, env.pool_min@, 5) {
            Err(reason) => Err(reason),
            Ok(min) => if max == 0 || min > max {
                Err(
                    "SECURE_DB_POOL_MAX must be positive and SECURE_DB_POOL_MIN must not exceed it"@,
                )
            } else {
                Ok((max, min))
            },
        },
    }
}

/// The timeouts for connecting and for idling, in seconds.
pub open spec fn timeouts(env: NativeEnvironment) -> Result<(u64, u64), Seq<char>> {
    match number_u64("SECURE_DB_CONNECT_TIMEOUT"@, env.connect_timeout@, 10) {
        Err(reason) => Err(reason),
        Ok(connect) => match number_u64("SECURE_DB_IDLE_TIMEOUT"@, env.idle_timeout@, 300) {
            Err(reason) => Err(reason),
            Ok(idle) => if connect == 0 || idle == 0 {
                Err("database timeout values must be greater than zero"@)
            } else {
                Ok((connect, idle))
            },
        },
    }
}

/// The configuration that the environment asks for, or the first thing that is
/// wrong with it.
pub open spec fn native_config(env: NativeEnvironment) -> Result<ConfigView, Seq<char>> {
    match data_auth(env) {
        Err(reason) => Err(reason),
        Ok(data) => match secrets_auth(env, data) {
            Err(reason) => Err(reason),
            Ok(secrets) => match pool_sizes(env) {
                Err(reason) => Err(reason),
                Ok((max_connections, min_connections)) => match timeouts(env) {
                    Err(reason) => Err(reason),
                    Ok((connect_timeout_seconds, idle_timeout_seconds)) => {
                        let application_name = env.app_name@.or_default("secure-database"@);
                        if text::is_blank(application_name) {
                            Err("SECURE_DB_APP_NAME must not be empty"@)
                        } else {
                            Ok(
                                ConfigView {
                                    data_auth: data,
                                    secrets_auth: secrets,
                                    max_connections,
                                    min_connections,
                                    connect_timeout_seconds,
                                    idle_timeout_seconds,
                                    application_name,
                                },
                            )
                        }
                    },
                },
            },
        },
    }
}

fn scope_list(value: &EnvValue, default: &Vec<String>) -> (res: Vec<String>)
    ensures
        text::views(res@) == scopes(value@, text::views(default@)),
{
    match value.get() {
        Some(raw) => parse_scope_list(raw),
        None => text::copy_list(default),
    }
}

fn broker_credentials(
    audience: String,
    scope: Vec<String>,
    ttl_key: &str,
    ttl: &EnvValue,
    default_ttl: u64,
) -> (res: Result<BrokerCredentialConfig, Rejection>)
    ensures
        answer(res) == broker_auth(audience@, text::views(scope@), ttl_key@, ttl@, default_ttl),
{
    let ttl_seconds: u64 = match parse_u64_env(ttl_key, ttl, default_ttl) {
        Ok(ttl_seconds) => ttl_seconds,
        Err(rejection) => return Err(rejection),
    };
    if ttl_seconds == 0 {
        let reason = text::concat2(ttl_key, " must be greater than zero");
        return Err(rejected(reason.as_str()));
    }
    Ok(BrokerCredentialConfig { audience, scope, ttl_seconds })
}

fn load_data_auth(env: &NativeEnvironment) -> (res: Result<NativeAuthConfig, Rejection>)
    ensures
        answer(res) == data_auth(*env),
{
    let source = text::to_ascii_lowercase(env.credential_source.or("broker"));
    if text::equal(source.as_str(), "broker") {
        let audience = match required_env("SECURE_DB_BROKER_AUDIENCE", &env.broker_audience) {
            Ok(audience) => audience,
            Err(rejection) => return Err(rejection),
        };
        let none: Vec<String> = Vec::new();
        assert(text::views(none@) =~= Seq::empty());
        let scope = scope_list(&env.broker_scope, &none);
        match broker_credentials(
            audience,
            scope,
            "SECURE_DB_BROKER_TTL_SECONDS",
            &env.broker_ttl_seconds,
            900,
        ) {
            Ok(broker) => Ok(NativeAuthConfig::Broker(broker)),
            Err(rejection) => Err(rejection),
        }
    } else if text::equal(source.as_str(), "static") {
        match env_flag("SECURE_DB_ALLOW_STATIC", &env.allow_static) {
            Ok(allowed) => if !allowed {
                return Err(
                    rejected(
                        "SECURE_DB_CREDENTIAL_SOURCE=static requires SECURE_DB_ALLOW_STATIC=true",
                    ),
                );
            },
            Err(error) => {
                let reason = error.message();
                return Err(rejected(reason.as_str()));
            },
        }
        match required_env("SECURE_DB_URL", &env.database_url) {
            Ok(database_url) => Ok(NativeAuthConfig::StaticUrl { database_url }),
            Err(rejection) => Err(rejection),
        }
    } else {
        let shown = text::to_debug(source.as_str());
        let reason = text::concat2(
            "SECURE_DB_CREDENTIAL_SOURCE must be 'broker' or 'static', got ",
            shown.as_str(),
        );
        Err(rejected(reason.as_str()))
    }
}

fn load_secrets_auth(env: &NativeEnvironment, data: &NativeAuthConfig) -> (res: Result<
    Option<NativeAuthConfig>,
    Rejection,
>)
    ensures
        match res {
            Ok(Some(auth)) => secrets_auth(*env, data@) == Ok::<_, Seq<char>>(Some(auth@)),
            Ok(None) => secrets_auth(*env, data@) == Ok::<Option<AuthView>, Seq<char>>(None),
            Err(rejection) => secrets_auth(*env, data@) == Err::<Option<AuthView>, _>(rejection@),
        },
{
    match data {
        NativeAuthConfig::Broker(data_broker) => match env.secrets_broker_audience.get() {
            Some(audience) => {
                if text::blank(audience) {
                    return Err(rejected("SECURE_DB_SECRETS_BROKER_AUDIENCE must not be empty"));
                }
                let scope = scope_list(&env.secrets_broker_scope, &data_broker.scope);
                match broker_credentials(
                    audience.to_owned(),
                    scope,
                    "SECURE_DB_SECRETS_BROKER_TTL_SECONDS",
                    &env.secrets_broker_ttl_seconds,
                    data_broker.ttl_seconds,
                ) {
                    Ok(broker) => Ok(Some(NativeAuthConfig::Broker(broker))),
                    Err(rejection) => Err(rejection),
                }
            },
            None => {
                let overridden = !matches!(env.secrets_broker_scope, EnvValue::Absent) || !matches!(
                    env.secrets_broker_ttl_seconds,
                    EnvValue::Absent
                );
                if overridden {
                    return Err(
                        rejected(
                            "SECURE_DB_SECRETS_BROKER_AUDIENCE is required when secret-pool broker overrides are set",
                        ),
                    );
                }
                Ok(None)
            },
        },
        NativeAuthConfig::StaticUrl { database_url } => match env.secrets_url.get() {
            Some(url) => if text::blank(url) {
                Ok(None)
            } else {
                Ok(Some(NativeAuthConfig::StaticUrl { database_url: url.to_owned() }))
            },
            None => Ok(None),
        },
    }
}

/// Read the configuration of the connection pools from the environment.
pub fn load_native_config(env: &NativeEnvironment) -> (res: Result<NativeConfig, Rejection>)
    ensures
        answer(res) == native_config(*env),
{
    let data_auth = match load_data_auth(env) {
        Ok(auth) => auth,
        Err(rejection) => return Err(rejection),
    };
    let secrets_auth = match load_secrets_auth(env, &data_auth) {
        Ok(auth) => auth,
        Err(rejection) => return Err(rejection),
    };

    let max_connections: u32 = match parse_u32_env("SECURE_DB_POOL_MAX", &env.pool_max, 20) {
        Ok(number) => number,
        Err(rejection) => return Err(rejection),
    };
    let min_connections: u32 = match parse_u32_env("SECURE_DB_POOL_MIN", &env.pool_min, 5) {
        Ok(number) => number,
        Err(rejection) => return Err(rejection),
    };
    if max_connections == 0 || min_connections > max_connections {
        return Err(
            rejected(
                "SECURE_DB_POOL_MAX must be positive and SECURE_DB_POOL_MIN must not exceed it",
            ),
        );
    }
    let connect_timeout_seconds: u64 = match parse_u64_env(
        "SECURE_DB_CONNECT_TIMEOUT",
        &env.connect_timeout,
        10,
    ) {
        Ok(number) => number,
        Err(rejection) => return Err(rejection),
    };
    let idle_timeout_seconds: u64 = match parse_u64_env(
        "SECURE_DB_IDLE_TIMEOUT",
        &env.idle_timeout,
        300,
    ) {
        Ok(number) => number,
        Err(rejection) => return Err(rejection),
    };
    if connect_timeout_seconds == 0 || idle_timeout_seconds == 0 {
        return Err(rejected("database timeout values must be greater than zero"));
    }
    let application_name = env.app_name.or("secure-database");
    if text::blank(application_name) {
        return Err(rejected("SECURE_DB_APP_NAME must not be empty"));
    }
    Ok(
        NativeConfig {
            data_auth,
            secrets_auth,
            max_connections,
            min_connections,
            connect_timeout_seconds,
            idle_timeout_seconds,
            application_name: application_name.to_owned(),
        },
    )
}

/// What holds of the credentials of a pool: an audience or an address that is
/// not blank, and a lifetime above zero.
pub open spec fn usable_auth(auth: AuthView) -> bool {
    match auth {
        AuthView::StaticUrl { database_url } => !text::is_blank(database_url),
        AuthView::Broker(broker) => !text::is_blank(broker.audience) && broker.ttl_seconds > 0,
    }
}

/// Every configuration that is accepted can be used: its limits are in order
/// and none of its names is blank.
pub proof fn accepted_configurations_are_usable(env: NativeEnvironment)
    ensures
        native_config(env) matches Ok(config) ==> {
            &&& usable_auth(config.data_auth)
            &&& config.secrets_auth matches Some(auth) ==> usable_auth(auth)
            &&& 1 <= config.max_connections
            &&& config.min_connections <= config.max_connections
            &&& 1 <= config.connect_timeout_seconds
            &&& 1 <= config.idle_timeout_seconds
            &&& !text::is_blank(config.application_name)
        },
{
}

/// Static credentials are an explicit exception: they are used only where the
/// source says so and the switch for them is on. Neither pool ever falls back
/// to them, and the two pools have the same kind of source.
pub proof fn static_credentials_are_explicit(env: NativeEnvironment)
    ensures
        native_config(env) matches Ok(config) ==> {
            &&& config.data_auth is StaticUrl <==> text::ascii_lowercase(
                env.credential_source@.or_default("broker"@),
            ) == "static"@
            &&& config.data_auth is StaticUrl ==> flag(
                "SECURE_DB_ALLOW_STATIC"@,
                env.allow_static@,
            ) == Ok::<_, error::ErrorView>(true)
            &&& config.secrets_auth matches Some(auth) ==> (auth is StaticUrl
                <==> config.data_auth is StaticUrl)
        },
{
    reveal_strlit("broker");
    reveal_strlit("static");
    assert("broker"@[0] != "static"@[0]);
}

/// Whether a number is the one that a variable asks for: what it spells where
/// it is set, and the default where it is not.
pub open spec fn asked_number(value: EnvValue, number: nat, default: nat) -> bool {
    match value {
        EnvValue::Absent => number == default,
        EnvValue::Unreadable(_) => false,
        EnvValue::Present(raw) => text::unsigned_value(raw@) == Some(number),
    }
}

/// Whether a list is the one that a variable asks for: its entries where it is
/// set, and the default where it cannot be read.
pub open spec fn asked_list(
    value: EnvValue,
    list: Seq<Seq<char>>,
    default: Seq<Seq<char>>,
) -> bool {
    match value {
        EnvValue::Present(raw) => list == text::list_entries(text::parts(raw@, ',')),
        _ => list == default,
    }
}

/// A number is taken for what it is written as, up to the largest one of its
/// kind; a variable that is not set gives the default.
pub proof fn numbers_are_read_as_written(
    key: Seq<char>,
    value: EnvValue,
    small: u32,
    large: u64,
    n: nat,
)
    ensures
        value is Absent ==> number_u32(key, value@, small) == Ok::<_, Seq<char>>(small),
        value is Absent ==> number_u64(key, value@, large) == Ok::<_, Seq<char>>(large),
        value is Unreadable ==> number_u32(key, value@, small) is Err,
        value is Unreadable ==> number_u64(key, value@, large) is Err,
        (value matches EnvValue::Present(raw) && raw@ == text::decimal(n)) ==> {
            &&& number_u32(key, value@, small) is Ok <==> n <= 0xffff_ffff
            &&& number_u64(key, value@, large) is Ok <==> n <= 0xffff_ffff_ffff_ffff
            &&& number_u32(key, value@, small) matches Ok(number) ==> number == n
            &&& number_u64(key, value@, large) matches Ok(number) ==> number == n
        },
{
    text::decimal_is_read_back(n);
}

/// A variable that is required is handed on as it is, and is refused where it
/// is not set, cannot be read or is blank.
pub proof fn required_values_are_handed_on(key: Seq<char>, value: EnvValue)
    ensures
        required(key, value@) is Ok <==> (value matches EnvValue::Present(raw) && !text::is_blank(
            raw@,
        )),
        (value matches EnvValue::Present(raw) ==> required(key, value@) is Ok ==> required(
            key,
            value@,
        ) == Ok::<_, Seq<char>>(raw@)),
{
}

/// A switch goes by its word alone, whatever the case of its letters and the
/// white space around it: four words turn it on, four turn it off, and it is
/// off where nothing is set.
pub proof fn switches_go_by_their_word(key: Seq<char>, value: EnvValue)
    ensures
        value is Absent ==> flag(key, value@) == Ok::<_, error::ErrorView>(false),
        value is Unreadable ==> flag(key, value@) is Err,
        match value {
            EnvValue::Present(raw) => {
                let word = text::ascii_lowercase(text::trimmed(raw@));
                &&& flag(key, value@) == Ok::<_, error::ErrorView>(true) <==> seq![
                    "1"@,
                    "true"@,
                    "yes"@,
                    "on"@,
                ].contains(word)
                &&& flag(key, value@) == Ok::<_, error::ErrorView>(false) <==> seq![
                    "0"@,
                    "false"@,
                    "no"@,
                    "off"@,
                ].contains(word)
            },
            _ => true,
        },
{
    match value {
        EnvValue::Present(raw) => {
            let word = text::ascii_lowercase(text::trimmed(raw@));
            let on = seq!["1"@, "true"@, "yes"@, "on"@];
            let off = seq!["0"@, "false"@, "no"@, "off"@];
            switches_are_unambiguous(word);
            assert(on[0] == "1"@ && on[1] == "true"@ && on[2] == "yes"@ && on[3] == "on"@);
            assert(off[0] == "0"@ && off[1] == "false"@ && off[2] == "no"@ && off[3] == "off"@);
        },
        _ => {},
    }
}

/// Every setting of an accepted configuration is the one that its own variable
/// asks for. The credentials for secrets are, where they have no setting of
/// their own, asked for as those for data are.
pub proof fn settings_come_from_their_variables(env: NativeEnvironment)
    ensures
        native_config(env) matches Ok(config) ==> {
            &&& asked_number(env.pool_max, config.max_connections as nat, 20)
            &&& asked_number(env.pool_min, config.min_connections as nat, 5)
            &&& asked_number(env.connect_timeout, config.connect_timeout_seconds as nat, 10)
            &&& asked_number(env.idle_timeout, config.idle_timeout_seconds as nat, 300)
            &&& match env.app_name {
                EnvValue::Present(name) => config.application_name == name@,
                _ => config.application_name == "secure-database"@,
            }
            &&& match config.data_auth {
                AuthView::StaticUrl { database_url } => {
                    &&& env.database_url matches EnvValue::Present(url)
                    &&& database_url == url@
                },
                AuthView::Broker(broker) => {
                    &&& env.broker_audience matches EnvValue::Present(audience)
                    &&& broker.audience == audience@
                    &&& asked_list(env.broker_scope, broker.scope, Seq::empty())
                    &&& asked_number(env.broker_ttl_seconds, broker.ttl_seconds as nat, 900)
                },
            }
        },
{
}

/// The credentials for secrets of an accepted configuration are asked for by
/// variables of their own. They are there exactly where an address or an
/// audience for them is; what else is not set is as for the data.
pub proof fn secrets_settings_come_from_their_variables(env: NativeEnvironment)
    ensures
        native_config(env) matches Ok(config) ==> match config.data_auth {
            AuthView::StaticUrl { database_url } => match env.secrets_url {
                EnvValue::Present(url) => if text::is_blank(url@) {
                    config.secrets_auth is None
                } else {
                    config.secrets_auth == Some(AuthView::StaticUrl { database_url: url@ })
                },
                _ => config.secrets_auth is None,
            },
            AuthView::Broker(data) => match env.secrets_broker_audience {
                EnvValue::Present(audience) => {
                    &&& config.secrets_auth matches Some(AuthView::Broker(broker))
                    &&& broker.audience == audience@
                    &&& asked_list(env.secrets_broker_scope, broker.scope, data.scope)
                    &&& asked_number(
                        env.secrets_broker_ttl_seconds,
                        broker.ttl_seconds as nat,
                        data.ttl_seconds as nat,
                    )
                },
                _ => {
                    &&& config.secrets_auth is None
                    &&& env.secrets_broker_scope is Absent
                    &&& env.secrets_broker_ttl_seconds is Absent
                },
            },
        },
{
}

/// Whether a variable is not set, or spells a number from `least` to `most`.
pub open spec fn number_or_absent(value: EnvValue, least: nat, most: nat) -> bool {
    match value {
        EnvValue::Absent => true,
        EnvValue::Unreadable(_) => false,
        EnvValue::Present(raw) => {
            &&& text::unsigned_value(raw@) matches Some(number)
            &&& least <= number <= most
        },
    }
}

/// An environment that names an audience for the broker, and whose numbers are
/// in order, is accepted: nothing else has to be set.
pub proof fn ordered_environments_are_accepted(env: NativeEnvironment)
    requires
        env.credential_source is Absent,
        env.broker_audience matches EnvValue::Present(audience) && !text::is_blank(audience@),
        number_or_absent(env.broker_ttl_seconds, 1, 0xffff_ffff_ffff_ffff),
        env.secrets_broker_audience is Absent,
        env.secrets_broker_scope is Absent,
        env.secrets_broker_ttl_seconds is Absent,
        number_or_absent(env.pool_max, 20, 0xffff_ffff),
        number_or_absent(env.pool_min, 0, 20),
        number_or_absent(env.connect_timeout, 1, 0xffff_ffff_ffff_ffff),
        number_or_absent(env.idle_timeout, 1, 0xffff_ffff_ffff_ffff),
        env.app_name matches EnvValue::Present(name) ==> !text::is_blank(name@),
    ensures
        native_config(env) is Ok,
        native_config(env)->Ok_0.data_auth is Broker,
{
    reveal_strlit("broker");
    reveal_strlit("secure-database");
    assert(text::ascii_lowercase("broker"@) =~= "broker"@);
    text::blank_texts_are_white_space("secure-database"@);
    assert(!text::is_white_space("secure-database"@[0]));
}

/// A configuration that is read holds each setting in its own place.
pub proof fn read_configurations_hold_their_settings(
    config: NativeConfig,
    env: NativeEnvironment,
)
    requires
        native_config(env) == Ok::<_, Seq<char>>(config@),
    ensures
        asked_number(env.pool_max, config.max_connections as nat, 20),
        asked_number(env.pool_min, config.min_connections as nat, 5),
        asked_number(env.connect_timeout, config.connect_timeout_seconds as nat, 10),
        asked_number(env.idle_timeout, config.idle_timeout_seconds as nat, 300),
        match config.data_auth {
            NativeAuthConfig::StaticUrl { database_url } => {
                &&& env.database_url matches EnvValue::Present(url)
                &&& database_url@ == url@
            },
            NativeAuthConfig::Broker(broker) => {
                &&& env.broker_audience matches EnvValue::Present(audience)
                &&& broker.audience@ == audience@
                &&& asked_list(env.broker_scope, text::views(broker.scope@), Seq::empty())
                &&& asked_number(env.broker_ttl_seconds, broker.ttl_seconds as nat, 900)
            },
        },
        match config.secrets_auth {
            None => true,
            Some(NativeAuthConfig::StaticUrl { database_url }) => {
                &&& env.secrets_url matches EnvValue::Present(url)
                &&& database_url@ == url@
            },
            Some(NativeAuthConfig::Broker(broker)) => {
                &&& env.secrets_broker_audience matches EnvValue::Present(audience)
                &&& broker.audience@ == audience@
            },
        },
{
    settings_come_from_their_variables(env);
    secrets_settings_come_from_their_variables(env);
    assert(config@.max_connections == config.max_connections);
    assert(config@.min_connections == config.min_connections);
    assert(config@.connect_timeout_seconds == config.connect_timeout_seconds);
    assert(config@.idle_timeout_seconds == config.idle_timeout_seconds);
    assert(config@.data_auth == config.data_auth@);
}

} // verus!
