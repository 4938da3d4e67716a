use secure_database::config::{
    env_flag, load_native_config, parse_scope_list, parse_u32_env, parse_u64_env, required_env,
    BrokerCredentialConfig, EnvValue, NativeAuthConfig, NativeEnvironment,
};
use secure_database::endpoint::Endpoint;
use secure_database::pool::{
    allow_unlisted_extensions, attestation_query_limit, broker_client_failure, connect_options_from_lease,
    check_pgbouncer, connect_postgres, create_pool, enforce_extension_allowlist, ensure_pgbouncer_dsn,
    ensure_postgres_extensions, lease_failure, lease_request, lease_ttl_seconds, lease_url_failure,
    plan_static_pool, pool_failure, skip_migrations, static_url_failure, ExtensionFeatures,
    ExtensionStep, LeaseRotation, PoolKind, PoolPlan, RotationEvent, RotationStep, SslMode,
};
use secure_database::secret_broker_client::PostgresCredentialLease;
use secure_database::time::Timestamp;

fn set(value: &str) -> EnvValue {
    EnvValue::Present(value.to_string())
}

fn empty() -> NativeEnvironment {
    NativeEnvironment {
        credential_source: EnvValue::Absent,
        broker_audience: EnvValue::Absent,
        broker_scope: EnvValue::Absent,
        broker_ttl_seconds: EnvValue::Absent,
        allow_static: EnvValue::Absent,
        database_url: EnvValue::Absent,
        secrets_broker_audience: EnvValue::Absent,
        secrets_broker_scope: EnvValue::Absent,
        secrets_broker_ttl_seconds: EnvValue::Absent,
        secrets_url: EnvValue::Absent,
        pool_max: EnvValue::Absent,
        pool_min: EnvValue::Absent,
        connect_timeout: EnvValue::Absent,
        idle_timeout: EnvValue::Absent,
        app_name: EnvValue::Absent,
    }
}

fn broker() -> NativeEnvironment {
    NativeEnvironment { broker_audience: set("gateway"), ..empty() }
}

fn fixed() -> NativeEnvironment {
    NativeEnvironment {
        credential_source: set("static"),
        allow_static: set("1"),
        database_url: set("postgres://u@h:6432/db"),
        ..empty()
    }
}

fn refused(env: NativeEnvironment) -> String {
    load_native_config(&env).expect_err("refused").reason
}

fn is_broker(auth: &NativeAuthConfig, audience: &str, scope: &[&str], ttl: u64) -> bool {
    match auth {
        NativeAuthConfig::Broker(BrokerCredentialConfig { audience: a, scope: s, ttl_seconds }) => {
            a == audience && s == scope && *ttl_seconds == ttl
        }
        _ => false,
    }
}

#[test]
fn the_broker_is_the_normal_source() {
    let config = load_native_config(&broker()).expect("config");
    assert!(is_broker(&config.data_auth, "gateway", &[], 900));
    assert!(config.secrets_auth.is_none());
    assert_eq!(config.max_connections, 20);
    assert_eq!(config.min_connections, 5);
    assert_eq!(config.connect_timeout_seconds, 10);
    assert_eq!(config.idle_timeout_seconds, 300);
    assert_eq!(config.application_name, "secure-database");
}

#[test]
fn broker_settings_are_read() {
    let config = load_native_config(&NativeEnvironment {
        credential_source: set("BROKER"),
        broker_scope: set(" read, write,,"),
        broker_ttl_seconds: set("60"),
        secrets_broker_audience: set("vault"),
        pool_max: set("7"),
        pool_min: set("7"),
        connect_timeout: set("1"),
        idle_timeout: set("2"),
        app_name: set("gw"),
        ..broker()
    })
    .expect("config");
    assert!(is_broker(&config.data_auth, "gateway", &["read", "write"], 60));
    assert!(is_broker(
        config.secrets_auth.as_ref().expect("secrets"),
        "vault",
        &["read", "write"],
        60
    ));
    assert_eq!(config.max_connections, 7);
    assert_eq!(config.min_connections, 7);
    assert_eq!(config.connect_timeout_seconds, 1);
    assert_eq!(config.idle_timeout_seconds, 2);
    assert_eq!(config.application_name, "gw");

    let config = load_native_config(&NativeEnvironment {
        secrets_broker_audience: set("vault"),
        secrets_broker_scope: set("seal"),
        secrets_broker_ttl_seconds: set("5"),
        ..broker()
    })
    .expect("config");
    assert!(is_broker(config.secrets_auth.as_ref().expect("secrets"), "vault", &["seal"], 5));
}

#[test]
fn static_credentials_take_a_switch() {
    assert_eq!(
        refused(NativeEnvironment { allow_static: EnvValue::Absent, ..fixed() }),
        "SECURE_DB_CREDENTIAL_SOURCE=static requires SECURE_DB_ALLOW_STATIC=true"
    );
    assert_eq!(
        refused(NativeEnvironment { allow_static: set("off"), ..fixed() }),
        "SECURE_DB_CREDENTIAL_SOURCE=static requires SECURE_DB_ALLOW_STATIC=true"
    );
    assert_eq!(
        refused(NativeEnvironment { allow_static: set("maybe"), ..fixed() }),
        "configuration error: SECURE_DB_ALLOW_STATIC must be a boolean value"
    );
    assert_eq!(
        refused(NativeEnvironment { database_url: EnvValue::Absent, ..fixed() }),
        "SECURE_DB_URL is required"
    );
    let config = load_native_config(&fixed()).expect("config");
    match config.data_auth {
        NativeAuthConfig::StaticUrl { database_url } => {
            assert_eq!(database_url, "postgres://u@h:6432/db")
        }
        other => panic!("unexpected {:?}", other),
    }
    assert!(config.secrets_auth.is_none());
    let config = load_native_config(&NativeEnvironment { secrets_url: set(" "), ..fixed() })
        .expect("config");
    assert!(config.secrets_auth.is_none());
    let config = load_native_config(&NativeEnvironment { secrets_url: set("postgres://s"), ..fixed() })
        .expect("config");
    assert!(matches!(
        config.secrets_auth,
        Some(NativeAuthConfig::StaticUrl { database_url }) if database_url == "postgres://s"
    ));
}

#[test]
fn bad_settings_are_told_apart() {
    assert_eq!(refused(empty()), "SECURE_DB_BROKER_AUDIENCE is required");
    assert_eq!(
        refused(NativeEnvironment { broker_audience: set("\t"), ..empty() }),
        "SECURE_DB_BROKER_AUDIENCE must not be empty"
    );
    assert_eq!(
        refused(NativeEnvironment { credential_source: set("Vault"), ..broker() }),
        "SECURE_DB_CREDENTIAL_SOURCE must be 'broker' or 'static', got \"vault\""
    );
    assert_eq!(
        refused(NativeEnvironment { broker_ttl_seconds: set("0"), ..broker() }),
        "SECURE_DB_BROKER_TTL_SECONDS must be greater than zero"
    );
    assert_eq!(
        refused(NativeEnvironment {
            secrets_broker_audience: set("v"),
            secrets_broker_ttl_seconds: set("0"),
            ..broker()
        }),
        "SECURE_DB_SECRETS_BROKER_TTL_SECONDS must be greater than zero"
    );
    assert_eq!(
        refused(NativeEnvironment { secrets_broker_audience: set(" "), ..broker() }),
        "SECURE_DB_SECRETS_BROKER_AUDIENCE must not be empty"
    );
    assert_eq!(
        refused(NativeEnvironment { secrets_broker_scope: set("s"), ..broker() }),
        "SECURE_DB_SECRETS_BROKER_AUDIENCE is required when secret-pool broker overrides are set"
    );
    assert_eq!(
        refused(NativeEnvironment {
            secrets_broker_ttl_seconds: EnvValue::Unreadable("bad".to_string()),
            ..broker()
        }),
        "SECURE_DB_SECRETS_BROKER_AUDIENCE is required when secret-pool broker overrides are set"
    );
    for (max, min) in [("0", "0"), ("4", "5")] {
        assert_eq!(
            refused(NativeEnvironment { pool_max: set(max), pool_min: set(min), ..broker() }),
            "SECURE_DB_POOL_MAX must be positive and SECURE_DB_POOL_MIN must not exceed it"
        );
    }
    assert_eq!(
        refused(NativeEnvironment { connect_timeout: set("0"), ..broker() }),
        "database timeout values must be greater than zero"
    );
    assert_eq!(
        refused(NativeEnvironment { idle_timeout: set("0"), ..broker() }),
        "database timeout values must be greater than zero"
    );
    assert_eq!(
        refused(NativeEnvironment { app_name: set(""), ..broker() }),
        "SECURE_DB_APP_NAME must not be empty"
    );
}

#[test]
fn numbers_are_read_or_refused() {
    assert_eq!(parse_u32_env("K", &EnvValue::Absent, 9).expect("default"), 9);
    assert_eq!(parse_u32_env("K", &set("+12"), 9).expect("sign"), 12);
    assert_eq!(parse_u32_env("K", &set("4294967295"), 9).expect("largest"), u32::MAX);
    let cases = [
        ("", "invalid K value \"\": cannot parse integer from empty string"),
        ("-1", "invalid K value \"-1\": invalid digit found in string"),
        (" 1", "invalid K value \" 1\": invalid digit found in string"),
        ("4294967296", "invalid K value \"4294967296\": number too large to fit in target type"),
        ("a\"b", "invalid K value \"a\\\"b\": invalid digit found in string"),
    ];
    for (raw, reason) in cases {
        assert_eq!(parse_u32_env("K", &set(raw), 9).expect_err("refused").reason, reason);
    }
    assert_eq!(
        parse_u32_env("K", &EnvValue::Unreadable("not text".to_string()), 9)
            .expect_err("refused")
            .reason,
        "failed to read K: not text"
    );
    assert_eq!(parse_u64_env("K", &set("18446744073709551615"), 9).expect("largest"), u64::MAX);
    assert_eq!(
        parse_u64_env("K", &set("18446744073709551616"), 9).expect_err("refused").reason,
        "invalid K value \"18446744073709551616\": number too large to fit in target type"
    );
    assert_eq!(
        parse_u64_env("K", &EnvValue::Unreadable("not text".to_string()), 9)
            .expect_err("refused")
            .reason,
        "failed to read K: not text"
    );
}

#[test]
fn switches_have_two_positions() {
    for on in ["1", "true", "YES", " on "] {
        assert!(env_flag("K", &set(on)).expect("on"));
    }
    for off in ["0", "False", "no", "OFF\n"] {
        assert!(!env_flag("K", &set(off)).expect("off"));
    }
    assert!(!env_flag("K", &EnvValue::Absent).expect("absent"));
    assert_eq!(
        env_flag("K", &set("")).expect_err("refused").message(),
        "configuration error: K must be a boolean value"
    );
    assert_eq!(
        env_flag("K", &EnvValue::Unreadable("p".to_string())).expect_err("refused").message(),
        "configuration error: failed to read K: p"
    );
    assert!(skip_migrations(&set("yes")).expect("on"));
    assert_eq!(
        skip_migrations(&set("?")).expect_err("refused").message(),
        "configuration error: SECURE_DB_SKIP_MIGRATIONS must be a boolean value"
    );
    assert!(!allow_unlisted_extensions(&EnvValue::Absent).expect("off"));
    assert_eq!(
        allow_unlisted_extensions(&set("?")).expect_err("refused").message(),
        "configuration error: SECURE_DB_ALLOW_UNLISTED_EXTENSIONS must be a boolean value"
    );
}

#[test]
fn required_values_are_kept_as_they_are() {
    assert_eq!(required_env("K", &set(" v ")).expect("value"), " v ");
    assert_eq!(
        required_env("K", &EnvValue::Unreadable("x".to_string())).expect_err("refused").reason,
        "K is required"
    );
}

#[test]
fn scopes_are_trimmed() {
    assert_eq!(parse_scope_list(""), Vec::<String>::new());
    assert_eq!(parse_scope_list(" , ,"), Vec::<String>::new());
    assert_eq!(parse_scope_list("a,,\u{a0}b c ,a"), vec!["a", "b c", "a"]);
}

#[test]
fn pools_go_through_the_pooler() {
    for url in [
        "postgres://u@pgbouncer:5432/db",
        "postgres://PGBouncer:1/db",
        "postgres://u@h:6432/db",
        "postgres://u@h:6432",
        "postgres://u@h:6432?sslmode=require",
        "postgres://u@h:6432#part",
        "postgres://app@pgbouncer/db",
        "postgres://pgbouncer/db",
        "postgres://PGBOUNCER",
        "postgres://u:p@PgBouncer",
        "postgres://pgbouncer?sslmode=require",
        "postgres://app@pgbouncer#part",
        "postgres://d?port=6432",
        "postgres://d?port=%2B06432",
        "postgres://u@h:06432/db",
        "postgres://h/db?host=PgBouncer",
        "postgres://h/db?host=other&host=pgbouncer",
        "postgres://pgbouncer/db?host=/run/socket",
        "postgres:///db?host=pgbouncer",
        "postgres://u@h:6432/db?port=none",
    ] {
        ensure_pgbouncer_dsn(url).expect("pooler");
    }
    for url in [
        "postgres://u@h:5432/db",
        "postgres://u@pgbouncer.example/db",
        "postgres://my-pgbouncer/db",
        "postgres://h/pgbouncer",
        "postgres://u@h:64321/db",
        "postgres://app@db:5432/x@pgbouncer",
        "postgres://app@db/x:6432",
        "postgres://db?application_name=@pgbouncer",
        "postgres://u@h:6432/db?port=5432",
        "postgres://pgbouncer/db?host=db",
        "postgres://pgbouncer/db?hostaddr=10.0.0.1",
        "postgres://h?port=71968",
        "pgbouncer:6432",
        "",
    ] {
        assert_eq!(
            ensure_pgbouncer_dsn(url).expect_err("direct").message(),
            format!(
                "configuration error: PgBouncer DSN required (port 6432 or host pgbouncer): {}. Set SECURE_DB_ALLOW_DIRECT_BOOTSTRAP=1 for admin bootstrap or SECURE_DB_RATLS_MODE=disabled for development.",
                url
            )
        );
    }
}

#[test]
fn poolers_are_known_by_their_parts() {
    let at = |host: Option<&str>, port, query: &[(&str, &str)]| {
        Some(Endpoint {
            address: String::new(),
            scheme: "postgres".to_string(),
            username: String::new(),
            host: host.map(str::to_string),
            port,
            query: query.iter().map(|(n, v)| (n.to_string(), v.to_string())).collect(),
            http_address: String::new(),
        })
    };
    check_pgbouncer("u", &at(Some("PGBOUNCER"), None, &[])).expect("host");
    check_pgbouncer("u", &at(None, Some(6432), &[])).expect("port");
    check_pgbouncer("u", &at(Some("h"), Some(1), &[("port", "6432"), ("x", "y")])).expect("port");
    assert!(check_pgbouncer("u", &at(Some("h"), Some(6433), &[("host", "h")])).is_err());
    assert!(check_pgbouncer("u", &at(None, None, &[])).is_err());
    assert!(check_pgbouncer("u", &None).is_err());
}

#[test]
fn poolers_are_connected_with_tls() {
    let url = "postgres://app@pgbouncer/db";
    let plan = plan_static_pool(url, "app", &EnvValue::Absent, &EnvValue::Absent).expect("plan");
    assert!(matches!(plan.ssl_mode, SslMode::Require));
    assert_eq!(plan.database_url, url);
}

#[test]
fn plain_connections_take_a_switch() {
    let url = "postgres://u@h:5432/db";
    let plan = plan_static_pool(url, "app", &set("Disabled"), &set("junk")).expect("plan");
    assert!(matches!(plan.ssl_mode, SslMode::Prefer));
    assert_eq!(plan.database_url, url);
    assert_eq!(plan.application_name, "app");
    assert!(plan.username.is_none() && plan.password.is_none());
    let plan = plan_static_pool(url, "app", &EnvValue::Absent, &set("1")).expect("plan");
    assert!(matches!(plan.ssl_mode, SslMode::Require));
    assert!(plan_static_pool(url, "app", &set(" disabled"), &EnvValue::Absent).is_err());
    assert_eq!(
        plan_static_pool(url, "app", &EnvValue::Absent, &set("junk")).expect_err("junk").message(),
        "configuration error: SECURE_DB_ALLOW_DIRECT_BOOTSTRAP must be a boolean value"
    );
}

#[test]
fn leases_are_used_over_tls() {
    let lease = PostgresCredentialLease {
        database_url: "postgres://h/db".to_string(),
        username: Some("lease".to_string()),
        password: None,
        expires_at: None,
    };
    let plan = connect_options_from_lease(&lease, "app");
    assert!(matches!(plan.ssl_mode, SslMode::Require));
    assert_eq!(plan.database_url, "postgres://h/db");
    assert_eq!(plan.username.as_deref(), Some("lease"));
    assert_eq!(plan.password, None);
    let request = lease_request(
        &BrokerCredentialConfig {
            audience: " gw ".to_string(),
            scope: vec!["s".to_string()],
            ttl_seconds: 3,
        },
        "app",
    );
    assert_eq!(request.audience, " gw ");
    assert_eq!(request.scope, vec!["s"]);
    assert_eq!(request.ttl_seconds, 3);
    assert_eq!(request.application_name.as_deref(), Some("app"));
}

#[test]
fn pools_are_planned_from_the_configuration() {
    let config = load_native_config(&NativeEnvironment {
        secrets_broker_audience: set("vault"),
        pool_max: set("8"),
        ..broker()
    })
    .expect("config");
    let plan = connect_postgres(config);
    assert!(is_broker(&plan.data.auth, "gateway", &[], 900));
    assert_eq!(plan.data.context.kind.label(), "data");
    assert_eq!(plan.data.context.max_connections, 8);
    let secrets = plan.secrets.expect("secrets");
    assert_eq!(secrets.context.kind.label(), "secrets");
    assert_eq!(secrets.context.application_name, "secure-database");
    match create_pool(&secrets, &EnvValue::Absent, &set("junk")).expect("plan") {
        PoolPlan::Lease(request) => assert_eq!(request.audience, "vault"),
        other => panic!("unexpected {:?}", other),
    }
    let plan = connect_postgres(load_native_config(&fixed()).expect("config"));
    assert!(plan.secrets.is_none());
    match create_pool(&plan.data, &EnvValue::Absent, &EnvValue::Absent).expect("plan") {
        PoolPlan::Connect(connect) => assert_eq!(connect.database_url, "postgres://u@h:6432/db"),
        other => panic!("unexpected {:?}", other),
    }
}

#[test]
fn failures_say_where_they_come_from() {
    let texts = [
        (lease_failure("x"), "configuration error: failed to obtain PostgreSQL credentials from secret broker: x"),
        (broker_client_failure("x"), "configuration error: failed to initialise secret-broker client for Postgres credentials: x"),
        (lease_url_failure(PoolKind::Secrets, "x"), "configuration error: invalid database_url from secret broker lease for secrets: x"),
        (static_url_failure("x"), "configuration error: invalid DATABASE_URL: x"),
        (pool_failure("x"), "configuration error: failed to instantiate connection pool: x"),
    ];
    for (error, text) in texts {
        assert_eq!(error.message(), text);
    }
}

fn at(seconds: i64, nanos: u32) -> Timestamp {
    Timestamp { seconds, nanos }
}

fn wait(rotation: &LeaseRotation, now: Timestamp) -> (u64, u32) {
    match rotation.next(now) {
        RotationStep::RefreshAfter(wait) => (wait.seconds, wait.nanos),
        RotationStep::Stop => panic!("stopped"),
    }
}

#[test]
fn leases_are_replaced_before_they_expire() {
    let mut rotation = LeaseRotation { next_expiry: Some(at(1_000, 500)) };
    assert_eq!(wait(&rotation, at(900, 0)), (40, 500));
    assert_eq!(wait(&rotation, at(900, 501)), (39, 999_999_999));
    assert_eq!(wait(&rotation, at(940, 500)), (0, 0));
    assert_eq!(wait(&rotation, at(2_000, 0)), (0, 0));

    let pause = rotation.record(RotationEvent::Failed);
    assert_eq!((pause.seconds, pause.nanos), (15, 0));
    assert_eq!(rotation.next_expiry, Some(at(1_000, 500)));

    let pause = rotation.record(RotationEvent::Refreshed(Some(at(5_000, 0))));
    assert_eq!((pause.seconds, pause.nanos), (0, 0));
    assert_eq!(wait(&rotation, at(900, 0)), (4_040, 0));

    rotation.record(RotationEvent::Refreshed(None));
    assert!(matches!(rotation.next(at(0, 0)), RotationStep::Stop));
}

#[test]
fn remaining_life_is_in_whole_seconds() {
    assert_eq!(lease_ttl_seconds(at(100, 0), at(40, 0)), 60);
    assert_eq!(lease_ttl_seconds(at(100, 0), at(40, 1)), 59);
    assert_eq!(lease_ttl_seconds(at(40, 0), at(100, 0)), 0);
}

fn steps(kind: PoolKind, features: ExtensionFeatures) -> Vec<String> {
    ensure_postgres_extensions(kind, features)
        .into_iter()
        .map(|step| match step {
            ExtensionStep::Execute(sql) => format!("run {}", sql),
            ExtensionStep::Allow(name) => format!("allow {}", name),
        })
        .collect()
}

#[test]
fn extensions_are_listed_as_they_are_made() {
    let none = ExtensionFeatures {
        pgaudit: false,
        pg_stat_statements: false,
        timescaledb: false,
        citus: false,
    };
    assert_eq!(steps(PoolKind::Data, none), vec!["allow pgcrypto"]);
    let all = ExtensionFeatures {
        pgaudit: true,
        pg_stat_statements: true,
        timescaledb: true,
        citus: true,
    };
    assert_eq!(
        steps(PoolKind::Secrets, all),
        vec![
            "allow pgcrypto",
            "run CREATE EXTENSION IF NOT EXISTS pgaudit;",
            "allow pgaudit",
            "run CREATE EXTENSION IF NOT EXISTS pg_stat_statements;",
            "allow pg_stat_statements",
        ]
    );
    let all = ExtensionFeatures {
        pgaudit: true,
        pg_stat_statements: true,
        timescaledb: true,
        citus: true,
    };
    assert_eq!(
        steps(PoolKind::Data, all)[5..],
        [
            "run CREATE EXTENSION IF NOT EXISTS timescaledb;",
            "run SELECT create_hypertable('gateway_data.tor_connect_audits', 'occurred_at', if_not_exists => TRUE);",
            "allow timescaledb",
            "run CREATE EXTENSION IF NOT EXISTS citus;",
            "run SELECT create_distributed_table('gateway_secrets.zk_proofs', 'user_id', if_not_exists => TRUE);",
            "run SELECT create_distributed_table('gateway_secrets.tee_attestations', 'user_id', if_not_exists => TRUE);",
            "allow citus",
        ]
    );
}

#[test]
fn unlisted_extensions_are_refused() {
    enforce_extension_allowlist(&Vec::new()).expect("none");
    assert_eq!(
        enforce_extension_allowlist(&vec!["a".to_string(), "b".to_string()])
            .expect_err("two")
            .message(),
        "configuration error: found disallowed extensions: a, b (set SECURE_DB_ALLOW_UNLISTED_EXTENSIONS=1 to override)"
    );
}

#[test]
fn attestation_queries_are_bounded() {
    for limit in [0, -1, i64::MIN] {
        assert_eq!(
            attestation_query_limit(limit).expect_err("refused").message(),
            "configuration error: attestation query limit must be greater than zero"
        );
    }
    assert_eq!(attestation_query_limit(1).expect("limit"), 1);
    assert_eq!(attestation_query_limit(1_000).expect("limit"), 1_000);
    assert_eq!(attestation_query_limit(i64::MAX).expect("limit"), 1_000);
}
