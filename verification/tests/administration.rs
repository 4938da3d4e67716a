use secure_database::admin::{
    check_owner_role, migration_settings, owner_role_from_database_url, owner_role_of,
    parse_wrap_lifecycle, quote_identifier, repair_patterns, repair_statements,
    resolve_database_url, resolve_owner_role, sanitize_identifier, sealed_config, sealed_config_text,
    wrap_secret_v2,
    MigrationOptions,
};
use secure_database::attestation::{
    invalidated_nonce_digest, invalidated_quote_hash, nonce_is_new, nonce_window,
};
use secure_database::config::EnvValue;
use secure_database::json::JsonMember;
use secure_database::protection::SecretLifecycle;
use secure_database::tee::decode_report_data;
use secure_database::time::Timestamp;
use secure_database::{TeeAttestation, TeeEndpointConfig};

fn set(value: &str) -> EnvValue {
    EnvValue::Present(value.to_string())
}

#[test]
fn identifiers_are_sanitized() {
    assert_eq!(sanitize_identifier("Gate Way_1-x!").as_deref(), Some("gateway_1-x"));
    assert_eq!(sanitize_identifier(" ;é"), None);
    assert_eq!(sanitize_identifier(""), None);
}

#[test]
fn identifiers_are_quoted() {
    assert_eq!(quote_identifier("role"), "\"role\"");
    assert_eq!(quote_identifier("a\"b\"\"c"), "\"a\"\"b\"\"\"\"c\"");
    assert_eq!(quote_identifier(""), "\"\"");
}

#[test]
fn database_urls_are_resolved() {
    assert_eq!(resolve_database_url(Some("a"), &set("b")).expect("url"), "a");
    assert_eq!(resolve_database_url(None, &set("b")).expect("url"), "b");
    for (explicit, env) in [(Some(" "), set("b")), (None, set("")), (None, EnvValue::Absent)] {
        assert_eq!(
            resolve_database_url(explicit, &env).expect_err("none").reason,
            "database URL is required via --database-url or SECURE_DB_URL"
        );
    }
}

#[test]
fn owners_come_from_the_url() {
    assert_eq!(
        owner_role_from_database_url("postgres://owner:pw@h/db").as_deref(),
        Some("owner")
    );
    for url in ["postgres://h/db", "postgres://:pw@h/db", "no url"] {
        assert_eq!(owner_role_from_database_url(url), None, "{}", url);
    }
    assert_eq!(owner_role_of(None), None);
    assert_eq!(
        resolve_owner_role(Some("o".to_string()), "no url").expect("explicit"),
        "o"
    );
    assert_eq!(resolve_owner_role(None, "postgres://u@h").expect("url"), "u");
    assert_eq!(
        resolve_owner_role(None, "postgres://h").expect_err("none").reason,
        "--owner-role is required when the database URL has no username"
    );
    check_owner_role("o", true).expect("exists");
    assert_eq!(
        check_owner_role("o", false).expect_err("absent").reason,
        "stable Postgres owner role 'o' does not exist"
    );
}

#[test]
fn migrations_set_their_variables() {
    let options = MigrationOptions {
        pool_max: Some(30),
        pool_min: None,
        connect_timeout: Some(18_446_744_073_709_551_615),
        idle_timeout: Some(0),
        application_name: Some("cli".to_string()),
    };
    let settings: Vec<(String, String)> = migration_settings("postgres://x", options)
        .into_iter()
        .map(|setting| (setting.name.to_string(), setting.value))
        .collect();
    let expected: Vec<(String, String)> = [
        ("SECURE_DB_ALLOW_STATIC", "1"),
        ("SECURE_DB_ALLOW_DIRECT_BOOTSTRAP", "1"),
        ("SECURE_DB_CREDENTIAL_SOURCE", "static"),
        ("SECURE_DB_URL", "postgres://x"),
        ("SECURE_DB_POOL_MAX", "30"),
        ("SECURE_DB_CONNECT_TIMEOUT", "18446744073709551615"),
        ("SECURE_DB_IDLE_TIMEOUT", "0"),
        ("SECURE_DB_APP_NAME", "cli"),
    ]
    .iter()
    .map(|(name, value)| (name.to_string(), value.to_string()))
    .collect();
    assert_eq!(settings, expected);
}

#[test]
fn leased_roles_are_repaired_once() {
    let audiences: Vec<String> =
        ["Gateway", "gate way", "!", "other", "gateway"].iter().map(|a| a.to_string()).collect();
    assert_eq!(repair_patterns(&audiences), vec!["gateway\\_%", "other\\_%"]);
    let audiences: Vec<String> = ["app_1", "_-_"].iter().map(|a| a.to_string()).collect();
    assert_eq!(repair_patterns(&audiences), vec!["app\\_1\\_%", "\\_-\\_\\_%"]);
    let statements = repair_statements("lease\"1", "owner");
    assert_eq!(statements.reassign, "REASSIGN OWNED BY \"lease\"\"1\" TO \"owner\"");
    assert_eq!(statements.drop_owned, "DROP OWNED BY \"lease\"\"1\"");
    assert_eq!(statements.drop_role, "DROP ROLE IF EXISTS \"lease\"\"1\"");
}

#[test]
fn lifecycles_have_three_spellings() {
    for raw in ["single_use_unwrap", "Single-Use-Unwrap", " singleuseunwrap "] {
        assert_eq!(parse_wrap_lifecycle(raw).expect("known"), SecretLifecycle::SingleUseUnwrap);
    }
    for raw in ["renewable_lease", "renewable-lease", "RENEWABLELEASE"] {
        assert_eq!(parse_wrap_lifecycle(raw).expect("known"), SecretLifecycle::RenewableLease);
    }
    for raw in ["service_bootstrap", "service-bootstrap", "servicebootstrap"] {
        assert_eq!(parse_wrap_lifecycle(raw).expect("known"), SecretLifecycle::ServiceBootstrap);
    }
    assert_eq!(
        parse_wrap_lifecycle(" Forever ").expect_err("unknown").reason,
        "unsupported lifecycle 'forever' ; expected single_use_unwrap, renewable_lease, or service_bootstrap"
    );
}

#[test]
fn secrets_are_wrapped_whole() {
    let request = wrap_secret_v2("V", &set(" s "), "renewable_lease", Some(" l "), Some(" "))
        .expect("request");
    assert_eq!(request.plaintext, " s ");
    assert_eq!(request.lifecycle, SecretLifecycle::RenewableLease);
    assert_eq!(request.label.as_deref(), Some("l"));
    assert_eq!(request.unwrap_principal_id, None);
    assert_eq!(
        wrap_secret_v2("V", &EnvValue::Absent, "x", None, None).expect_err("absent").reason,
        "V is required"
    );
    assert_eq!(
        wrap_secret_v2("V", &set(" "), "x", None, None).expect_err("empty").reason,
        "V must not be empty"
    );
    assert!(wrap_secret_v2("V", &set("s"), "x", None, None).is_err());
}

#[test]
fn nonces_are_kept_for_a_window() {
    assert_eq!(nonce_window(-1), 0);
    assert_eq!(nonce_window(0), 0);
    assert_eq!(nonce_window(60), 60);
    assert!(nonce_is_new(1));
    assert!(!nonce_is_new(0));
}

#[test]
fn artifacts_are_named_in_hexadecimal() {
    assert_eq!(invalidated_quote_hash(" 00fF ").expect("hash"), vec![0, 255]);
    assert_eq!(invalidated_quote_hash("").expect("empty"), Vec::<u8>::new());
    for bad in ["0", "zz"] {
        assert_eq!(
            invalidated_quote_hash(bad).expect_err("bad").message(),
            "integrity violation: invalid quote hash provided for attestation invalidation"
        );
    }
    assert_eq!(invalidated_nonce_digest(None).expect("none"), None);
    assert_eq!(invalidated_nonce_digest(Some(" ")).expect("blank"), None);
    assert_eq!(invalidated_nonce_digest(Some("0a")).expect("digest"), Some(vec![10]));
    assert_eq!(
        invalidated_nonce_digest(Some("x")).expect_err("bad").message(),
        "integrity violation: invalid nonce digest provided for attestation invalidation"
    );
}

#[test]
fn report_data_have_one_length() {
    let hex: String = "0f".repeat(64);
    assert_eq!(decode_report_data(&hex).expect("hex"), vec![15; 64]);
    let base64 = format!("{}==", "A".repeat(86));
    assert_eq!(decode_report_data(&base64).expect("base64"), vec![0; 64]);
    for bad in ["", "0f", "%"] {
        assert_eq!(
            decode_report_data(bad).expect_err("bad").message(),
            "configuration error: report data must be 64 bytes hex or base64 encoded"
        );
    }
    assert_eq!(TeeEndpointConfig::default().report_data(), vec![0; 64]);
    let config =
        TeeEndpointConfig::from_env(&set("/d"), &EnvValue::Absent, &set(&hex)).expect("config");
    assert_eq!(config.dstack_endpoint.as_deref(), Some("/d"));
    assert_eq!(config.tappd_endpoint, None);
    assert_eq!(config.report_data(), vec![15; 64]);
    assert!(TeeEndpointConfig::from_env(&set("/d"), &EnvValue::Absent, &set("00")).is_err());
    let config = TeeEndpointConfig::from_env(&EnvValue::Absent, &set("/t"), &EnvValue::Absent)
        .expect("config");
    assert_eq!(config.tappd_endpoint.as_deref(), Some("/t"));
    assert_eq!(config.report_data(), vec![0; 64]);
}

#[test]
fn audit_payloads_leave_the_evidence_out() {
    let attestation = |nanos| TeeAttestation {
        app_id: "a".to_string(),
        instance_id: "i".to_string(),
        device_id: "d".to_string(),
        compose_hash: "c".to_string(),
        key_provider_info: "k".to_string(),
        quote: vec![1],
        rtmr: "{}".to_string(),
        event_log: "[]".to_string(),
        recorded_at: Timestamp { seconds: 1_700_000_000, nanos },
    };
    let times = [
        (0, "2023-11-14T22:13:20Z"),
        (5_000_000, "2023-11-14T22:13:20.005Z"),
        (5_000, "2023-11-14T22:13:20.000005Z"),
        (5, "2023-11-14T22:13:20.000000005Z"),
    ];
    for (nanos, time) in times {
        let payload = attestation(nanos).as_audit_payload();
        let members: Vec<(&str, &str)> = payload
            .iter()
            .map(|(name, value)| match value {
                JsonMember::Text(text) => (name.as_str(), text.as_str()),
                other => panic!("unexpected {:?}", other),
            })
            .collect();
        assert_eq!(
            members,
            vec![
                ("app_id", "a"),
                ("instance_id", "i"),
                ("device_id", "d"),
                ("compose_hash", "c"),
                ("recorded_at", time),
            ]
        );
    }
}

#[test]
fn sealed_configurations_leave_the_secret_out() {
    let config = sealed_config("h", "t", "2024-01-01T00:00:00+00:00");
    let members: Vec<(&str, &str)> = config
        .iter()
        .map(|(name, value)| match value {
            JsonMember::Text(text) => (name.as_str(), text.as_str()),
            other => panic!("unexpected {:?}", other),
        })
        .collect();
    assert_eq!(
        members,
        vec![("handle", "h"), ("redeem_token", "t"), ("issued_at", "2024-01-01T00:00:00+00:00")]
    );
}

#[test]
fn sealed_configurations_are_written_as_json() {
    let text = sealed_config_text("h\"1", "t", "2024-01-01T00:00:00+00:00");
    assert!(text.starts_with("{\n  \"handle\": \"h\\\"1\",\n  \""), "{}", text);
    assert!(text.ends_with("\"\n}\n"), "{}", text);
    assert_eq!(text.lines().count(), 5);
    let value: serde_json::Value = serde_json::from_str(&text).expect("json");
    let object = value.as_object().expect("object");
    assert_eq!(object.len(), 3);
    assert_eq!(object["handle"], "h\"1");
    assert_eq!(object["redeem_token"], "t");
    assert_eq!(object["issued_at"], "2024-01-01T00:00:00+00:00");
}
