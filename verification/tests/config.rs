use rustfs_agent_mcp::config::{Config, ConfigError};
use std::collections::HashMap;

fn cfg_from(pairs: &[(&'static str, &str)]) -> Result<Config, ConfigError> {
    let map: HashMap<String, String> = pairs
        .iter()
        .map(|(k, v)| (k.to_string(), v.to_string()))
        .collect();
    Config::from_lookup(move |key: &str| map.get(key).cloned())
}

fn base_pairs() -> Vec<(&'static str, &'static str)> {
    vec![
        ("RUSTFS_AGENT_MCP_ENDPOINT", "https://blob.example.com"),
        ("RUSTFS_AGENT_MCP_ACCESS_KEY", "ak"),
        ("RUSTFS_AGENT_MCP_SECRET_KEY", "sk"),
    ]
}

#[test]
fn defaults_are_sane() {
    let cfg = cfg_from(&base_pairs()).expect("config");
    assert_eq!(cfg.bind_host, "127.0.0.1");
    assert_eq!(cfg.bind_port, 8765);
    assert_eq!(cfg.region, "us-east-1");
    assert_eq!(cfg.bucket_prefix, "agent-test-");
    assert_eq!(cfg.retention_days, 7);
    assert_eq!(cfg.max_body_bytes, 4 * 1024 * 1024);
}

#[test]
fn requires_endpoint_and_credentials() {
    assert!(matches!(
        cfg_from(&[]),
        Err(ConfigError::Missing("RUSTFS_AGENT_MCP_ENDPOINT"))
    ));
    let mut pairs = base_pairs();
    pairs.retain(|(k, _)| *k != "RUSTFS_AGENT_MCP_ACCESS_KEY");
    assert!(matches!(
        cfg_from(&pairs),
        Err(ConfigError::Missing("RUSTFS_AGENT_MCP_ACCESS_KEY"))
    ));
}

#[test]
fn rejects_bad_prefix_and_endpoint() {
    let mut pairs = base_pairs();
    pairs.push(("RUSTFS_AGENT_MCP_ENDPOINT", "blob.example.com"));
    assert!(matches!(cfg_from(&pairs), Err(ConfigError::Invalid { .. })));
    let mut pairs = base_pairs();
    pairs.push(("RUSTFS_AGENT_MCP_BUCKET_PREFIX", "Agent_Test"));
    assert!(matches!(cfg_from(&pairs), Err(ConfigError::Invalid { .. })));
}

#[test]
fn rejects_out_of_range_numbers() {
    let mut pairs = base_pairs();
    pairs.push(("RUSTFS_AGENT_MCP_RETENTION_DAYS", "9999"));
    assert!(matches!(cfg_from(&pairs), Err(ConfigError::Invalid { .. })));
    let mut pairs = base_pairs();
    pairs.push(("RUSTFS_AGENT_MCP_BIND_PORT", "not-a-port"));
    assert!(matches!(cfg_from(&pairs), Err(ConfigError::Invalid { .. })));
}

#[test]
fn allowed_hosts_include_bind_address_unless_wildcard() {
    let mut pairs = base_pairs();
    pairs.push(("RUSTFS_AGENT_MCP_ALLOWED_HOSTS", "dev1.example.ts.net:8765"));
    let cfg = cfg_from(&pairs).expect("config");
    let hosts = cfg.effective_allowed_hosts();
    assert!(hosts.contains(&"dev1.example.ts.net:8765".to_string()));
    assert!(hosts.contains(&"127.0.0.1:8765".to_string()));

    let mut pairs = base_pairs();
    pairs.push(("RUSTFS_AGENT_MCP_BIND_HOST", "0.0.0.0"));
    let cfg = cfg_from(&pairs).expect("config");
    assert!(
        !cfg.effective_allowed_hosts()
            .iter()
            .any(|h| h.starts_with("0.0.0.0"))
    );
}

fn message_for(variable: &'static str, value: &str) -> String {
    let mut pairs = base_pairs();
    pairs.push((variable, value));
    cfg_from(&pairs).unwrap_err().to_string()
}

#[test]
fn blank_requirements_are_missing() {
    let mut pairs = base_pairs();
    pairs.push(("RUSTFS_AGENT_MCP_SECRET_KEY", " \t\u{3000}\n"));
    let error = cfg_from(&pairs).unwrap_err();
    assert!(matches!(error, ConfigError::Missing("RUSTFS_AGENT_MCP_SECRET_KEY")));
    assert_eq!(
        error.to_string(),
        "missing required environment variable RUSTFS_AGENT_MCP_SECRET_KEY"
    );
    let mut pairs = base_pairs();
    pairs.push(("RUSTFS_AGENT_MCP_SECRET_KEY", " s k "));
    assert_eq!(cfg_from(&pairs).unwrap().secret_key, " s k ");
}

#[test]
fn invalid_values_are_explained() {
    assert_eq!(
        message_for("RUSTFS_AGENT_MCP_ENDPOINT", "ftp://blob"),
        "invalid value for RUSTFS_AGENT_MCP_ENDPOINT: must be an http:// or https:// URL"
    );
    for prefix in ["", "a", "a.b", "a_b", "Ab"] {
        assert_eq!(
            message_for("RUSTFS_AGENT_MCP_BUCKET_PREFIX", prefix),
            "invalid value for RUSTFS_AGENT_MCP_BUCKET_PREFIX: must be lowercase alphanumerics/hyphens, at least 2 chars"
        );
    }
    assert_eq!(
        message_for("RUSTFS_AGENT_MCP_BIND_PORT", "0"),
        "invalid value for RUSTFS_AGENT_MCP_BIND_PORT: expected a number between 1 and 65535"
    );
    assert_eq!(
        message_for("RUSTFS_AGENT_MCP_BIND_PORT", "65536"),
        "invalid value for RUSTFS_AGENT_MCP_BIND_PORT: expected a number between 1 and 65535: number too large to fit in target type"
    );
    assert_eq!(
        message_for("RUSTFS_AGENT_MCP_BIND_PORT", "-1"),
        "invalid value for RUSTFS_AGENT_MCP_BIND_PORT: expected a number between 1 and 65535: invalid digit found in string"
    );
    assert_eq!(
        message_for("RUSTFS_AGENT_MCP_RETENTION_DAYS", "-1"),
        "invalid value for RUSTFS_AGENT_MCP_RETENTION_DAYS: expected a number between 0 and 3650"
    );
    assert_eq!(
        message_for("RUSTFS_AGENT_MCP_RETENTION_DAYS", "99999999999"),
        "invalid value for RUSTFS_AGENT_MCP_RETENTION_DAYS: expected a number between 0 and 3650: number too large to fit in target type"
    );
    assert_eq!(
        message_for("RUSTFS_AGENT_MCP_MAX_BODY_BYTES", "1023"),
        "invalid value for RUSTFS_AGENT_MCP_MAX_BODY_BYTES: expected a number between 1024 and 67108864"
    );
    assert_eq!(
        message_for("RUSTFS_AGENT_MCP_MAX_BODY_BYTES", " "),
        "invalid value for RUSTFS_AGENT_MCP_MAX_BODY_BYTES: expected a number between 1024 and 67108864: cannot parse integer from empty string"
    );
}

#[test]
fn accepted_values_are_kept() {
    let mut pairs = base_pairs();
    pairs.push(("RUSTFS_AGENT_MCP_ENDPOINT", "http://127.0.0.1:9000"));
    pairs.push(("RUSTFS_AGENT_MCP_BIND_HOST", "100.64.0.1"));
    pairs.push(("RUSTFS_AGENT_MCP_BIND_PORT", " +80\t"));
    pairs.push(("RUSTFS_AGENT_MCP_REGION", "eu-west-1"));
    pairs.push(("RUSTFS_AGENT_MCP_BUCKET_PREFIX", "ci"));
    pairs.push(("RUSTFS_AGENT_MCP_RETENTION_DAYS", "0"));
    pairs.push(("RUSTFS_AGENT_MCP_MAX_BODY_BYTES", "67108864"));
    let config = cfg_from(&pairs).unwrap();
    assert_eq!(config.endpoint, "http://127.0.0.1:9000");
    assert_eq!(config.bind_host, "100.64.0.1");
    assert_eq!(config.bind_port, 80);
    assert_eq!(config.region, "eu-west-1");
    assert_eq!(config.access_key, "ak");
    assert_eq!(config.secret_key, "sk");
    assert_eq!(config.bucket_prefix, "ci");
    assert_eq!(config.retention_days, 0);
    assert_eq!(config.max_body_bytes, 67_108_864);
    assert!(config.allowed_hosts.is_empty());
}

#[test]
fn the_first_fault_is_reported() {
    let pairs = vec![
        ("RUSTFS_AGENT_MCP_ENDPOINT", "https://blob.example.com"),
        ("RUSTFS_AGENT_MCP_BIND_PORT", "x"),
    ];
    assert!(matches!(
        cfg_from(&pairs),
        Err(ConfigError::Missing("RUSTFS_AGENT_MCP_ACCESS_KEY"))
    ));
}

#[test]
fn host_list_is_split_and_trimmed() {
    let mut pairs = base_pairs();
    pairs.push(("RUSTFS_AGENT_MCP_ALLOWED_HOSTS", " a:1 ,, b:2,\u{a0},127.0.0.1:8765"));
    let config = cfg_from(&pairs).unwrap();
    assert_eq!(config.allowed_hosts, vec!["a:1", "b:2", "127.0.0.1:8765"]);
    // The bind address is listed already, and is not listed twice.
    assert_eq!(config.effective_allowed_hosts(), config.allowed_hosts);
}

#[test]
fn only_the_ten_variables_are_looked_up() {
    let asked = std::cell::RefCell::new(Vec::new());
    let config = Config::from_lookup(|key: &str| {
        asked.borrow_mut().push(key.to_string());
        base_pairs()
            .iter()
            .find(|(name, _)| *name == key)
            .map(|(_, value)| value.to_string())
    });
    assert!(config.is_ok());
    assert_eq!(
        asked.into_inner(),
        vec![
            "RUSTFS_AGENT_MCP_ENDPOINT",
            "RUSTFS_AGENT_MCP_ACCESS_KEY",
            "RUSTFS_AGENT_MCP_SECRET_KEY",
            "RUSTFS_AGENT_MCP_BIND_HOST",
            "RUSTFS_AGENT_MCP_BIND_PORT",
            "RUSTFS_AGENT_MCP_REGION",
            "RUSTFS_AGENT_MCP_BUCKET_PREFIX",
            "RUSTFS_AGENT_MCP_RETENTION_DAYS",
            "RUSTFS_AGENT_MCP_MAX_BODY_BYTES",
            "RUSTFS_AGENT_MCP_ALLOWED_HOSTS",
        ]
    );
}

#[test]
fn other_variables_do_not_matter() {
    let mut pairs = base_pairs();
    pairs.push(("RUSTFS_AGENT_MCP_OTHER", "x"));
    pairs.push(("PATH", "/bin"));
    let one = cfg_from(&pairs).unwrap();
    let other = cfg_from(&base_pairs()).unwrap();
    assert_eq!(format!("{one:?}"), format!("{other:?}"));
}
