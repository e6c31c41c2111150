use rustfs_agent_mcp::clients::{s3_settings, sts_settings, Checksums};
use rustfs_agent_mcp::config::Config;
use rustfs_agent_mcp::server::{printed_minter_policy, prints_minter_policy, ServerPlan};
use rustfs_agent_mcp::tools::{compose, op_err};

fn config() -> Config {
    Config {
        bind_host: "127.0.0.1".to_string(),
        bind_port: 8765,
        endpoint: "https://blob.example.com".to_string(),
        region: "us-east-1".to_string(),
        access_key: "ak".to_string(),
        secret_key: "sk".to_string(),
        bucket_prefix: "agent-test-".to_string(),
        retention_days: 7,
        max_body_bytes: 1024,
        allowed_hosts: vec![],
    }
}

#[test]
fn plan_holds_what_the_server_needs() {
    let plan = ServerPlan::of(&config()).unwrap();
    assert_eq!(
        plan.instructions,
        "All operations are restricted to buckets named 'agent-test-*'. Use mint_credentials to obtain scoped, auto-expiring keys for test code instead of handling long-lived secrets."
    );
    assert_eq!(plan.allowed_hosts, vec!["127.0.0.1:8765".to_string()]);
    assert_eq!(plan.max_request_body_size, 2048);
}

#[test]
fn plan_needs_a_host() {
    for wildcard in ["0.0.0.0", "::"] {
        let mut config = config();
        config.bind_host = wildcard.to_string();
        assert_eq!(
            ServerPlan::of(&config).unwrap_err(),
            "DNS-rebinding protection requires at least one allowed host; set RUSTFS_AGENT_MCP_ALLOWED_HOSTS when binding to a wildcard address"
        );
        config.allowed_hosts = vec!["dev1:8765".to_string()];
        assert_eq!(
            ServerPlan::of(&config).unwrap().allowed_hosts,
            vec!["dev1:8765".to_string()]
        );
    }
}

#[test]
fn minter_policy_is_printed_on_request() {
    assert!(prints_minter_policy(Some("print-minter-policy")));
    assert!(!prints_minter_policy(Some("serve")));
    assert!(!prints_minter_policy(None));
    assert_eq!(
        printed_minter_policy(Some("ci-".to_string())),
        "{\"Statement\":[{\"Action\":[\"s3:ListAllMyBuckets\"],\"Effect\":\"Allow\",\"Resource\":[\"arn:aws:s3:::*\"]},{\"Action\":[\"s3:*\"],\"Effect\":\"Allow\",\"Resource\":[\"arn:aws:s3:::ci-*\",\"arn:aws:s3:::ci-*/*\"]}],\"Version\":\"2012-10-17\"}"
    );
    assert_eq!(
        printed_minter_policy(None),
        printed_minter_policy(Some("agent-test-".to_string()))
    );
}

#[test]
fn bare_and_full_names_choose_one_bucket() {
    let bare = compose("box", "agent-test-").unwrap();
    let full = compose("agent-test-box", "agent-test-").unwrap();
    assert_eq!(bare, full);
    assert_eq!(compose(bare.as_str(), "agent-test-").unwrap(), bare);
    assert!(bare.as_str().starts_with("agent-test-"));
}

#[test]
fn failures_name_the_operation() {
    assert_eq!(op_err("copy", "no room").message, "copy failed: no room");
}

#[test]
fn clients_follow_the_configuration() {
    let s3 = s3_settings(&config());
    assert_eq!(s3.endpoint, "https://blob.example.com");
    assert_eq!(s3.region, "us-east-1");
    assert_eq!((s3.access_key.as_str(), s3.secret_key.as_str()), ("ak", "sk"));
    assert_eq!(s3.session_token, None);
    assert_eq!(s3.expires_at, None);
    assert_eq!(s3.credentials_source, "rustfs-agent-mcp-minter");
    assert!(s3.path_style);
    assert_eq!(s3.checksums, Checksums::WhenRequired);
    let sts = sts_settings(&config());
    assert_eq!(sts.endpoint, s3.endpoint);
    assert!(!sts.path_style);
    assert_eq!(sts.checksums, Checksums::Default);
}
