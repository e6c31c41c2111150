use std::time::Duration;

use rustfs_agent_mcp::config::Config;
use rustfs_agent_mcp::tools::access::{
    presign_method, MintCredentialsTool, MintedCredentials, PresignMethod, PresignUrlTool,
};

fn config() -> Config {
    Config {
        bind_host: "127.0.0.1".to_string(),
        bind_port: 8765,
        endpoint: "https://blob.example.com".to_string(),
        region: "us-east-1".to_string(),
        access_key: "ak".to_string(),
        secret_key: "sk".to_string(),
        bucket_prefix: "agent-test-".to_string(),
        retention_days: 7,
        max_body_bytes: 1024,
        allowed_hosts: vec![],
    }
}

fn presign(method: Option<&str>, ttl_seconds: Option<i64>) -> PresignUrlTool {
    PresignUrlTool {
        bucket: "box".to_string(),
        key: "a".to_string(),
        method: method.map(str::to_string),
        ttl_seconds,
    }
}

#[test]
fn presigning_clamps_the_lifetime() {
    for (wanted, expected) in [
        (None, 3600),
        (Some(59), 60),
        (Some(i64::MIN), 60),
        (Some(61), 61),
        (Some(604_800), 604_800),
        (Some(604_801), 604_800),
    ] {
        let request = presign(None, wanted).request(&config()).unwrap();
        assert_eq!(request.ttl_seconds, expected);
        assert_eq!(request.window.expires(), Duration::from_secs(expected as u64));
    }
}

#[test]
fn presigning_takes_get_and_put() {
    let request = presign(None, None).request(&config()).unwrap();
    assert_eq!(request.method, PresignMethod::Get);
    assert_eq!(request.bucket.as_str(), "agent-test-box");
    assert_eq!(request.key, "a");
    let request = presign(Some("put"), None).request(&config()).unwrap();
    assert_eq!(request.method, PresignMethod::Put);
    assert_eq!(presign_method("get").unwrap(), PresignMethod::Get);
}

#[test]
fn presigning_quotes_other_methods() {
    assert_eq!(
        presign(Some("GET"), None).request(&config()).unwrap_err().message,
        "method must be \"get\" or \"put\", not \"GET\""
    );
    assert_eq!(
        presign_method("a\"b\n").unwrap_err().message,
        "method must be \"get\" or \"put\", not \"a\\\"b\\n\""
    );
}

#[test]
fn presigning_checks_the_bucket_first() {
    let tool = PresignUrlTool {
        bucket: "UPPER".to_string(),
        key: "a".to_string(),
        method: Some("delete".to_string()),
        ttl_seconds: None,
    };
    assert!(tool.request(&config()).unwrap_err().message.starts_with("bucket rejected: "));
}

#[test]
fn presigned_url_is_shown() {
    let tool = presign(Some("put"), Some(120));
    let request = tool.request(&config()).unwrap();
    assert_eq!(
        tool.respond(&request, Ok("https://blob/u".to_string())).unwrap(),
        "{\n  \"bucket\": \"agent-test-box\",\n  \"key\": \"a\",\n  \"method\": \"put\",\n  \"ttl_seconds\": 120,\n  \"url\": \"https://blob/u\"\n}"
    );
    assert_eq!(
        tool.respond(&request, Err("no key".to_string())).unwrap_err().message,
        "presign put failed: no key"
    );
    let tool = presign(None, None);
    let request = tool.request(&config()).unwrap();
    assert_eq!(
        tool.respond(&request, Err("no key".to_string())).unwrap_err().message,
        "presign get failed: no key"
    );
}

fn mint(buckets: Option<&[&str]>, ttl_minutes: Option<i32>) -> MintCredentialsTool {
    MintCredentialsTool {
        buckets: buckets.map(|names| names.iter().map(|name| name.to_string()).collect()),
        ttl_minutes,
    }
}

#[test]
fn minting_keeps_the_lifetime_in_range() {
    for (wanted, expected) in [(None, 3600), (Some(15), 900), (Some(720), 43_200)] {
        let request = mint(None, wanted).request(&config()).unwrap();
        assert_eq!(request.duration_seconds, expected);
    }
    for wanted in [14, 721, 0, -60, i32::MAX] {
        assert_eq!(
            mint(None, Some(wanted)).request(&config()).unwrap_err().message,
            "ttl_minutes must be between 15 and 720"
        );
    }
}

#[test]
fn minting_for_the_namespace_allows_listing() {
    for buckets in [None, Some(&[][..])] {
        let request = mint(buckets, None).request(&config()).unwrap();
        assert_eq!(request.scope, None);
        assert_eq!(request.role_arn, "arn:aws:iam:::role/agent-mcp");
        assert_eq!(
            request.policy,
            "{\"Statement\":[{\"Action\":[\"s3:ListAllMyBuckets\"],\"Effect\":\"Allow\",\"Resource\":[\"arn:aws:s3:::*\"]},{\"Action\":[\"s3:*\"],\"Effect\":\"Allow\",\"Resource\":[\"arn:aws:s3:::agent-test-*\",\"arn:aws:s3:::agent-test-*/*\"]}],\"Version\":\"2012-10-17\"}"
        );
    }
}

#[test]
fn minting_for_buckets_is_tight() {
    let request = mint(Some(&["one", "agent-test-two"]), None).request(&config()).unwrap();
    assert_eq!(
        request.scope,
        Some(vec!["agent-test-one".to_string(), "agent-test-two".to_string()])
    );
    assert_eq!(
        request.policy,
        "{\"Statement\":[{\"Action\":[\"s3:*\"],\"Effect\":\"Allow\",\"Resource\":[\"arn:aws:s3:::agent-test-one\",\"arn:aws:s3:::agent-test-one/*\",\"arn:aws:s3:::agent-test-two\",\"arn:aws:s3:::agent-test-two/*\"]}],\"Version\":\"2012-10-17\"}"
    );
}

#[test]
fn minting_names_the_first_bad_bucket() {
    let message = mint(Some(&["fine", "Bad", "a..b"]), None)
        .request(&config())
        .unwrap_err()
        .message;
    assert!(message.starts_with("bucket rejected: 'agent-test-Bad' is not"));
    // The lifetime is looked at first.
    assert_eq!(
        mint(Some(&["Bad"]), Some(1)).request(&config()).unwrap_err().message,
        "ttl_minutes must be between 15 and 720"
    );
}

#[test]
fn minting_names_each_session_anew() {
    let first = mint(None, None).request(&config()).unwrap().session_name;
    let second = mint(None, None).request(&config()).unwrap().session_name;
    assert_ne!(first, second);
    let random = first.strip_prefix("agent-mcp-").unwrap();
    assert_eq!(random.len(), 32);
    assert!(random.chars().all(|c| c.is_ascii_digit() || ('a'..='f').contains(&c)));
}

fn minted() -> MintedCredentials {
    MintedCredentials {
        access_key_id: "id".to_string(),
        secret_access_key: "secret".to_string(),
        session_token: "token".to_string(),
        expires_at: "2024-01-02T03:04:05Z".to_string(),
    }
}

#[test]
fn minted_credentials_are_shown() {
    let tool = mint(Some(&["one"]), None);
    let request = tool.request(&config()).unwrap();
    assert_eq!(
        tool.respond(&config(), &request, Ok(Some(minted()))).unwrap(),
        "{\n  \"access_key_id\": \"id\",\n  \"endpoint\": \"https://blob.example.com\",\n  \"expires_at\": \"2024-01-02T03:04:05Z\",\n  \"note\": \"credentials expire on their own; use AWS_SESSION_TOKEN alongside the key pair\",\n  \"region\": \"us-east-1\",\n  \"scope\": {\n    \"buckets\": [\n      \"agent-test-one\"\n    ]\n  },\n  \"secret_access_key\": \"secret\",\n  \"session_token\": \"token\"\n}"
    );
    let report = mint(None, None).report(&config(), &None, &minted()).to_string();
    assert!(report.contains("\"scope\":{\"prefix\":\"agent-test-*\"}"));
}

#[test]
fn failed_minting_is_reported() {
    let tool = mint(None, None);
    let request = tool.request(&config()).unwrap();
    assert_eq!(
        tool.respond(&config(), &request, Ok(None)).unwrap_err().message,
        "STS returned no credentials"
    );
    assert_eq!(
        tool.respond(&config(), &request, Err("denied".to_string())).unwrap_err().message,
        "mint_credentials (assume_role) failed: denied"
    );
}
