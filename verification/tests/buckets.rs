use aws_sdk_s3::types::ExpirationStatus;
use rustfs_agent_mcp::config::Config;
use rustfs_agent_mcp::json::Json;
use rustfs_agent_mcp::policy::is_valid_bucket_name;
use rustfs_agent_mcp::tools::buckets::{
    BucketSummary, CreateBucketTool, CreateStep, ListBucketsTool, RetentionOutcome, RetentionStep,
};

fn config() -> Config {
    Config {
        bind_host: "127.0.0.1".to_string(),
        bind_port: 8765,
        endpoint: "https://blob.example.com".to_string(),
        region: "us-east-1".to_string(),
        access_key: "ak".to_string(),
        secret_key: "sk".to_string(),
        bucket_prefix: "agent-test-".to_string(),
        retention_days: 7,
        max_body_bytes: 1024,
        allowed_hosts: vec![],
    }
}

fn summary(name: Option<&str>, date: Option<&str>) -> BucketSummary {
    BucketSummary {
        name: name.map(str::to_string),
        creation_date: date.map(str::to_string),
    }
}

fn text(value: &str) -> Json {
    Json::Text(value.to_string())
}

#[test]
fn listing_shows_only_the_namespace_in_order() {
    let listed = vec![
        summary(Some("agent-test-b"), Some("2024-01-02T03:04:05Z")),
        summary(Some("production"), Some("2024-01-01T00:00:00Z")),
        summary(None, None),
        summary(Some("agent-test-a"), None),
        summary(Some("agent-test"), None),
    ];
    let report = ListBucketsTool {}.report(&config(), &listed);
    assert_eq!(
        report,
        Json::Object(vec![
            ("prefix".to_string(), text("agent-test-")),
            (
                "buckets".to_string(),
                Json::Array(vec![
                    Json::Object(vec![
                        ("name".to_string(), text("agent-test-b")),
                        ("creation_date".to_string(), text("2024-01-02T03:04:05Z")),
                    ]),
                    Json::Object(vec![
                        ("name".to_string(), text("agent-test-a")),
                        ("creation_date".to_string(), Json::Null),
                    ]),
                ])
            ),
        ])
    );
}

#[test]
fn nameless_buckets_show_where_the_prefix_is_empty() {
    let mut config = config();
    config.bucket_prefix = String::new();
    let report = ListBucketsTool {}.report(&config, &vec![summary(None, None)]);
    assert_eq!(
        report.to_string(),
        "{\"buckets\":[{\"creation_date\":null,\"name\":\"\"}],\"prefix\":\"\"}"
    );
}

#[test]
fn listing_answers_with_text_or_error() {
    let answer = ListBucketsTool {}.respond(&config(), Ok(vec![])).unwrap();
    assert_eq!(
        answer,
        "{\n  \"buckets\": [],\n  \"prefix\": \"agent-test-\"\n}"
    );
    let failed = ListBucketsTool {}
        .respond(&config(), Err("timed out".to_string()))
        .unwrap_err();
    assert_eq!(failed.message, "list_buckets failed: timed out");
}

#[test]
fn named_bucket_is_composed() {
    let tool = CreateBucketTool {
        name: Some("scratch".to_string()),
    };
    assert_eq!(
        tool.request(&config()).unwrap().as_str(),
        "agent-test-scratch"
    );
    let tool = CreateBucketTool {
        name: Some("Scratch".to_string()),
    };
    assert_eq!(
        tool.request(&config()).unwrap_err().message,
        "bucket rejected: 'agent-test-Scratch' is not a valid S3 bucket name (3-63 chars, lowercase alphanumeric, hyphen or dot separators, no '..' segments)"
    );
}

#[test]
fn unnamed_bucket_gets_a_fresh_name() {
    let tool = CreateBucketTool { name: None };
    let first = tool.request(&config()).unwrap();
    let second = tool.request(&config()).unwrap();
    assert_ne!(first.as_str(), second.as_str());
    assert_eq!(first.as_str().len(), "agent-test-".len() + 32);
    assert!(first.as_str().starts_with("agent-test-"));
    assert!(is_valid_bucket_name(first.as_str()));
}

#[test]
fn fresh_names_can_be_invalid_where_the_prefix_is_long_or_starts_with_a_hyphen() {
    let tool = CreateBucketTool { name: None };
    let mut config = config();
    config.bucket_prefix = "a".repeat(31);
    assert!(is_valid_bucket_name(tool.request(&config).unwrap().as_str()));
    config.bucket_prefix = "a".repeat(32);
    assert!(!is_valid_bucket_name(tool.request(&config).unwrap().as_str()));
    config.bucket_prefix = "-a".to_string();
    assert!(!is_valid_bucket_name(tool.request(&config).unwrap().as_str()));
}

fn waiting(config: &Config) -> RetentionStep {
    let tool = CreateBucketTool {
        name: Some("scratch".to_string()),
    };
    let bucket = tool.request(config).unwrap();
    match tool.created(config, bucket, Ok(())).unwrap() {
        CreateStep::ApplyRetention(step) => step,
        CreateStep::Answer(text) => panic!("answered {text}"),
    }
}

#[test]
fn created_bucket_waits_for_its_rule() {
    let step = waiting(&config());
    assert_eq!(step.bucket.as_str(), "agent-test-scratch");
    assert_eq!(step.rule.id, "agent-test-retention");
    assert!(step.rule.enabled);
    assert_eq!(step.rule.key_prefix, "");
    assert_eq!(step.rule.days, 7);
}

#[test]
fn rule_is_put_into_the_form_of_the_service() {
    let configuration = waiting(&config()).configuration().unwrap();
    assert_eq!(configuration.rules().len(), 1);
    let rule = &configuration.rules()[0];
    assert_eq!(rule.id(), Some("agent-test-retention"));
    assert_eq!(rule.status(), &ExpirationStatus::Enabled);
    assert_eq!(rule.filter().unwrap().prefix(), Some(""));
    assert_eq!(rule.expiration().unwrap().days(), Some(7));
}

#[test]
fn rule_out_of_force_is_disabled() {
    let mut step = waiting(&config());
    step.rule.enabled = false;
    step.rule.days = 30;
    let configuration = step.configuration().unwrap();
    assert_eq!(configuration.rules()[0].status(), &ExpirationStatus::Disabled);
    assert_eq!(configuration.rules()[0].expiration().unwrap().days(), Some(30));
}

#[test]
fn retention_is_noted() {
    let step = waiting(&config());
    assert_eq!(
        step.note(&RetentionOutcome::Applied),
        "7 day lifecycle rule applied"
    );
    assert_eq!(
        step.note(&RetentionOutcome::Refused("no lifecycle".to_string())),
        "lifecycle rule unavailable (no lifecycle); bucket works, objects will not auto-expire"
    );
    assert_eq!(
        step.note(&RetentionOutcome::NotBuilt),
        "lifecycle rule unavailable; bucket works, objects will not auto-expire"
    );
    assert_eq!(
        step.respond(RetentionOutcome::Applied).unwrap(),
        "{\n  \"bucket\": \"agent-test-scratch\",\n  \"retention\": \"7 day lifecycle rule applied\"\n}"
    );
}

#[test]
fn retention_can_be_disabled() {
    let mut config = config();
    config.retention_days = 0;
    let tool = CreateBucketTool {
        name: Some("scratch".to_string()),
    };
    let bucket = tool.request(&config).unwrap();
    match tool.created(&config, bucket, Ok(())).unwrap() {
        CreateStep::Answer(text) => assert_eq!(
            text,
            "{\n  \"bucket\": \"agent-test-scratch\",\n  \"retention\": \"disabled by configuration\"\n}"
        ),
        CreateStep::ApplyRetention(_) => panic!("a rule was asked for"),
    }
}

#[test]
fn failed_creation_is_reported() {
    let tool = CreateBucketTool {
        name: Some("scratch".to_string()),
    };
    let bucket = tool.request(&config()).unwrap();
    let failed = tool
        .created(&config(), bucket, Err("denied".to_string()))
        .unwrap_err();
    assert_eq!(failed.message, "create_bucket failed: denied");
}
