use rustfs_agent_mcp::config::Config;
use rustfs_agent_mcp::tools::access::{MintCredentialsTool, PresignUrlTool};
use rustfs_agent_mcp::tools::buckets::{CreateBucketTool, ListBucketsTool};
use rustfs_agent_mcp::tools::call::{PendingCall, ToolCall};
use rustfs_agent_mcp::tools::delete_bucket::{DeleteBucketTool, DeleteStep};
use rustfs_agent_mcp::tools::objects::{
    DeleteObjectTool, GetObjectTool, HeadObjectTool, ListObjectsTool, PutObjectTool,
};

fn config() -> Config {
    Config {
        bind_host: "127.0.0.1".to_string(),
        bind_port: 8765,
        endpoint: "https://blob.example.com".to_string(),
        region: "us-east-1".to_string(),
        access_key: "ak".to_string(),
        secret_key: "sk".to_string(),
        bucket_prefix: "agent-test-".to_string(),
        retention_days: 7,
        max_body_bytes: 1024,
        allowed_hosts: vec![],
    }
}


/// A call of every tool that works on a bucket, with that bucket's name.
fn calls(bucket: &str) -> Vec<ToolCall> {
    let bucket = bucket.to_string();
    let key = "k".to_string();
    vec![
        ToolCall::CreateBucket(CreateBucketTool {
            name: Some(bucket.clone()),
        }),
        ToolCall::DeleteBucket(DeleteBucketTool {
            bucket: bucket.clone(),
            force: None,
        }),
        ToolCall::DeleteBucket(DeleteBucketTool {
            bucket: bucket.clone(),
            force: Some(true),
        }),
        ToolCall::ListObjects(ListObjectsTool {
            bucket: bucket.clone(),
            prefix: None,
            max_keys: None,
            continuation_token: None,
        }),
        ToolCall::HeadObject(HeadObjectTool {
            bucket: bucket.clone(),
            key: key.clone(),
        }),
        ToolCall::GetObject(GetObjectTool {
            bucket: bucket.clone(),
            key: key.clone(),
            max_bytes: None,
        }),
        ToolCall::PutObject(PutObjectTool {
            bucket: bucket.clone(),
            key: key.clone(),
            content: Some("x".to_string()),
            content_base64: None,
            content_type: None,
        }),
        ToolCall::DeleteObject(DeleteObjectTool {
            bucket: bucket.clone(),
            key: key.clone(),
        }),
        ToolCall::PresignUrl(PresignUrlTool {
            bucket,
            key,
            method: None,
            ttl_seconds: None,
        }),
    ]
}

fn bucket_of(pending: &PendingCall) -> Option<&str> {
    match pending {
        PendingCall::ListBuckets(_) | PendingCall::MintCredentials(_, _) => None,
        PendingCall::CreateBucket(_, bucket) => Some(bucket.as_str()),
        PendingCall::DeleteBucket(DeleteStep::ListPage(step)) => Some(step.bucket().as_str()),
        PendingCall::DeleteBucket(DeleteStep::DeleteObject(step)) => Some(step.bucket().as_str()),
        PendingCall::DeleteBucket(DeleteStep::DeleteBucket(step)) => Some(step.bucket().as_str()),
        PendingCall::ListObjects(_, request) => Some(request.bucket.as_str()),
        PendingCall::HeadObject(_, request)
        | PendingCall::GetObject(_, request)
        | PendingCall::DeleteObject(_, request) => Some(request.bucket.as_str()),
        PendingCall::PutObject(_, request) => Some(request.bucket.as_str()),
        PendingCall::PresignUrl(_, request) => Some(request.bucket.as_str()),
    }
}

#[test]
fn every_call_stays_in_the_namespace() {
    for name in ["production", "agent-test-box", "x"] {
        for call in calls(name) {
            let pending = call.begin(&config()).unwrap();
            assert!(bucket_of(&pending).unwrap().starts_with("agent-test-"));
        }
    }
    let fresh = ToolCall::CreateBucket(CreateBucketTool { name: None });
    let pending = fresh.begin(&config()).unwrap();
    assert!(bucket_of(&pending).unwrap().starts_with("agent-test-"));
}

#[test]
fn every_call_with_a_bad_bucket_is_rejected() {
    for call in calls("No Bucket") {
        let error = call.begin(&config()).unwrap_err();
        assert!(error.message.starts_with("bucket rejected: 'agent-test-No Bucket' is not"));
    }
}

#[test]
fn calls_keep_their_tools() {
    assert!(matches!(
        ToolCall::ListBuckets(ListBucketsTool {}).begin(&config()),
        Ok(PendingCall::ListBuckets(_))
    ));
    let mint = ToolCall::MintCredentials(MintCredentialsTool {
        buckets: Some(vec!["box".to_string()]),
        ttl_minutes: Some(15),
    });
    match mint.begin(&config()) {
        Ok(PendingCall::MintCredentials(tool, request)) => {
            assert_eq!(tool.ttl_minutes, Some(15));
            assert_eq!(request.scope, Some(vec!["agent-test-box".to_string()]));
            assert!(!request.policy.contains("ListAllMyBuckets"));
        }
        other => panic!("{other:?}"),
    }
}
