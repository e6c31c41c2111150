use rustfs_agent_mcp::policy::{
    is_valid_bucket_name, minter_policy, session_policy, TestBucketName,
};

const PREFIX: &str = "agent-test-";

#[test]
fn compose_prepends_prefix_or_accepts_prefixed() {
    assert_eq!(
        TestBucketName::compose("foo", PREFIX).unwrap().as_str(),
        "agent-test-foo"
    );
    assert_eq!(
        TestBucketName::compose("agent-test-foo", PREFIX)
            .unwrap()
            .as_str(),
        "agent-test-foo"
    );
}

#[test]
fn compose_rejects_names_that_leave_the_namespace_or_are_invalid() {
    assert!(TestBucketName::compose("UPPER", PREFIX).is_err());
    assert!(TestBucketName::compose(&"x".repeat(80), PREFIX).is_err());
    assert!(TestBucketName::compose("a..b", PREFIX).is_err());
    // Short bare suffixes are rescued by the prefix.
    assert!(TestBucketName::compose("ab", PREFIX).is_ok());
}

#[test]
fn generated_names_are_valid_and_prefixed() {
    for _ in 0..32 {
        let name = TestBucketName::generate(PREFIX);
        assert!(is_valid_bucket_name(name.as_str()));
        assert!(name.as_str().starts_with(PREFIX));
    }
}

#[test]
fn session_policy_for_specific_buckets_is_tight() {
    let policy = session_policy(
        Some(&[
            "agent-test-alpha".to_string(),
            "agent-test-beta".to_string(),
        ]),
        PREFIX,
    );
    let text = policy.to_string();
    assert!(!text.contains("ListAllMyBuckets"));
    assert!(text.contains("arn:aws:s3:::agent-test-alpha"));
    assert!(text.contains("arn:aws:s3:::agent-test-beta/*"));
}

#[test]
fn session_policy_for_namespace_allows_listing() {
    let policy = session_policy(None, PREFIX);
    let text = policy.to_string();
    assert!(text.contains("ListAllMyBuckets"));
    assert!(text.contains("arn:aws:s3:::agent-test-*"));
    assert!(text.contains("arn:aws:s3:::agent-test-*/*"));
}

#[test]
fn minter_policy_never_grants_out_of_namespace_object_access() {
    let policy = minter_policy(PREFIX);
    let text = policy.to_string();
    assert!(!text.contains("Resource\":[\"*\"]"));
    assert!(text.contains("arn:aws:s3:::agent-test-*"));
}

#[test]
fn bucket_names_keep_the_naming_rules() {
    for name in ["abc", "a-b", "a.b", "0-9", &"a".repeat(63)] {
        assert!(is_valid_bucket_name(name), "{name}");
    }
    for name in [
        "ab", &"a".repeat(64), "-ab", "ab-", ".ab", "ab.", "a..b", "a.-b", "a-.b", "a_b", "aBc",
        "a b", "gr\u{fc}n", "",
    ] {
        assert!(!is_valid_bucket_name(name), "{name}");
    }
}

#[test]
fn rejected_names_are_explained() {
    assert_eq!(
        TestBucketName::compose("x.", PREFIX).unwrap_err(),
        "'agent-test-x.' is not a valid S3 bucket name (3-63 chars, lowercase alphanumeric, hyphen or dot separators, no '..' segments)"
    );
}

#[test]
fn bucket_name_reads_as_itself() {
    assert_eq!(TestBucketName::compose("foo", PREFIX).unwrap().to_string(), "agent-test-foo");
}

#[test]
fn policies_are_written_out() {
    assert_eq!(
        session_policy(Some(&[]), PREFIX).to_string(),
        "{\"Statement\":[{\"Action\":[\"s3:*\"],\"Effect\":\"Allow\",\"Resource\":[]}],\"Version\":\"2012-10-17\"}"
    );
    // A session for the whole namespace may do what the minter identity may do.
    assert_eq!(session_policy(None, PREFIX), minter_policy(PREFIX));
}

#[test]
fn names_are_equal_where_their_texts_are() {
    let bare = TestBucketName::compose("foo", PREFIX).unwrap();
    let full = TestBucketName::compose("agent-test-foo", PREFIX).unwrap();
    let other = TestBucketName::compose("bar", PREFIX).unwrap();
    assert!(bare == full);
    assert!(bare != other);
    assert_eq!(bare.clone(), bare);
}

#[test]
fn generated_names_are_valid_where_plain_letters_would_be() {
    for prefix in ["", "a", "a.b-", "a.", "-a", "a..", "A", &"a".repeat(31), &"a".repeat(32)] {
        let name = TestBucketName::generate(prefix);
        let plain = format!("{prefix}aaa");
        assert_eq!(
            is_valid_bucket_name(name.as_str()),
            prefix.len() <= 31 && is_valid_bucket_name(&plain),
            "{prefix}"
        );
    }
}
