use rustfs_agent_mcp::config::Config;
use rustfs_agent_mcp::json::Json;
use rustfs_agent_mcp::tools::objects::{
    Content, DeleteObjectTool, Download, FetchError, GetObjectTool, HeadObjectTool,
    ListObjectsTool, ObjectBody, ObjectHead, ObjectPage, ObjectSummary, PutObjectTool,
};

fn config() -> Config {
    Config {
        bind_host: "127.0.0.1".to_string(),
        bind_port: 8765,
        endpoint: "https://blob.example.com".to_string(),
        region: "us-east-1".to_string(),
        access_key: "ak".to_string(),
        secret_key: "sk".to_string(),
        bucket_prefix: "agent-test-".to_string(),
        retention_days: 7,
        max_body_bytes: 1024,
        allowed_hosts: vec![],
    }
}

fn some(value: &str) -> Option<String> {
    Some(value.to_string())
}

fn list(max_keys: Option<i32>) -> ListObjectsTool {
    ListObjectsTool {
        bucket: "box".to_string(),
        prefix: some("logs/"),
        max_keys,
        continuation_token: some("t"),
    }
}

#[test]
fn listing_request_clamps_the_page_size() {
    for (wanted, expected) in [
        (None, 100),
        (Some(0), 1),
        (Some(-7), 1),
        (Some(1), 1),
        (Some(250), 250),
        (Some(1000), 1000),
        (Some(1001), 1000),
    ] {
        let request = list(wanted).request(&config()).unwrap();
        assert_eq!(request.max_keys, expected);
        assert_eq!(request.bucket.as_str(), "agent-test-box");
        assert_eq!(request.prefix, some("logs/"));
        assert_eq!(request.continuation_token, some("t"));
    }
}

#[test]
fn listing_shows_objects() {
    let tool = list(None);
    let bucket = tool.request(&config()).unwrap().bucket;
    let page = ObjectPage {
        objects: vec![
            ObjectSummary {
                key: some("logs/a"),
                size: Some(12),
                etag: some("e1"),
                last_modified: some("2024-01-02T03:04:05Z"),
            },
            ObjectSummary {
                key: None,
                size: None,
                etag: None,
                last_modified: None,
            },
        ],
        is_truncated: Some(true),
        next_continuation_token: some("t2"),
    };
    assert_eq!(
        tool.report(&bucket, &page).to_string(),
        "{\"bucket\":\"agent-test-box\",\"is_truncated\":true,\"next_continuation_token\":\"t2\",\"objects\":[{\"etag\":\"e1\",\"key\":\"logs/a\",\"last_modified\":\"2024-01-02T03:04:05Z\",\"size\":12},{\"etag\":null,\"key\":null,\"last_modified\":null,\"size\":null}]}"
    );
    let empty = ObjectPage {
        objects: vec![],
        is_truncated: None,
        next_continuation_token: None,
    };
    assert_eq!(
        tool.respond(&bucket, Ok(empty)).unwrap(),
        "{\n  \"bucket\": \"agent-test-box\",\n  \"is_truncated\": false,\n  \"next_continuation_token\": null,\n  \"objects\": []\n}"
    );
    assert_eq!(
        tool.respond(&bucket, Err("no".to_string())).unwrap_err().message,
        "list_objects failed: no"
    );
}

fn head(content_length: Option<i64>) -> ObjectHead {
    ObjectHead {
        content_length,
        etag: some("e"),
        content_type: some("text/plain"),
        last_modified: None,
    }
}

#[test]
fn head_shows_metadata() {
    let tool = HeadObjectTool {
        bucket: "box".to_string(),
        key: "a".to_string(),
    };
    let request = tool.request(&config()).unwrap();
    assert_eq!(request.bucket.as_str(), "agent-test-box");
    assert_eq!(request.key, "a");
    assert_eq!(
        tool.respond(&request.bucket, Ok(head(Some(3)))).unwrap(),
        "{\n  \"bucket\": \"agent-test-box\",\n  \"content_type\": \"text/plain\",\n  \"etag\": \"e\",\n  \"key\": \"a\",\n  \"last_modified\": null,\n  \"size\": 3\n}"
    );
    assert_eq!(
        tool.respond(&request.bucket, Err("404".to_string())).unwrap_err().message,
        "head_object failed: 404"
    );
    let outside = HeadObjectTool {
        bucket: "a..b".to_string(),
        key: "a".to_string(),
    };
    assert!(outside.request(&config()).unwrap_err().message.starts_with("bucket rejected: "));
}

fn get(max_bytes: Option<i64>) -> GetObjectTool {
    GetObjectTool {
        bucket: "agent-test-box".to_string(),
        key: "a".to_string(),
        max_bytes,
    }
}

#[test]
fn download_is_cut_at_the_limit() {
    for (wanted, limit, range) in [
        (10, 10, None),
        (11, 11, None),
        (9, 9, some("bytes=0-8")),
        (1, 1, some("bytes=0-0")),
        (-4, 1, some("bytes=0-0")),
    ] {
        let expected = Download {
            size: 10,
            limit,
            range,
        };
        assert_eq!(get(Some(wanted)).download(&config(), Ok(head(Some(10)))).unwrap(), expected);
    }
}

#[test]
fn download_is_capped_by_the_server() {
    let capped = Download {
        size: 5000,
        limit: 1024,
        range: some("bytes=0-1023"),
    };
    assert_eq!(get(Some(4000)).download(&config(), Ok(head(Some(5000)))).unwrap(), capped);
    assert_eq!(get(None).download(&config(), Ok(head(Some(5000)))).unwrap(), capped);
    let mut config = config();
    config.max_body_bytes = 4_194_304;
    let defaulted = get(None).download(&config, Ok(head(Some(262_145)))).unwrap();
    assert_eq!(defaulted.range, some("bytes=0-262143"));
}

#[test]
fn download_of_unknown_size_asks_for_no_range() {
    let unknown = Download {
        size: 0,
        limit: 9,
        range: None,
    };
    assert_eq!(get(Some(9)).download(&config(), Ok(head(None))).unwrap(), unknown);
}

#[test]
fn failed_metadata_are_reported() {
    assert_eq!(
        get(None).download(&config(), Err("404".to_string())).unwrap_err().message,
        "get_object (head) failed: 404"
    );
}

/// What a service sends that honours the range.
fn served(object: &[u8], range: &Option<String>) -> Vec<u8> {
    match range {
        Some(range) => {
            let last: usize = range.strip_prefix("bytes=0-").unwrap().parse().unwrap();
            object[..object.len().min(last + 1)].to_vec()
        }
        None => object.to_vec(),
    }
}

#[test]
fn download_is_capped_and_flagged_with_or_without_a_size() {
    for length in [0usize, 1, 8, 9, 10, 11, 2000] {
        let object = vec![b'x'; length];
        for stated in [None, Some(length as i64)] {
            for (wanted, limit) in [(Some(9), 9), (None, 1024)] {
                let tool = get(wanted);
                let bucket = tool.request(&config()).unwrap().bucket;
                let download = tool.download(&config(), Ok(head(stated))).unwrap();
                let body = ObjectBody {
                    content_type: None,
                    etag: None,
                    bytes: served(&object, &download.range),
                };
                let report = tool.report(&bucket, &download, &body).to_string();
                let returned = length.min(limit);
                assert!(report.contains(&format!("\"returned_bytes\":{returned},")));
                assert!(report.contains(&format!("\"truncated\":{}}}", length > limit)));
                assert!(report.contains(&format!("\"content\":\"{}\"", "x".repeat(returned))));
            }
        }
    }
}

#[test]
fn download_of_unknown_size_is_cut() {
    let tool = get(Some(2));
    let bucket = tool.request(&config()).unwrap().bucket;
    let download = tool.download(&config(), Ok(head(None))).unwrap();
    let body = ObjectBody {
        content_type: None,
        etag: None,
        bytes: vec![0xc3, 0xbc, 0xff],
    };
    let report = tool.report(&bucket, &download, &body).to_string();
    assert!(report.contains("\"content\":\"\u{fc}\""));
    assert!(report.contains("\"returned_bytes\":2,"));
    assert!(report.contains("\"truncated\":true"));
}

#[test]
fn text_is_shown_as_text_and_bytes_as_base64() {
    assert_eq!(Content::of(b"gr\xc3\xbc\xc3\x9fe"), Content::Utf8("gr\u{fc}\u{df}e".to_string()));
    assert_eq!(Content::of(&[0xff, 0xfe, 0x00]), Content::Base64("//4A".to_string()));
    assert_eq!(Content::of(&[0xff]), Content::Base64("/w==".to_string()));
    assert_eq!(Content::of(&[]), Content::Utf8(String::new()));
}

#[test]
fn download_is_shown() {
    let tool = get(None);
    let bucket = tool.request(&config()).unwrap().bucket;
    let download = Download {
        size: 9,
        limit: 2,
        range: some("bytes=0-1"),
    };
    let body = ObjectBody {
        content_type: None,
        etag: some("e"),
        bytes: b"hi".to_vec(),
    };
    assert_eq!(
        tool.respond(&bucket, &download, Ok(body)).unwrap(),
        "{\n  \"bucket\": \"agent-test-box\",\n  \"content\": \"hi\",\n  \"content_type\": null,\n  \"encoding\": \"utf8\",\n  \"etag\": \"e\",\n  \"key\": \"a\",\n  \"returned_bytes\": 2,\n  \"size\": 9,\n  \"truncated\": true\n}"
    );
    let binary = ObjectBody {
        content_type: None,
        etag: None,
        bytes: vec![0x80],
    };
    let report = tool.report(&bucket, &download, &binary).to_string();
    assert!(report.contains("\"content\":\"gA==\""));
    assert!(report.contains("\"encoding\":\"base64\""));
    assert_eq!(
        tool.respond(&bucket, &download, Err(FetchError::Request("denied".to_string())))
            .unwrap_err()
            .message,
        "get_object failed: denied"
    );
    assert_eq!(
        tool.respond(&bucket, &download, Err(FetchError::Body("cut off".to_string())))
            .unwrap_err()
            .message,
        "get_object (body) failed: cut off"
    );
}

fn put(content: Option<&str>, content_base64: Option<&str>) -> PutObjectTool {
    PutObjectTool {
        bucket: "box".to_string(),
        key: "a".to_string(),
        content: content.map(str::to_string),
        content_base64: content_base64.map(str::to_string),
        content_type: some("text/plain"),
    }
}

#[test]
fn upload_takes_text_or_base64() {
    let request = put(Some("gr\u{fc}n"), None).request(&config()).unwrap();
    assert_eq!(request.body, b"gr\xc3\xbcn".to_vec());
    assert_eq!(request.bucket.as_str(), "agent-test-box");
    assert_eq!(request.key, "a");
    assert_eq!(request.content_type, some("text/plain"));
    assert_eq!(put(None, Some("//4A")).request(&config()).unwrap().body, vec![0xff, 0xfe, 0x00]);
}

#[test]
fn upload_takes_exactly_one_content() {
    for tool in [put(None, None), put(Some("a"), Some("YQ=="))] {
        assert_eq!(
            tool.request(&config()).unwrap_err().message,
            "provide exactly one of content or content_base64"
        );
    }
}

#[test]
fn upload_rejects_bad_base64() {
    assert_eq!(
        put(None, Some("a!==")).request(&config()).unwrap_err().message,
        "invalid base64: Invalid symbol 33, offset 1."
    );
    assert_eq!(
        put(None, Some("YQ")).request(&config()).unwrap_err().message,
        "invalid base64: Invalid padding"
    );
}

#[test]
fn upload_keeps_the_limit() {
    let largest = "x".repeat(1024);
    assert_eq!(put(Some(&largest), None).request(&config()).unwrap().body.len(), 1024);
    let larger = "x".repeat(1025);
    assert_eq!(
        put(Some(&larger), None).request(&config()).unwrap_err().message,
        "body of 1025 bytes exceeds the 1024 byte limit"
    );
}

#[test]
fn upload_is_shown() {
    let tool = put(Some("hi"), None);
    let request = tool.request(&config()).unwrap();
    assert_eq!(
        tool.respond(&request, Ok(some("e"))).unwrap(),
        "{\n  \"bucket\": \"agent-test-box\",\n  \"etag\": \"e\",\n  \"key\": \"a\",\n  \"size\": 2\n}"
    );
    assert_eq!(
        tool.respond(&request, Err("full".to_string())).unwrap_err().message,
        "put_object failed: full"
    );
}

#[test]
fn what_is_downloaded_uploads_as_the_same_bytes() {
    for bytes in [b"plain".to_vec(), vec![0x00, 0xff, 0x10], vec![]] {
        let tool = match Content::of(&bytes) {
            Content::Utf8(text) => put(Some(&text), None),
            Content::Base64(text) => put(None, Some(&text)),
        };
        assert_eq!(tool.body().unwrap(), bytes);
    }
}

#[test]
fn deletion_of_an_object_is_shown() {
    let tool = DeleteObjectTool {
        bucket: "box".to_string(),
        key: "a".to_string(),
    };
    let request = tool.request(&config()).unwrap();
    assert_eq!((request.bucket.as_str(), request.key.as_str()), ("agent-test-box", "a"));
    assert_eq!(
        tool.report(&request.bucket),
        Json::Object(vec![
            ("bucket".to_string(), Json::Text("agent-test-box".to_string())),
            ("key".to_string(), Json::Text("a".to_string())),
            ("deleted".to_string(), Json::Bool(true)),
        ])
    );
    assert_eq!(
        tool.respond(&request.bucket, Ok(())).unwrap(),
        "{\n  \"bucket\": \"agent-test-box\",\n  \"deleted\": true,\n  \"key\": \"a\"\n}"
    );
    assert_eq!(
        tool.respond(&request.bucket, Err("locked".to_string())).unwrap_err().message,
        "delete_object failed: locked"
    );
}
