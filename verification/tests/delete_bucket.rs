use rustfs_agent_mcp::config::Config;
use rustfs_agent_mcp::tools::delete_bucket::{
    DeleteBucketTool, DeleteStep, KeyPage, FORCE_DELETE_OBJECT_LIMIT, FORCE_DELETE_PAGE_SIZE,
};

fn config() -> Config {
    Config {
        bind_host: "127.0.0.1".to_string(),
        bind_port: 8765,
        endpoint: "https://blob.example.com".to_string(),
        region: "us-east-1".to_string(),
        access_key: "ak".to_string(),
        secret_key: "sk".to_string(),
        bucket_prefix: "agent-test-".to_string(),
        retention_days: 7,
        max_body_bytes: 1024,
        allowed_hosts: vec![],
    }
}

fn page(keys: &[Option<&str>], next: Option<&str>) -> KeyPage {
    KeyPage {
        keys: keys.iter().map(|key| key.map(str::to_string)).collect(),
        next_token: next.map(str::to_string),
    }
}

/// Runs a deletion against a service that carries everything out, and notes what it is asked.
fn run(tool: &DeleteBucketTool, pages: Vec<KeyPage>) -> (Vec<String>, Result<String, String>) {
    let mut asked = Vec::new();
    let mut pages = pages.into_iter();
    let mut step = match tool.begin(&config()) {
        Ok(step) => step,
        Err(error) => return (asked, Err(error.message)),
    };
    loop {
        let next = match step {
            DeleteStep::ListPage(listing) => {
                let token = listing.token().clone().unwrap_or_default();
                assert_eq!(listing.page_size(), 1000);
                asked.push(format!("list {} {token}", listing.bucket().as_str()));
                listing.listed(Ok(pages.next().expect("a page")))
            }
            DeleteStep::DeleteObject(draining) => {
                let (bucket, key) = (draining.bucket().as_str(), draining.key());
                asked.push(format!("delete {bucket}/{key}"));
                draining.deleted(Ok(()))
            }
            DeleteStep::DeleteBucket(removing) => {
                asked.push(format!("remove {}", removing.bucket().as_str()));
                let answered = removing.respond(Ok(()));
                return (asked, answered.map_err(|error| error.message));
            }
        };
        step = match next {
            Ok(step) => step,
            Err(error) => return (asked, Err(error.message)),
        };
    }
}

fn tool(force: Option<bool>) -> DeleteBucketTool {
    DeleteBucketTool {
        bucket: "box".to_string(),
        force,
    }
}

#[test]
fn unforced_deletion_only_removes_the_bucket() {
    for force in [None, Some(false)] {
        let (asked, answered) = run(&tool(force), vec![]);
        assert_eq!(asked, vec!["remove agent-test-box".to_string()]);
        assert_eq!(
            answered.unwrap(),
            "{\n  \"bucket\": \"agent-test-box\",\n  \"objects_deleted\": 0\n}"
        );
    }
}

#[test]
fn forced_deletion_empties_page_by_page() {
    let pages = vec![
        page(&[Some("a"), None, Some("b")], Some("t1")),
        page(&[], Some("t2")),
        page(&[Some("c")], None),
    ];
    let (asked, answered) = run(&tool(Some(true)), pages);
    assert_eq!(
        asked,
        vec![
            "list agent-test-box ".to_string(),
            "delete agent-test-box/a".to_string(),
            "delete agent-test-box/b".to_string(),
            "list agent-test-box t1".to_string(),
            "list agent-test-box t2".to_string(),
            "delete agent-test-box/c".to_string(),
            "remove agent-test-box".to_string(),
        ]
    );
    assert_eq!(
        answered.unwrap(),
        "{\n  \"bucket\": \"agent-test-box\",\n  \"objects_deleted\": 3\n}"
    );
}

#[test]
fn forced_deletion_of_an_empty_bucket_lists_once() {
    let (asked, answered) = run(&tool(Some(true)), vec![page(&[], None)]);
    assert_eq!(asked.len(), 2);
    assert!(answered.unwrap().contains("\"objects_deleted\": 0"));
}

fn pages_of(count: usize) -> Vec<KeyPage> {
    let mut pages = Vec::new();
    let mut left = count;
    while left > 0 {
        let size = left.min(FORCE_DELETE_PAGE_SIZE as usize);
        left -= size;
        let next = if left > 0 { Some("more") } else { None };
        pages.push(page(&vec![Some("k"); size], next));
    }
    pages
}

#[test]
fn forced_deletion_reaches_the_limit() {
    let (asked, answered) = run(&tool(Some(true)), pages_of(FORCE_DELETE_OBJECT_LIMIT));
    assert_eq!(asked.len(), 10 + 10_000 + 1);
    assert!(answered.unwrap().contains("\"objects_deleted\": 10000"));
}

#[test]
fn forced_deletion_gives_up_past_the_limit() {
    let (asked, answered) = run(&tool(Some(true)), pages_of(FORCE_DELETE_OBJECT_LIMIT + 1));
    assert_eq!(asked.iter().filter(|request| request.starts_with("delete")).count(), 10_001);
    assert!(!asked.iter().any(|request| request.starts_with("remove")));
    assert_eq!(
        answered.unwrap_err(),
        "refusing to force-delete more than 10000 objects"
    );
}

#[test]
fn deletion_outside_the_rules_is_rejected() {
    let tool = DeleteBucketTool {
        bucket: "Bad".to_string(),
        force: Some(true),
    };
    let (asked, answered) = run(&tool, vec![]);
    assert!(asked.is_empty());
    assert!(answered.unwrap_err().starts_with("bucket rejected: 'agent-test-Bad' is not"));
}

#[test]
fn refused_requests_end_the_deletion() {
    let DeleteStep::ListPage(listing) = tool(Some(true)).begin(&config()).unwrap() else {
        panic!("no listing");
    };
    assert_eq!(
        listing.listed(Err("gone".to_string())).unwrap_err().message,
        "delete_bucket (list) failed: gone"
    );

    let DeleteStep::ListPage(listing) = tool(Some(true)).begin(&config()).unwrap() else {
        panic!("no listing");
    };
    let DeleteStep::DeleteObject(draining) = listing.listed(Ok(page(&[Some("a")], None))).unwrap()
    else {
        panic!("no key");
    };
    assert_eq!(
        draining.deleted(Err("locked".to_string())).unwrap_err().message,
        "delete_bucket (delete object) failed: locked"
    );

    let DeleteStep::DeleteBucket(removing) = tool(None).begin(&config()).unwrap() else {
        panic!("no removal");
    };
    assert_eq!(
        removing.respond(Err("BucketNotEmpty".to_string())).unwrap_err().message,
        "delete_bucket failed: BucketNotEmpty"
    );
}
