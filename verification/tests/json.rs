use rustfs_agent_mcp::json::Json;

fn sample() -> Json {
    Json::Object(vec![
        ("text".to_string(), Json::Text("a \"quote\"\n".to_string())),
        ("list".to_string(), Json::Array(vec![Json::Null, Json::Bool(true)])),
        ("low".to_string(), Json::Signed(-5)),
        ("high".to_string(), Json::Unsigned(u64::MAX)),
        ("empty".to_string(), Json::Object(vec![])),
    ])
}

#[test]
fn compact_text_sorts_fields_and_escapes() {
    assert_eq!(
        sample().to_string(),
        "{\"empty\":{},\"high\":18446744073709551615,\"list\":[null,true],\"low\":-5,\"text\":\"a \\\"quote\\\"\\n\"}"
    );
}

#[test]
fn pretty_text_indents() {
    assert_eq!(
        sample().to_string_pretty().unwrap(),
        "{\n  \"empty\": {},\n  \"high\": 18446744073709551615,\n  \"list\": [\n    null,\n    true\n  ],\n  \"low\": -5,\n  \"text\": \"a \\\"quote\\\"\\n\"\n}"
    );
}

#[test]
fn later_field_of_one_name_wins() {
    let value = Json::Object(vec![
        ("a".to_string(), Json::Signed(1)),
        ("a".to_string(), Json::Signed(2)),
    ]);
    assert_eq!(value.to_string(), "{\"a\":2}");
}

#[test]
fn signed_and_unsigned_numbers_read_alike() {
    assert_eq!(Json::Signed(3).to_string(), "3");
    assert_eq!(Json::Unsigned(3).to_string(), "3");
    assert_eq!(Json::Signed(i64::MIN).to_string(), "-9223372036854775808");
}
