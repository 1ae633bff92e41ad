use patch_data::json::JsonValue;
use patch_data::tfe_v2::{
    listing_is_readable, variable_id_from_body, variable_id_from_response, variable_map_json, variables_url, GenericError,
};
use patch_data::yaml_data::TFEVarMetaData;

fn workspace(var_name: &str) -> TFEVarMetaData {
    TFEVarMetaData {
        workspace_id: "ws-xyzabcd0000001".to_string(),
        hostname: "my-host-001.company.com".to_string(),
        token: "Bearer <MY_TOKEN>".to_string(),
        var_name: var_name.to_string(),
        var_value: "MY_VALUE_FOR_VAR".to_string(),
    }
}

fn convert(v: serde_json::Value) -> JsonValue {
    match v {
        serde_json::Value::Null => JsonValue::Null,
        serde_json::Value::Bool(b) => JsonValue::Bool(b),
        serde_json::Value::Number(n) => JsonValue::Number(n.to_string()),
        serde_json::Value::String(s) => JsonValue::Str(s),
        serde_json::Value::Array(items) => JsonValue::Array(items.into_iter().map(convert).collect()),
        serde_json::Value::Object(map) => {
            JsonValue::Object(map.into_iter().map(|(k, v)| (k, convert(v))).collect())
        }
    }
}

fn parse(text: &str) -> Result<JsonValue, String> {
    match serde_json::from_str::<serde_json::Value>(text) {
        Ok(v) => Ok(convert(v)),
        Err(e) => Err(format!("{:#?}", e)),
    }
}

const LISTING: &str = r#"{
  "data": [
    {"id": "var-111", "type": "vars", "attributes": {"key": "OTHER", "value": "x"}},
    {"id": "var-222", "type": "vars", "attributes": {"key": "MY_VAR_NAME", "value": "y"}},
    {"id": "var-333", "type": "vars"}
  ]
}"#;

#[test]
fn finds_variable_id() {
    let parsed = parse(LISTING);
    assert!(listing_is_readable(parsed.as_ref().unwrap()));
    assert_eq!(variable_id_from_response(&parsed, &workspace("MY_VAR_NAME")).unwrap(), "var-222");
    assert_eq!(variable_id_from_response(&parsed, &workspace("OTHER")).unwrap(), "var-111");
}

#[test]
fn last_match_wins() {
    let parsed = parse(
        r#"{"data":[{"id":"var-1","attributes":{"key":"K"}},{"id":"var-2","attributes":{"key":"K"}}]}"#,
    );
    assert_eq!(variable_id_from_response(&parsed, &workspace("K")).unwrap(), "var-2");
}

#[test]
fn last_match_with_empty_id_is_not_found() {
    let parsed = parse(
        r#"{"data":[{"id":"var-1","attributes":{"key":"K"}},{"id":"","attributes":{"key":"K"}}]}"#,
    );
    let e = variable_id_from_response(&parsed, &workspace("K")).unwrap_err();
    assert!(matches!(e.err_type, GenericError::DataNotFound));
}

#[test]
fn missing_variable_is_not_found() {
    let parsed = parse(LISTING);
    let e = variable_id_from_response(&parsed, &workspace("ABSENT")).unwrap_err();
    assert!(matches!(e.err_type, GenericError::DataNotFound));
    assert_eq!(e.err_msg, "could not find variable_id for workspace_id");
}

#[test]
fn unusual_documents_are_not_found() {
    for text in [r#"[1, 2]"#, r#"{"errors": []}"#, r#"{"data": {"id": "var-1"}}"#, r#""text""#, r#"{"data": []}"#] {
        let parsed = parse(text);
        assert!(listing_is_readable(parsed.as_ref().unwrap()));
        let e = variable_id_from_response(&parsed, &workspace("K")).unwrap_err();
        assert!(matches!(e.err_type, GenericError::DataNotFound));
    }
}

#[test]
fn body_that_is_not_json() {
    let parsed = parse("<html>not json</html>");
    let detail = parse("<html>not json</html>").unwrap_err();
    let e = variable_id_from_response(&parsed, &workspace("K")).unwrap_err();
    assert!(matches!(e.err_type, GenericError::JsonParseError));
    assert_eq!(e.err_msg, format!("error in extracting json from response : {}", detail));
}

#[test]
fn unreadable_listings() {
    let missing_id = parse(r#"{"data":[{"attributes":{"key":"K"}}]}"#).unwrap();
    assert!(!listing_is_readable(&missing_id));
    let numeric_id = parse(r#"{"data":[{"id":7,"attributes":{"key":"K"}}]}"#).unwrap();
    assert!(!listing_is_readable(&numeric_id));
    let numeric_key = parse(r#"{"data":[{"id":"var-1","attributes":{"key":5}}]}"#).unwrap();
    assert!(!listing_is_readable(&numeric_key));
    let no_key = parse(r#"{"data":[{"id":"var-1","attributes":{"value":5}}]}"#).unwrap();
    assert!(listing_is_readable(&no_key));
}

#[test]
fn lookup_of_members() {
    let doc = parse(r#"{"a": 1, "b": "two"}"#).unwrap();
    assert!(matches!(doc.get("b"), Some(JsonValue::Str(s)) if s == "two"));
    assert!(doc.get("c").is_none());
    assert!(JsonValue::Array(vec![]).get("a").is_none());
    let dup = JsonValue::Object(vec![
        ("k".to_string(), JsonValue::Str("first".to_string())),
        ("k".to_string(), JsonValue::Str("second".to_string())),
    ]);
    assert!(matches!(dup.get("k"), Some(JsonValue::Str(s)) if s == "first"));
}

#[test]
fn variables_url_layout() {
    assert_eq!(
        variables_url(&workspace("K")),
        "https://my-host-001.company.com/api/v2/workspaces/ws-xyzabcd0000001/vars"
    );
}

#[test]
fn variable_map_layout() {
    assert_eq!(variable_map_json(&Vec::new()), "{}");
    let pairs = vec![
        ("ws-1".to_string(), "var-1".to_string()),
        ("ws-2".to_string(), "var-\"2\"".to_string()),
    ];
    assert_eq!(variable_map_json(&pairs), "{\n  \"ws-1\": \"var-1\",\n  \"ws-2\": \"var-\\\"2\\\"\"\n}");
}

#[test]
fn variable_map_matches_serde_json() {
    let pairs = vec![
        ("a".to_string(), "1".to_string()),
        ("b".to_string(), "".to_string()),
        ("c".to_string(), "x\ny".to_string()),
    ];
    let mut map = std::collections::BTreeMap::new();
    for (k, v) in &pairs {
        map.insert(k.clone(), v.clone());
    }
    assert_eq!(variable_map_json(&pairs), serde_json::to_string_pretty(&map).unwrap());
    let one = vec![("only".to_string(), "v".to_string())];
    let mut map = std::collections::BTreeMap::new();
    map.insert("only".to_string(), "v".to_string());
    assert_eq!(variable_map_json(&one), serde_json::to_string_pretty(&map).unwrap());
}

#[test]
fn body_text_is_read() {
    let r = variable_id_from_body(LISTING, &workspace("MY_VAR_NAME")).unwrap();
    assert_eq!(r.unwrap(), "var-222");
    let r = variable_id_from_body(LISTING, &workspace("ABSENT")).unwrap();
    assert!(matches!(r.unwrap_err().err_type, GenericError::DataNotFound));
}

#[test]
fn body_text_not_json() {
    let r = variable_id_from_body("<html>not json</html>", &workspace("K")).unwrap();
    let e = r.unwrap_err();
    assert!(matches!(e.err_type, GenericError::JsonParseError));
    assert!(e.err_msg.starts_with("error in extracting json from response : "));
    assert_eq!(e.err_msg, format!("error in extracting json from response : {}", parse("<html>not json</html>").unwrap_err()));
}

#[test]
fn body_text_unreadable_listing() {
    assert!(variable_id_from_body(r#"{"data":[{"attributes":{"key":"K"}}]}"#, &workspace("K")).is_none());
    assert!(variable_id_from_body(r#"{"data":[{"id":"v","attributes":{"key":1}}]}"#, &workspace("K")).is_none());
}

#[test]
fn body_text_numbers_and_nesting() {
    let text = r#"{"meta": {"count": 2.5e3}, "data": [{"id": "var-7", "attributes": {"key": "K", "n": [1, null, true]}}]}"#;
    assert_eq!(variable_id_from_body(text, &workspace("K")).unwrap().unwrap(), "var-7");
}

#[test]
fn variable_map_keeps_given_order() {
    let pairs = vec![
        ("ws-b".to_string(), "var-2".to_string()),
        ("ws-a".to_string(), "var-1".to_string()),
    ];
    assert_eq!(variable_map_json(&pairs), "{\n  \"ws-b\": \"var-2\",\n  \"ws-a\": \"var-1\"\n}");
}

#[test]
fn body_text_not_json_message() {
    let text = "{\"data\": [";
    let e = variable_id_from_body(text, &workspace("K")).unwrap().unwrap_err();
    let detail = format!("{:#?}", serde_json::from_str::<serde_json::Value>(text).unwrap_err());
    assert_eq!(e.err_msg, format!("error in extracting json from response : {}", detail));
}
