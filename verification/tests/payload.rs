use patch_data::tfe::{GenericError, JSON_API_CONTENT_TYPE};
use patch_data::tfe_patch::{
    build_final_patch_data_list, get_json_from_tfe_patch_data, json_quote, lookup_variable_id,
    patch_outcome, patch_url, FinalPatchData, TFEPatchData,
};
use patch_data::yaml_data::TFEVarMetaData;

fn workspace(id: &str, var_name: &str, var_value: &str) -> TFEVarMetaData {
    TFEVarMetaData {
        workspace_id: id.to_string(),
        hostname: "my-host-001.company.com".to_string(),
        token: "Bearer <MY_TOKEN>".to_string(),
        var_name: var_name.to_string(),
        var_value: var_value.to_string(),
    }
}

fn patch(key: &str, value: &str, variable_id: &str) -> TFEPatchData {
    TFEPatchData {
        key: key.to_string(),
        value: value.to_string(),
        variable_id: variable_id.to_string(),
        description: "patched_on_2023_09_06".to_string(),
        category: "env".to_string(),
        sensitive: true,
        hcl: false,
    }
}

#[test]
fn payload_layout() {
    let d = patch("MY_VAR_NAME", "MY_VALUE_FOR_VAR", "var-C39123456jybC45d");
    assert_eq!(
        get_json_from_tfe_patch_data(&d),
        "{\"data\":{\"attributes\":{\"category\":\"env\",\"description\":\"patched_on_2023_09_06\",\"hcl\":false,\"key\":\"MY_VAR_NAME\",\"sensitive\":true,\"value\":\"MY_VALUE_FOR_VAR\"},\"id\":\"var-C39123456jybC45d\",\"type\":\"vars\"}}"
    );
}

#[test]
fn payload_booleans() {
    let mut d = patch("K", "V", "var-1");
    d.hcl = true;
    d.sensitive = false;
    let json = get_json_from_tfe_patch_data(&d);
    assert!(json.contains("\"hcl\":true"));
    assert!(json.contains("\"sensitive\":false"));
}

#[test]
fn payload_matches_serde_json_document() {
    let d = patch("KEY \"quoted\"", "line1\nline2\\end\u{1}", "var-x");
    let mut attributes = serde_json::Map::new();
    attributes.insert("category".to_string(), serde_json::Value::String(d.category.clone()));
    attributes.insert("description".to_string(), serde_json::Value::String(d.description.clone()));
    attributes.insert("hcl".to_string(), serde_json::Value::Bool(d.hcl));
    attributes.insert("key".to_string(), serde_json::Value::String(d.key.clone()));
    attributes.insert("sensitive".to_string(), serde_json::Value::Bool(d.sensitive));
    attributes.insert("value".to_string(), serde_json::Value::String(d.value.clone()));
    let mut data = serde_json::Map::new();
    data.insert("attributes".to_string(), serde_json::Value::Object(attributes));
    data.insert("id".to_string(), serde_json::Value::String(d.variable_id.clone()));
    data.insert("type".to_string(), serde_json::Value::String("vars".to_string()));
    let mut top = serde_json::Map::new();
    top.insert("data".to_string(), serde_json::Value::Object(data));
    let expected = serde_json::to_string(&serde_json::Value::Object(top)).unwrap();
    assert_eq!(get_json_from_tfe_patch_data(&d), expected);
}

#[test]
fn payload_reads_back() {
    let d = patch("K\tK", "välue \"x\" \u{7f} \u{1f}", "var-9");
    let parsed: serde_json::Value = serde_json::from_str(&get_json_from_tfe_patch_data(&d)).unwrap();
    assert_eq!(parsed["data"]["attributes"]["key"], "K\tK");
    assert_eq!(parsed["data"]["attributes"]["value"], "välue \"x\" \u{7f} \u{1f}");
    assert_eq!(parsed["data"]["id"], "var-9");
    assert_eq!(parsed["data"]["type"], "vars");
}

#[test]
fn quoting_escapes() {
    assert_eq!(json_quote("plain"), "\"plain\"");
    assert_eq!(json_quote(""), "\"\"");
    assert_eq!(json_quote("a\"b"), "\"a\\\"b\"");
    assert_eq!(json_quote("a\\b"), "\"a\\\\b\"");
    assert_eq!(json_quote("\n\r\t\u{8}\u{c}"), "\"\\n\\r\\t\\b\\f\"");
    assert_eq!(json_quote("\u{1}\u{1f}"), "\"\\u0001\\u001f\"");
    assert_eq!(json_quote("/é"), "\"/é\"");
}

#[test]
fn patch_url_layout() {
    let f = FinalPatchData { tfe_patch_data: patch("K", "V", "var-abc"), tfe_var_metadata: workspace("ws-1", "K", "V") };
    assert_eq!(patch_url(&f), "https://my-host-001.company.com/api/v2/vars/var-abc");
}

#[test]
fn patch_outcome_with_response() {
    let f = FinalPatchData { tfe_patch_data: patch("K", "V", "var-abc"), tfe_var_metadata: workspace("ws-1", "K", "V") };
    let r = patch_outcome(&f, Some(200)).unwrap();
    assert_eq!(r.workspace_id, "ws-1");
    assert_eq!(r.variable_id, "var-abc");
    assert_eq!(r.host_name, "my-host-001.company.com");
    assert_eq!(r.status_code, 200);
    let r = patch_outcome(&f, Some(404)).unwrap();
    assert_eq!(r.status_code, 404);
}

#[test]
fn patch_outcome_without_response() {
    let f = FinalPatchData { tfe_patch_data: patch("K", "V", "var-abc"), tfe_var_metadata: workspace("ws-1", "K", "V") };
    let e = patch_outcome(&f, None).unwrap_err();
    assert!(matches!(e.err_type, GenericError::PatchError));
    assert_eq!(
        e.err_msg,
        "could not patch variable_id : (var-abc) for workspace_id : (ws-1) , on host : (my-host-001.company.com)"
    );
}

#[test]
fn content_type() {
    assert_eq!(JSON_API_CONTENT_TYPE, "application/vnd.api+json");
}

#[test]
fn lookup_finds_recorded_id() {
    let pairs = vec![
        ("ws-1".to_string(), "var-1".to_string()),
        ("ws-2".to_string(), "var-2".to_string()),
    ];
    assert_eq!(lookup_variable_id(&pairs, "ws-2"), Some("var-2".to_string()));
    assert_eq!(lookup_variable_id(&pairs, "ws-1"), Some("var-1".to_string()));
    assert_eq!(lookup_variable_id(&pairs, "ws-3"), None);
    assert_eq!(lookup_variable_id(&Vec::new(), "ws-1"), None);
}

#[test]
fn final_patch_list_from_workspaces() {
    let workspaces = vec![workspace("ws-2", "A", "1"), workspace("ws-1", "B", "2")];
    let pairs = vec![
        ("ws-1".to_string(), "var-1".to_string()),
        ("ws-2".to_string(), "var-2".to_string()),
    ];
    let list = build_final_patch_data_list(&workspaces, &pairs);
    assert_eq!(list.len(), 2);
    assert_eq!(list[0].tfe_patch_data.variable_id, "var-2");
    assert_eq!(list[0].tfe_patch_data.key, "A");
    assert_eq!(list[0].tfe_patch_data.value, "1");
    assert_eq!(list[0].tfe_var_metadata.workspace_id, "ws-2");
    assert_eq!(list[1].tfe_patch_data.variable_id, "var-1");
    assert_eq!(list[1].tfe_patch_data.key, "B");
    assert_eq!(list[1].tfe_patch_data.description, "patched_on_2023_09_06");
    assert_eq!(list[1].tfe_patch_data.category, "env");
    assert!(list[1].tfe_patch_data.sensitive);
    assert!(!list[1].tfe_patch_data.hcl);
    assert_eq!(list[1].tfe_var_metadata.token, "Bearer <MY_TOKEN>");
}

#[test]
fn final_patch_list_empty() {
    let list = build_final_patch_data_list(&Vec::new(), &Vec::new());
    assert!(list.is_empty());
}
