use monitor_sim::loader::{load_monitor_data, LoadError};

#[test]
fn load_valid_input() {
    let text = r#"{
  "monitors": [
    { "monitor_id": 7, "name": "alpha", "script": "run.sh", "type": "ping", "result": null, "code": "c1" },
    { "monitor_id": null, "name": "beta", "script": null, "type": null, "result": null, "code": "c2" }
  ]
}"#;
    let data = load_monitor_data(text).unwrap();
    assert_eq!(data.monitors.len(), 2);
    assert_eq!(data.monitors[0].monitor_id, Some(7));
    assert_eq!(data.monitors[0].name, "alpha");
    assert_eq!(data.monitors[0].script.as_deref(), Some("run.sh"));
    assert_eq!(data.monitors[0].monitor_type.as_deref(), Some("ping"));
    assert!(data.monitors[0].result.is_none());
    assert_eq!(data.monitors[0].code, "c1");
    assert_eq!(data.monitors[1].monitor_id, None);
    assert_eq!(data.monitors[1].name, "beta");
    assert!(data.monitors[1].script.is_none());
    assert!(data.monitors[1].monitor_type.is_none());
    assert!(data.monitors[1].result.is_none());
    assert_eq!(data.monitors[1].code, "c2");
}

#[test]
fn load_count_matches_input_length() {
    let text = r#"{"monitors": [
      {"name": "a", "code": "x"},
      {"name": "b", "code": "y"},
      {"name": "c", "code": "z"}
    ]}"#;
    let data = load_monitor_data(text).unwrap();
    assert_eq!(data.monitors.len(), 3);
}

#[test]
fn load_optional_fields_may_be_absent() {
    let text = r#"{"monitors": [ {"name": "bare", "code": "k"} ]}"#;
    let data = load_monitor_data(text).unwrap();
    assert_eq!(data.monitors.len(), 1);
    assert_eq!(data.monitors[0].monitor_id, None);
    assert!(data.monitors[0].script.is_none());
    assert!(data.monitors[0].monitor_type.is_none());
    assert!(data.monitors[0].result.is_none());
}

#[test]
fn load_empty_array() {
    let data = load_monitor_data(r#"{"monitors": []}"#).unwrap();
    assert_eq!(data.monitors.len(), 0);
}

#[test]
fn load_malformed_json_is_syntax_error() {
    let r = load_monitor_data("this is not json");
    assert_eq!(r.unwrap_err(), LoadError::Syntax);
}

#[test]
fn load_truncated_json_is_syntax_error() {
    let r = load_monitor_data(r#"{"monitors": [ {"name": "a""#);
    assert_eq!(r.unwrap_err(), LoadError::Syntax);
}

#[test]
fn load_missing_monitors_key_is_schema_error() {
    let r = load_monitor_data(r#"{"other": []}"#);
    assert_eq!(r.unwrap_err(), LoadError::Schema);
}

#[test]
fn load_monitors_not_array_is_schema_error() {
    let r = load_monitor_data(r#"{"monitors": 5}"#);
    assert_eq!(r.unwrap_err(), LoadError::Schema);
}

#[test]
fn load_missing_code_is_schema_error() {
    let r = load_monitor_data(r#"{"monitors": [ {"name": "a"} ]}"#);
    assert_eq!(r.unwrap_err(), LoadError::Schema);
}

#[test]
fn load_missing_name_is_schema_error() {
    let r = load_monitor_data(r#"{"monitors": [ {"code": "x"} ]}"#);
    assert_eq!(r.unwrap_err(), LoadError::Schema);
}

#[test]
fn load_name_of_wrong_kind_is_schema_error() {
    let r = load_monitor_data(r#"{"monitors": [ {"name": 42, "code": "x"} ]}"#);
    assert_eq!(r.unwrap_err(), LoadError::Schema);
}

#[test]
fn load_monitor_id_of_wrong_kind_is_schema_error() {
    let r = load_monitor_data(r#"{"monitors": [ {"monitor_id": "seven", "name": "a", "code": "x"} ]}"#);
    assert_eq!(r.unwrap_err(), LoadError::Schema);
}

#[test]
fn load_populated_result_is_schema_error() {
    let r = load_monitor_data(
        r#"{"monitors": [ {"name": "a", "code": "x", "result": {"value": 1, "processed_at": 2}} ]}"#,
    );
    assert_eq!(r.unwrap_err(), LoadError::Schema);
}

#[test]
fn load_monitor_element_not_object_is_schema_error() {
    let r = load_monitor_data(r#"{"monitors": [ 3 ]}"#);
    assert_eq!(r.unwrap_err(), LoadError::Schema);
}
