use monitor_sim::loader::load_monitor_data;
use monitor_sim::model::{Monitor, MonitorData, MonitorResult};
use monitor_sim::render::{derive_filename, i64_to_string, persist_cycle, render_document_exec, u64_to_string};

#[test]
fn u64_rendering() {
    assert_eq!(u64_to_string(0), "0");
    assert_eq!(u64_to_string(7), "7");
    assert_eq!(u64_to_string(10), "10");
    assert_eq!(u64_to_string(1700000000), "1700000000");
    assert_eq!(u64_to_string(u64::MAX), "18446744073709551615");
}

#[test]
fn i64_rendering() {
    assert_eq!(i64_to_string(0), "0");
    assert_eq!(i64_to_string(99), "99");
    assert_eq!(i64_to_string(-1), "-1");
    assert_eq!(i64_to_string(-123), "-123");
    assert_eq!(i64_to_string(i64::MAX), "9223372036854775807");
    assert_eq!(i64_to_string(i64::MIN), "-9223372036854775808");
}

#[test]
fn render_empty_store() {
    let data = MonitorData { monitors: Vec::new() };
    assert_eq!(render_document_exec(&data), "{\n  \"monitors\": []\n}");
}

#[test]
fn render_one_monitor_exact() {
    let data = MonitorData {
        monitors: vec![Monitor {
            monitor_id: Some(7),
            name: String::from("alpha"),
            script: None,
            monitor_type: Some(String::from("ping")),
            result: None,
            code: String::from("c1"),
        }],
    };
    let expected = "{\n  \"monitors\": [\n    {\n      \"monitor_id\": 7,\n      \"name\": \"alpha\",\n      \"script\": null,\n      \"type\": \"ping\",\n      \"result\": null,\n      \"code\": \"c1\"\n    }\n  ]\n}";
    assert_eq!(render_document_exec(&data), expected);
}

#[test]
fn render_populated_result_exact() {
    let data = MonitorData {
        monitors: vec![Monitor {
            monitor_id: None,
            name: String::from("m"),
            script: None,
            monitor_type: None,
            result: Some(MonitorResult { value: 42, processed_at: 1700000001 }),
            code: String::from("k"),
        }],
    };
    let expected = "{\n  \"monitors\": [\n    {\n      \"monitor_id\": null,\n      \"name\": \"m\",\n      \"script\": null,\n      \"type\": null,\n      \"result\": {\n        \"value\": 42,\n        \"processed_at\": 1700000001\n      },\n      \"code\": \"k\"\n    }\n  ]\n}";
    assert_eq!(render_document_exec(&data), expected);
}

#[test]
fn render_two_monitors_in_order() {
    let text = r#"{"monitors": [
      {"name": "first", "code": "a"},
      {"name": "second", "code": "b"}
    ]}"#;
    let data = load_monitor_data(text).unwrap();
    let doc = render_document_exec(&data);
    let i = doc.find("\"name\": \"first\"").unwrap();
    let j = doc.find("\"name\": \"second\"").unwrap();
    assert!(i < j);
}

#[test]
fn render_escapes_special_characters() {
    let data = MonitorData {
        monitors: vec![Monitor {
            monitor_id: None,
            name: String::from("a\"b\\c\nd\te\rf"),
            script: None,
            monitor_type: None,
            result: None,
            code: String::from("\u{0001}"),
        }],
    };
    let doc = render_document_exec(&data);
    assert!(doc.contains("\"name\": \"a\\\"b\\\\c\\nd\\te\\rf\""));
    assert!(doc.contains("\"code\": \"\\u0001\""));
}

#[test]
fn rendered_document_is_valid_json() {
    let data = MonitorData {
        monitors: vec![Monitor {
            monitor_id: Some(-3),
            name: String::from("odd \"name\" with \\ and \u{0002}"),
            script: Some(String::from("s")),
            monitor_type: None,
            result: Some(MonitorResult { value: 5, processed_at: 10 }),
            code: String::from("c"),
        }],
    };
    let doc = render_document_exec(&data);
    let v: serde_json::Value = serde_json::from_str(&doc).unwrap();
    let m = &v["monitors"][0];
    assert_eq!(m["monitor_id"], serde_json::Value::from(-3i64));
    assert_eq!(m["name"].as_str().unwrap(), "odd \"name\" with \\ and \u{0002}");
    assert_eq!(m["result"]["value"], serde_json::Value::from(5i64));
    assert_eq!(m["code"].as_str().unwrap(), "c");
}

#[test]
fn document_keeps_code_field_round_trip() {
    let text = r#"{"monitors": [
      {"monitor_id": 1, "name": "n1", "code": "keep-me"},
      {"name": "n2", "code": "and-me"}
    ]}"#;
    let data = load_monitor_data(text).unwrap();
    let doc = render_document_exec(&data);
    assert!(doc.contains("\"code\": \"keep-me\""));
    assert!(doc.contains("\"code\": \"and-me\""));
    let again = load_monitor_data(&doc).unwrap();
    assert_eq!(again.monitors.len(), 2);
    assert_eq!(again.monitors[0].name, "n1");
    assert_eq!(again.monitors[0].code, "keep-me");
    assert_eq!(again.monitors[1].name, "n2");
    assert_eq!(again.monitors[1].code, "and-me");
}

#[test]
fn filename_from_timestamp() {
    assert_eq!(derive_filename(1700000000), "1700000000_monitors.json");
    assert_eq!(derive_filename(0), "0_monitors.json");
}

#[test]
fn filenames_differ_for_distinct_timestamps() {
    let a = derive_filename(1700000000);
    let b = derive_filename(1700000060);
    assert_ne!(a, b);
    assert_ne!(derive_filename(1), derive_filename(2));
    assert_ne!(derive_filename(9), derive_filename(90));
}

#[test]
fn persist_cycle_pairs_name_and_document() {
    let data = MonitorData { monitors: Vec::new() };
    let (name, doc) = persist_cycle(&data, 123);
    assert_eq!(name, "123_monitors.json");
    assert_eq!(doc, "{\n  \"monitors\": []\n}");
}
