use monitor_sim::loader::load_monitor_data;
use monitor_sim::render::render_document_exec;
use monitor_sim::update::{run_update_cycles, update_cycle, VALUE_LOWER, VALUE_UPPER};

fn sample() -> monitor_sim::model::MonitorData {
    let text = r#"{"monitors": [
      {"monitor_id": 1, "name": "a", "code": "x"},
      {"monitor_id": 2, "name": "b", "code": "y"},
      {"name": "c", "code": "z"}
    ]}"#;
    load_monitor_data(text).unwrap()
}

#[test]
fn update_assigns_result_to_every_monitor() {
    let mut data = sample();
    update_cycle(&mut data, 1234);
    assert_eq!(data.monitors.len(), 3);
    for m in &data.monitors {
        let r = m.result.as_ref().unwrap();
        assert_eq!(r.processed_at, 1234);
        assert!(VALUE_LOWER <= r.value && r.value < VALUE_UPPER);
    }
}

#[test]
fn update_keeps_descriptive_fields() {
    let mut data = sample();
    update_cycle(&mut data, 55);
    assert_eq!(data.monitors[0].monitor_id, Some(1));
    assert_eq!(data.monitors[0].name, "a");
    assert_eq!(data.monitors[0].code, "x");
    assert_eq!(data.monitors[2].monitor_id, None);
    assert_eq!(data.monitors[2].name, "c");
    assert_eq!(data.monitors[2].code, "z");
}

#[test]
fn later_cycle_never_lowers_processed_at() {
    let mut data = sample();
    update_cycle(&mut data, 100);
    let observed: Vec<i64> = data.monitors.iter().map(|m| m.result.as_ref().unwrap().processed_at).collect();
    update_cycle(&mut data, 200);
    for (m, before) in data.monitors.iter().zip(observed.iter()) {
        assert!(m.result.as_ref().unwrap().processed_at >= *before);
    }
}

#[test]
fn no_cycle_keeps_results_as_initialized() {
    let mut data = sample();
    let stamps: Vec<i64> = Vec::new();
    run_update_cycles(&mut data, &stamps);
    for m in &data.monitors {
        assert!(m.result.is_none());
    }
    let doc = render_document_exec(&data);
    assert_eq!(doc.matches("\"result\": null").count(), 3);
}

#[test]
fn run_cycles_uses_last_stamp() {
    let mut data = sample();
    run_update_cycles(&mut data, &vec![10, 20, 30]);
    for m in &data.monitors {
        assert_eq!(m.result.as_ref().unwrap().processed_at, 30);
    }
}
