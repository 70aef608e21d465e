use sip_sbc::telemetry::{FieldValue, JsonVisitor, Level, SutsFormatter, SutsLogRecord, LAST_SECOND};

fn formatter() -> SutsFormatter {
    SutsFormatter::new(
        "sbc".to_string(),
        "1.2.3".to_string(),
        "test".to_string(),
        "host-1".to_string(),
        "tenant-7".to_string(),
    )
}

fn record(fields: JsonVisitor) -> SutsLogRecord {
    formatter().format_event_at("2024-01-01T00:00:00+00:00".to_string(), Level::Info, fields, None)
}

fn attributes(record: SutsLogRecord) -> Vec<(String, String)> {
    let mut entries: Vec<(String, String)> = record
        .attributes
        .into_entries()
        .into_iter()
        .map(|(name, value)| (name, format!("{:?}", value)))
        .collect();
    entries.sort();
    entries
}

#[test]
fn a_record_names_its_origin() {
    let record = formatter().format_event_at(
        "now".to_string(),
        Level::Warn,
        JsonVisitor::default(),
        Some(0x1f),
    );
    assert_eq!(record.schema_v, "1.0.0");
    assert_eq!(record.ts, "now");
    assert_eq!(record.severity, "WARN");
    assert_eq!(record.tenant_id, "tenant-7");
    assert_eq!(record.resource.service_name, "sbc");
    assert_eq!(record.resource.service_version, "1.2.3");
    assert_eq!(record.resource.service_env, "test");
    assert_eq!(record.resource.host_name, "host-1");
    assert_eq!(record.span_id, Some("1f".to_string()));
}

#[test]
fn severities_are_spelled_out() {
    assert_eq!(Level::Error.severity_text(), "ERROR");
    assert_eq!(Level::Warn.severity_text(), "WARN");
    assert_eq!(Level::Info.severity_text(), "INFO");
    assert_eq!(Level::Debug.severity_text(), "DEBUG");
    assert_eq!(Level::Trace.severity_text(), "DEBUG");
}

#[test]
fn an_empty_event_has_defaults() {
    let record = record(JsonVisitor::default());
    assert_eq!(record.event, "LOG_EVENT");
    assert_eq!(record.message, "");
    assert_eq!(record.trace_id, None);
    assert_eq!(record.span_id, None);
    assert!(attributes(record).is_empty());
}

#[test]
fn name_and_message_leave_the_attributes() {
    let mut fields = JsonVisitor::default();
    fields.record_str("event", "SIP_EGRESS");
    fields.record_debug("message", "sent");
    fields.record_u64("rtp.port", 40000);
    let record = record(fields);
    assert_eq!(record.event, "SIP_EGRESS");
    assert_eq!(record.message, "sent");
    assert_eq!(attributes(record), vec![("rtp.port".to_string(), "Uint(40000)".to_string())]);
}

#[test]
fn a_name_that_is_no_text_is_dropped() {
    let mut fields = JsonVisitor::default();
    fields.record_u64("event", 5);
    fields.record_bool("message", true);
    let record = record(fields);
    assert_eq!(record.event, "LOG_EVENT");
    assert_eq!(record.message, "");
    assert!(attributes(record).is_empty());
}

#[test]
fn the_call_id_links_events_without_a_trace() {
    let mut fields = JsonVisitor::default();
    fields.record_str("sip.call_id", "call");
    let linked = record(fields);
    assert_eq!(linked.trace_id, Some("call".to_string()));
    assert_eq!(attributes(linked).len(), 1);
    let mut fields = JsonVisitor::default();
    fields.record_str("sip.call_id", "call");
    fields.record_str("trace_id", "trace");
    let linked = record(fields);
    assert_eq!(linked.trace_id, Some("trace".to_string()));
    assert_eq!(attributes(linked).len(), 2);
    let mut fields = JsonVisitor::default();
    fields.record_str("sip.call_id", "call");
    fields.record_i64("trace_id", -1);
    assert_eq!(record(fields).trace_id, Some("call".to_string()));
}

#[test]
fn every_kind_of_value_is_kept() {
    let mut fields = JsonVisitor::default();
    fields.record_str("a", "text");
    fields.record_bool("b", false);
    fields.record_i64("c", -3);
    fields.record_u64("d", 4);
    fields.record_f64("e", 1.5f64.to_bits());
    fields.record_debug("f", "Some(1)");
    fields.record_error("g", "broken");
    let float = format!("Float({})", 1.5f64.to_bits());
    let expected = [
        ("a", "Text(\"text\")"),
        ("b", "Bool(false)"),
        ("c", "Int(-3)"),
        ("d", "Uint(4)"),
        ("e", float.as_str()),
        ("f", "Text(\"Some(1)\")"),
        ("g", "Text(\"broken\")"),
    ];
    let entries = attributes(record(fields));
    assert_eq!(entries.len(), expected.len());
    for (entry, (name, value)) in entries.iter().zip(expected) {
        assert_eq!((entry.0.as_str(), entry.1.as_str()), (name, value));
    }
}

#[test]
fn the_last_value_of_a_field_counts() {
    let mut fields = JsonVisitor::default();
    fields.record_u64("n", 1);
    fields.record_str("other", "x");
    fields.record_u64("n", 2);
    assert!(matches!(fields.remove("n"), Some(FieldValue::Uint(2))));
    assert!(fields.remove("n").is_none());
    assert_eq!(fields.text("other"), Some("x".to_string()));
    assert_eq!(fields.text("n"), None);
}

#[test]
fn instants_are_spelled_in_utc() {
    let ts = |seconds: i64, nanos: u32| {
        formatter().format_event(seconds, nanos, Level::Info, JsonVisitor::default(), None).ts
    };
    assert_eq!(ts(0, 0), "1970-01-01T00:00:00+00:00");
    assert_eq!(ts(1_700_000_000, 123_456_789), "2023-11-14T22:13:20.123456789+00:00");
    assert_eq!(ts(1_700_000_000, 500_000_000), "2023-11-14T22:13:20.500+00:00");
    assert_eq!(ts(LAST_SECOND, 999_999_999), "+262142-12-31T23:59:59.999999999+00:00");
}

#[test]
fn an_event_is_recorded_with_its_fields() {
    let mut fields = JsonVisitor::default();
    fields.record_str("event", "DNS_RETRY");
    let record = formatter().format_event(60, 0, Level::Debug, fields, Some(0xab));
    assert_eq!(record.ts, "1970-01-01T00:01:00+00:00");
    assert_eq!(record.event, "DNS_RETRY");
    assert_eq!(record.severity, "DEBUG");
    assert_eq!(record.span_id, Some("ab".to_string()));
}
