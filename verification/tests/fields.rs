use tracing_axiom::event::{
    event_object, event_object_at, BogusKind, Event, Level, Never, Node, SpanInfo, Timestamp,
};
use tracing_axiom::fields::FieldCascade;
use tracing_axiom::text::{digit, push_decimal, push_padded_decimal, ser_hex, ser_opt_hex};
use tracing_axiom::value::{Number, Value};

fn find<'a>(entries: &'a [(String, Value)], key: &str) -> Option<&'a Value> {
    entries.iter().rev().find(|e| e.0 == key).map(|e| &e.1)
}

#[test]
fn integers_have_one_form() {
    assert_eq!(Value::from(-1i8), Value::Number(Number::NegInt(-1)));
    assert_eq!(Value::from(7i16), Value::Number(Number::PosInt(7)));
    assert_eq!(Value::from(0i32), Value::Number(Number::PosInt(0)));
    assert_eq!(Value::from(i64::MIN), Value::Number(Number::NegInt(i64::MIN)));
    assert_eq!(Value::from(-3isize), Value::Number(Number::NegInt(-3)));
    assert_eq!(Value::from(255u8), Value::Number(Number::PosInt(255)));
    assert_eq!(Value::from(65535u16), Value::Number(Number::PosInt(65535)));
    assert_eq!(Value::from(1u32), Value::Number(Number::PosInt(1)));
    assert_eq!(Value::from(u64::MAX), Value::Number(Number::PosInt(u64::MAX)));
    assert_eq!(Value::from(9usize), Value::Number(Number::PosInt(9)));
}

#[test]
fn other_values_convert() {
    assert_eq!(Value::from(true), Value::Bool(true));
    assert_eq!(Value::from("a"), Value::String("a".to_string()));
    assert_eq!(Value::from("b".to_string()), Value::String("b".to_string()));
    assert_eq!(Value::from(Number::PosInt(2)), Value::Number(Number::PosInt(2)));
    let json = Value::Json(serde_json::Value::Array(vec![serde_json::Value::from(1u64)]));
    assert_eq!(json.clone(), json);
}

#[test]
fn doubles_are_numbers_unless_infinite_or_nan() {
    for f in [0.0f64, -0.0, 1.5, -2.25e300, f64::MIN_POSITIVE, f64::MAX, 5e-324] {
        assert_eq!(
            Value::from_f64_bits(f.to_bits()),
            Value::Number(Number::Float(f.to_bits()))
        );
    }
    for f in [f64::INFINITY, f64::NEG_INFINITY, f64::NAN, -f64::NAN] {
        assert_eq!(Value::from_f64_bits(f.to_bits()), Value::String(format!("{}", f)));
    }
}

#[test]
fn numbers_are_compared_by_value() {
    let zero = Number::Float(0.0f64.to_bits());
    let minus_zero = Number::Float((-0.0f64).to_bits());
    assert_eq!(zero, minus_zero);
    assert_eq!(Value::Number(zero), Value::Number(minus_zero));
    assert_eq!(Number::Float(1.5f64.to_bits()), Number::Float(1.5f64.to_bits()));
    assert_ne!(Number::Float(1.5f64.to_bits()), Number::Float((-1.5f64).to_bits()));
    assert_ne!(Number::Float(0.0f64.to_bits()), Number::PosInt(0));
    assert_ne!(Number::PosInt(1), Number::PosInt(2));
    assert_eq!(Number::NegInt(-1), Number::NegInt(-1));
}

#[test]
fn record_replaces_an_earlier_value() {
    let mut fields = FieldCascade::new(None);
    fields.record("a", 1i32);
    fields.record("b", "x");
    fields.record("a", true);
    let entries = fields.serialize_fields();
    assert_eq!(entries.len(), 2);
    assert_eq!(find(&entries, "a"), Some(&Value::Bool(true)));
    assert_eq!(find(&entries, "b"), Some(&Value::String("x".to_string())));
}

#[test]
fn every_recorder_records() {
    let mut fields = FieldCascade::new(None);
    fields.record_debug("debug", "Some(1)".to_string());
    fields.record_f64("f64", 1.5f64.to_bits());
    fields.record_i64("i64", -4);
    fields.record_u64("u64", 4);
    fields.record_bool("bool", false);
    fields.record_str("str", "s");
    let doc = serde_json::Value::from(vec![1u64, 2, 3]);
    fields.record_serde("json", Some(doc.clone()), "unused".to_string());
    fields.record_serde("bad", None, "[1, 2]".to_string());
    let entries = fields.serialize_fields();
    assert_eq!(entries.len(), 8);
    assert_eq!(find(&entries, "debug"), Some(&Value::String("Some(1)".to_string())));
    assert_eq!(find(&entries, "f64"), Some(&Value::Number(Number::Float(1.5f64.to_bits()))));
    assert_eq!(find(&entries, "i64"), Some(&Value::Number(Number::NegInt(-4))));
    assert_eq!(find(&entries, "u64"), Some(&Value::Number(Number::PosInt(4))));
    assert_eq!(find(&entries, "bool"), Some(&Value::Bool(false)));
    assert_eq!(find(&entries, "str"), Some(&Value::String("s".to_string())));
    assert_eq!(find(&entries, "json"), Some(&Value::Json(doc)));
    assert_eq!(find(&entries, "bad"), Some(&Value::String("[1, 2]".to_string())));
}

#[test]
fn record_error_writes_display_debug_and_chain() {
    let mut fields = FieldCascade::new(None);
    let sources = vec!["disk full".to_string(), "quota".to_string()];
    fields.record_error("err", "save failed".to_string(), "Save { .. }".to_string(), &sources);
    fields.record_error("lone", "x".to_string(), "X".to_string(), &Vec::new());
    let entries = fields.serialize_fields();
    assert_eq!(find(&entries, "err"), Some(&Value::String("save failed".to_string())));
    assert_eq!(find(&entries, "err.debug"), Some(&Value::String("Save { .. }".to_string())));
    assert_eq!(
        find(&entries, "err.chain"),
        Some(&Value::String("   0: disk full\n   1: quota".to_string()))
    );
    assert_eq!(find(&entries, "lone.chain"), Some(&Value::String(String::new())));
}

#[test]
fn innermost_level_is_written_last() {
    let mut outer = FieldCascade::new(None);
    outer.record("request", 1i32);
    outer.record("user", "ann");
    let mut inner = FieldCascade::new(Some(outer));
    inner.record("request", 2i32);
    let entries = inner.serialize_fields();
    let keys: Vec<&str> = entries.iter().map(|e| e.0.as_str()).collect();
    assert_eq!(keys, vec!["request", "user", "request"]);
    assert_eq!(find(&entries, "request"), Some(&Value::Number(Number::PosInt(2))));
    assert_eq!(find(&entries, "user"), Some(&Value::String("ann".to_string())));
}

#[test]
fn copy_of_a_level_goes_inside_another() {
    let mut level = FieldCascade::new(None);
    level.record("a", 1i32);
    let mut outer = FieldCascade::new(None);
    outer.record("b", 2i32);
    let copy = level.inside(Some(outer));
    level.record("a", 3i32);
    let keys: Vec<String> = copy.serialize_fields().into_iter().map(|e| e.0).collect();
    assert_eq!(keys, vec!["b", "a"]);
    let entries = level.serialize_fields();
    assert_eq!(find(&entries, "a"), Some(&Value::Number(Number::PosInt(3))));
}

#[test]
fn message_is_taken_only_if_it_is_text() {
    let mut fields = FieldCascade::new(None);
    assert!(fields.take_message().is_none());
    fields.record("message", 5i32);
    assert!(fields.take_message().is_none());
    fields.record("x", 1i32);
    fields.record("message", "hello");
    fields.record("y", 1i32);
    assert_eq!(fields.take_message(), Some("hello".to_string()));
    assert!(fields.take_message().is_none());
    let keys: Vec<String> = fields.serialize_fields().into_iter().map(|e| e.0).collect();
    assert_eq!(keys, vec!["x", "y"]);
}

#[test]
fn identifiers_are_hexadecimal() {
    assert_eq!(ser_hex(&[0x00, 0x9f, 0xa0, 0xff, 0x01, 0x23, 0x45, 0x67]), "009fa0ff01234567");
    let id: [u8; 16] = [0xde; 16];
    assert_eq!(ser_hex(&id), "dededededededededededededededede");
    assert_eq!(ser_opt_hex(&Some([0xab, 0xcd])), Some("abcd".to_string()));
    assert_eq!(ser_opt_hex::<8>(&None), None);
    assert_ne!(ser_hex(&[1u8, 0]), ser_hex(&[0u8, 16]));
    assert_eq!(digit(11), 'b');
}

#[test]
fn decimals_are_plain_or_padded() {
    let mut s = String::new();
    push_decimal(&mut s, 0);
    push_decimal(&mut s, 90210);
    push_decimal(&mut s, u64::MAX);
    assert_eq!(s, "09021018446744073709551615");
    let mut s = String::from("[");
    push_padded_decimal(&mut s, 12, 4);
    push_padded_decimal(&mut s, 12345, 4);
    assert_eq!(s, "[  1212345");
}

fn text(node: &Node) -> String {
    match node {
        Node::Leaf(Value::String(s)) => s.clone(),
        Node::Leaf(Value::Number(Number::PosInt(n))) => format!("{}", n),
        _ => panic!("not a plain member"),
    }
}

fn log(message: Option<&str>, time: Timestamp) -> Event<Never> {
    let mut data = FieldCascade::new(None);
    data.record("k", "v");
    Event::Log {
        message: message.map(|m| m.to_string()),
        module: Some("a::b".to_string()),
        target: "tgt".to_string(),
        level: Level::Warn,
        name: "event a.rs:1".to_string(),
        data,
        time,
        trace_id: Some([0x11; 16]),
        parent_span_id: None,
        kind: BogusKind,
    }
}

#[test]
fn log_members_are_in_order() {
    let time = Timestamp { unix_nanos: 1_546_300_800_000_000_000, offset_seconds: 0 };
    let object = event_object("svc", log(Some("hi"), time)).unwrap();
    assert!(object.extra.is_none());
    let keys: Vec<&str> = object.members.iter().map(|m| m.0.as_str()).collect();
    assert_eq!(
        keys,
        vec![
            "service", "message", "module_path", "target", "level", "name", "data", "_time",
            "trace_id", "kind"
        ]
    );
    match &object.members[0].1 {
        Node::Object(entries) => {
            assert_eq!(entries.len(), 1);
            assert_eq!(find(entries, "name"), Some(&Value::String("svc".to_string())));
        }
        Node::Leaf(_) => panic!("service is an object"),
    }
    assert_eq!(text(&object.members[1].1), "hi");
    assert_eq!(text(&object.members[4].1), "warn");
    match &object.members[6].1 {
        Node::Object(entries) => {
            assert_eq!(find(entries, "k"), Some(&Value::String("v".to_string())));
        }
        Node::Leaf(_) => panic!("data is an object"),
    }
    assert_eq!(text(&object.members[7].1), "2019-01-01T00:00:00Z");
    assert_eq!(text(&object.members[8].1), "11".repeat(16));
    assert_eq!(text(&object.members[9].1), "server");
}

#[test]
fn time_is_told_in_its_offset() {
    let time = Timestamp { unix_nanos: 1_546_300_800_500_000_000, offset_seconds: 5400 };
    let object = event_object("svc", log(None, time)).unwrap();
    let keys: Vec<&str> = object.members.iter().map(|m| m.0.as_str()).collect();
    assert!(!keys.contains(&"message"));
    let time = object.members.iter().find(|m| m.0 == "_time").unwrap();
    assert_eq!(text(&time.1), "2019-01-01T01:30:00.5+01:30");
}

#[test]
fn event_without_a_telling_time_cannot_be_sent() {
    // The form has no seconds in the offset and four digits for the year.
    let time = Timestamp { unix_nanos: 0, offset_seconds: 1 };
    assert!(event_object("svc", log(None, time)).is_none());
    let time = Timestamp { unix_nanos: i128::MAX, offset_seconds: 0 };
    assert!(event_object("svc", log(None, time)).is_none());
    let time = Timestamp { unix_nanos: 253_402_300_800_000_000_000, offset_seconds: 0 };
    assert!(event_object("svc", log(None, time)).is_none());
    let time = Timestamp { unix_nanos: 0, offset_seconds: 10_000_000 };
    assert!(event_object("svc", log(None, time)).is_none());
}

#[test]
fn span_members_are_in_order() {
    let event: Event<Never> = Event::Span {
        module: None,
        target: "tgt".to_string(),
        level: Level::Info,
        name: "work".to_string(),
        data: Some(FieldCascade::new(None)),
        time: Timestamp { unix_nanos: 0, offset_seconds: 0 },
        span_info: Some(SpanInfo {
            span_id: [0x22; 8],
            trace_id: [0x33; 16],
            duration_ns: 30,
            idle_ns: 10,
            busy_ns: 20,
        }),
        parent_span_id: Some([0x44; 8]),
        kind: BogusKind,
    };
    let object = event_object_at("svc", event, "then".to_string());
    let members: Vec<(&str, String)> = object
        .members
        .iter()
        .filter(|m| m.0 != "service" && m.0 != "data")
        .map(|m| (m.0.as_str(), text(&m.1)))
        .collect();
    assert_eq!(
        members,
        vec![
            ("target", "tgt".to_string()),
            ("level", "info".to_string()),
            ("name", "work".to_string()),
            ("_time", "then".to_string()),
            ("span_id", "22".repeat(8)),
            ("trace_id", "33".repeat(16)),
            ("duration", "30".to_string()),
            ("idle_ns", "10".to_string()),
            ("busy_ns", "20".to_string()),
            ("parent_span_id", "44".repeat(8)),
            ("kind", "server".to_string()),
        ]
    );
}

#[test]
fn span_without_data_has_no_data_member() {
    let event: Event<Never> = Event::Span {
        module: None,
        target: "tgt".to_string(),
        level: Level::Trace,
        name: "work".to_string(),
        data: None,
        time: Timestamp { unix_nanos: 0, offset_seconds: 0 },
        span_info: None,
        parent_span_id: None,
        kind: BogusKind,
    };
    let object = event_object("svc", event).unwrap();
    let keys: Vec<&str> = object.members.iter().map(|m| m.0.as_str()).collect();
    assert_eq!(keys, vec!["service", "target", "level", "name", "_time", "kind"]);
}

#[test]
fn custom_event_is_handed_back() {
    let object = event_object("svc", Event::Extra(42u8)).unwrap();
    assert_eq!(object.extra, Some(42));
    assert_eq!(object.members.len(), 1);
}

#[test]
fn levels_have_names() {
    let names: Vec<&str> =
        [Level::Trace, Level::Debug, Level::Info, Level::Warn, Level::Error]
            .iter()
            .map(|l| l.as_str())
            .collect();
    assert_eq!(names, vec!["trace", "debug", "info", "warn", "error"]);
    assert_eq!(BogusKind.as_str(), "server");
}
