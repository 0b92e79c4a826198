use rand::rngs::SmallRng;
use rand::SeedableRng;
use tracing_axiom::layer::{
    drop_message, is_internal, on_close, on_event, on_new_span, Enqueued, FieldCascade, Meta,
    SpanExtra, SpanIds, Timing,
};
use tracing_axiom::{Event, Level, Never, Value};
use tracing_axiom::event::Timestamp;

fn at(unix_nanos: i128) -> Timestamp {
    Timestamp { unix_nanos, offset_seconds: 0 }
}

fn meta(target: &str) -> Meta {
    Meta {
        module: Some("app::db".to_string()),
        target: target.to_string(),
        level: Level::Debug,
        name: "query".to_string(),
    }
}

#[test]
fn time_is_either_idle_or_busy() {
    let mut timing = Timing::new(100, at(5));
    timing.on_enter(110);
    assert_eq!((timing.idle, timing.busy, timing.last, timing.entered_depth), (10, 0, 110, 1));
    timing.on_enter(115);
    assert_eq!((timing.idle, timing.busy, timing.last, timing.entered_depth), (10, 0, 110, 2));
    timing.on_exit(120);
    assert_eq!((timing.idle, timing.busy, timing.last, timing.entered_depth), (10, 0, 110, 1));
    timing.on_exit(140);
    assert_eq!((timing.idle, timing.busy, timing.last, timing.entered_depth), (10, 30, 140, 0));
    timing.on_enter(150);
    timing.on_exit(151);
    assert_eq!((timing.idle, timing.busy, timing.last, timing.entered_depth), (20, 31, 151, 0));
    assert_eq!(timing.idle + timing.busy, timing.last - timing.start_instant);
}

#[test]
fn exit_without_entry_changes_nothing() {
    let mut timing = Timing::new(100, at(5));
    timing.on_exit(120);
    assert_eq!((timing.idle, timing.busy, timing.last, timing.entered_depth), (0, 0, 100, 0));
}

#[test]
fn clock_that_goes_back_counts_for_nothing() {
    let mut timing = Timing::new(100, at(5));
    timing.on_enter(90);
    assert_eq!((timing.idle, timing.last), (0, 90));
    timing.on_exit(95);
    assert_eq!((timing.busy, timing.last), (5, 95));
}

#[test]
fn child_span_inherits_the_trace() {
    let mut rng = SmallRng::seed_from_u64(1);
    let root = on_new_span(&mut rng, None, 7, at(9));
    let child = on_new_span(&mut rng, Some(root.trace_id), 8, at(10));
    assert_eq!(child.trace_id, root.trace_id);
    assert_ne!(child.span_id, root.span_id);
    assert_ne!(root.span_id, [0u8; 8]);
    assert_eq!(root.timing.start_instant, 7);
    assert_eq!(root.timing.start_dt, at(9));
    let other = on_new_span(&mut rng, None, 8, at(10));
    assert_ne!(other.trace_id, root.trace_id);
}

#[test]
fn given_identifiers_are_kept() {
    let span = SpanExtra::new(None, [1; 16], [2; 8], 7, at(9));
    assert_eq!((span.trace_id, span.span_id), ([1; 16], [2; 8]));
    let span = SpanExtra::new(Some([3; 16]), [1; 16], [2; 8], 7, at(9));
    assert_eq!((span.trace_id, span.span_id), ([3; 16], [2; 8]));
}

#[test]
fn own_log_lines_are_not_sent() {
    assert!(is_internal("tracing_axiom::internal"));
    assert!(is_internal("tracing_axiom::internal::send"));
    assert!(!is_internal("tracing_axiom::intern"));
    assert!(!is_internal("app::tracing_axiom::internal"));
    let event: Option<Event<Never>> =
        on_event(None, meta("tracing_axiom::internal"), FieldCascade::new(None), at(0));
    assert!(event.is_none());
}

#[test]
fn event_carries_its_message_and_its_span() {
    let mut around = FieldCascade::new(None);
    around.record("user", "ann");
    let mut fields = FieldCascade::new(Some(around));
    fields.record("message", "hello");
    fields.record("n", 3i32);
    let ids = SpanIds { span_id: [4; 8], trace_id: [5; 16] };
    let event: Option<Event<Never>> = on_event(Some(ids), meta("app"), fields, at(77));
    match event {
        Some(Event::Log {
            message,
            module,
            target,
            level,
            name,
            data,
            time,
            trace_id,
            parent_span_id,
            kind: _,
        }) => {
            assert_eq!(message.as_deref(), Some("hello"));
            assert_eq!(module.as_deref(), Some("app::db"));
            assert_eq!(target, "app");
            assert_eq!(level, Level::Debug);
            assert_eq!(name, "query");
            assert_eq!(time, at(77));
            assert_eq!(trace_id, Some([5; 16]));
            assert_eq!(parent_span_id, Some([4; 8]));
            let entries = data.serialize_fields();
            assert_eq!(
                entries,
                vec![
                    ("user".to_string(), Value::from("ann")),
                    ("n".to_string(), Value::from(3i32)),
                ]
            );
        }
        _ => panic!("a log line is sent"),
    }
}

#[test]
fn message_that_is_no_text_stays_a_field() {
    let mut fields = FieldCascade::new(None);
    fields.record("message", true);
    let event: Option<Event<Never>> = on_event(None, meta("app"), fields, at(77));
    match event {
        Some(Event::Log { message, data, trace_id, parent_span_id, .. }) => {
            assert!(message.is_none());
            assert_eq!(data.serialize_fields().len(), 1);
            assert!(trace_id.is_none());
            assert!(parent_span_id.is_none());
        }
        _ => panic!("a log line is sent"),
    }
}

#[test]
fn closed_span_tells_its_timing() {
    let mut extra = SpanExtra::new(None, [1; 16], [2; 8], 100, at(9));
    extra.timing.on_enter(110);
    extra.timing.on_exit(140);
    let fields = FieldCascade::new(None);
    let event: Event<Never> =
        on_close(Some((extra, fields)), Some([6; 8]), meta("app"), 150, at(99));
    match event {
        Event::Span { data, time, span_info, parent_span_id, target, .. } => {
            assert!(data.is_some());
            assert_eq!(time, at(9));
            let info = span_info.unwrap();
            assert_eq!((info.span_id, info.trace_id), ([2; 8], [1; 16]));
            assert_eq!((info.duration_ns, info.idle_ns, info.busy_ns), (50, 10, 30));
            assert_eq!(parent_span_id, Some([6; 8]));
            assert_eq!(target, "app");
        }
        _ => panic!("a span is sent"),
    }
}

#[test]
fn closed_span_without_state_tells_the_present_time() {
    let event: Event<Never> = on_close(None, None, meta("app"), 150, at(99));
    match event {
        Event::Span { data, time, span_info, parent_span_id, .. } => {
            assert!(data.is_none());
            assert_eq!(time, at(99));
            assert!(span_info.is_none());
            assert!(parent_span_id.is_none());
        }
        _ => panic!("a span is sent"),
    }
}

#[test]
fn dropped_events_are_complained_about() {
    assert_eq!(drop_message(Enqueued::Accepted), None);
    assert_eq!(drop_message(Enqueued::Closed), Some("queue closed. dropping event"));
    assert_eq!(drop_message(Enqueued::Full), Some("queue full. dropping event"));
}
