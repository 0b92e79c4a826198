use tracing_axiom::event::{event_object, Event, Node};
use tracing_axiom::frame::{Compressor, FrameEncoder};
use tracing_axiom::ndjson::{
    encode_evt_line, is_oversized, line_outcome, warn_json_dump, write_ndjson_line, BatchCtl,
    CountWrite, EventText, TruncWrite, NDJSON_LINE_LEN_MAX, WARN_JSON_LEN_MAX, WARN_JSON_SUFFIX,
};
use tracing_axiom::value::Value;

struct TestEvt {
    seq: u64,
    payload: Option<String>,
}

/// The JSON text of a custom event as the service sends it.
fn evt_json(service_name: &str, evt: TestEvt) -> Vec<u8> {
    let object = event_object(service_name, Event::Extra(evt)).unwrap();
    let evt = object.extra.unwrap();
    let mut map = serde_json::Map::new();
    for (key, node) in object.members {
        let mut inner = serde_json::Map::new();
        match node {
            Node::Object(entries) => {
                for (key, value) in entries {
                    match value {
                        Value::String(s) => {
                            inner.insert(key, serde_json::Value::String(s));
                        }
                        _ => unreachable!(),
                    }
                }
            }
            Node::Leaf(_) => unreachable!(),
        }
        map.insert(key, serde_json::Value::Object(inner));
    }
    map.insert("seq".to_string(), serde_json::Value::from(evt.seq));
    if let Some(payload) = evt.payload {
        map.insert("payload".to_string(), serde_json::Value::String(payload));
    }
    serde_json::to_vec(&serde_json::Value::Object(map)).unwrap()
}

fn decode(frame: &[u8]) -> Vec<u8> {
    zstd::stream::decode_all(frame).unwrap()
}

#[test]
fn ndjson_line_len_counts_bytes() {
    let json = evt_json("test-service", TestEvt { seq: 7, payload: None });
    let mut compressor = Compressor::try_create().unwrap();
    let mut encoder = FrameEncoder::begin(&mut compressor);

    let bytes_line = write_ndjson_line(&mut encoder, &json).unwrap();
    let buf = decode(&encoder.finish().unwrap());

    assert_eq!(bytes_line, buf.len());
    assert_eq!(buf.last(), Some(&b'\n'));
}

#[test]
fn ndjson_line_is_the_text_and_a_newline() {
    let mut compressor = Compressor::try_create().unwrap();
    let mut encoder = FrameEncoder::begin(&mut compressor);
    assert_eq!(write_ndjson_line(&mut encoder, b"{\"a\":1}").unwrap(), 8);
    assert_eq!(write_ndjson_line(&mut encoder, b"").unwrap(), 1);
    assert_eq!(decode(&encoder.finish().unwrap()), b"{\"a\":1}\n\n");
}

#[test]
fn adding_nothing_succeeds() {
    let mut compressor = Compressor::try_create().unwrap();
    let mut encoder = FrameEncoder::begin(&mut compressor);
    assert!(encoder.write_all(b"").is_ok());
    encoder.write_all(b"ab").unwrap();
    assert!(encoder.write_all(b"").is_ok());
    let mut writer = CountWrite { inner: &mut encoder, bytes: 2 };
    assert!(writer.write(b"").is_ok());
    assert_eq!(writer.bytes, 2);
    assert!(writer.write(b"cde").is_ok());
    assert_eq!(writer.bytes, 5);
    assert_eq!(decode(&encoder.finish().unwrap()), b"abcde");
}

#[test]
fn abandoned_frame_leaves_nothing_behind() {
    let mut compressor = Compressor::try_create().unwrap();
    {
        let mut encoder = FrameEncoder::begin(&mut compressor);
        encoder.write_all(&[b'x'; 300_000]).unwrap();
    }
    let mut encoder = FrameEncoder::begin(&mut compressor);
    encoder.write_all(b"fresh").unwrap();
    let frame = encoder.finish().unwrap();
    assert_ne!(frame, b"fresh");
    assert_eq!(decode(&frame), b"fresh");
}

#[test]
fn warn_json_dump_truncates_without_large_alloc() {
    let payload = "x".repeat(WARN_JSON_LEN_MAX * 2);
    let json = evt_json("test-service", TestEvt { seq: 7, payload: Some(payload) });
    let mut buf = Vec::with_capacity(WARN_JSON_LEN_MAX);

    {
        let (dump, trunc) = warn_json_dump(&mut buf, &json);

        assert!(trunc);
        assert_eq!(dump.len(), WARN_JSON_LEN_MAX);
        assert!(dump.ends_with(WARN_JSON_SUFFIX));
    }
    assert_eq!(buf.len(), WARN_JSON_LEN_MAX);
    assert!(buf.ends_with(WARN_JSON_SUFFIX.as_bytes()));
}

#[test]
fn warn_json_dump_clears_reused_buf() {
    let json = evt_json("test-service", TestEvt { seq: 7, payload: None });
    let mut buf = b"stale-bytes".to_vec();

    {
        let (dump, trunc) = warn_json_dump(&mut buf, &json);
        assert!(!trunc);
        assert!(!dump.contains("stale-bytes"));
    }
    assert!(!std::str::from_utf8(&buf).unwrap().contains("stale-bytes"));
    assert!(!buf.windows("stale-bytes".len()).any(|s| s == b"stale-bytes"));
    assert_eq!(buf, json);
}

#[test]
fn warn_json_dump_cuts_at_whole_characters() {
    // The limit is 2034 bytes; the character that straddles it goes as a whole.
    let mut json = vec![b'a'; 2033];
    json.extend_from_slice("\u{e9}".as_bytes());
    let mut buf = Vec::new();
    let (dump, trunc) = warn_json_dump(&mut buf, &json);
    assert!(trunc);
    assert_eq!(dump, format!("{}{}", "a".repeat(2033), WARN_JSON_SUFFIX));
    assert_eq!(buf.len(), 2047);
}

#[test]
fn warn_json_dump_at_the_limit_is_whole() {
    let json = vec![b'a'; 2034];
    let mut buf = Vec::new();
    let (dump, trunc) = warn_json_dump(&mut buf, &json);
    assert!(!trunc);
    assert_eq!(dump.len(), 2034);
    let json = vec![b'a'; 2035];
    let (dump, trunc) = warn_json_dump(&mut buf, &json);
    assert!(trunc);
    assert_eq!(dump.len(), WARN_JSON_LEN_MAX);
}

#[test]
fn warn_json_dump_keeps_the_valid_part() {
    let mut buf = Vec::new();
    let (dump, trunc) = warn_json_dump(&mut buf, b"ab\xffcd");
    assert_eq!(dump, "ab");
    assert!(!trunc);
}

#[test]
fn trunc_write_does_not_depend_on_chunks() {
    let mut whole = Vec::new();
    let mut w = TruncWrite::new(&mut whole, 5);
    assert_eq!(w.write(b"abcdefg"), 7);
    assert!(w.trunc);

    let mut parts = Vec::new();
    let mut w = TruncWrite::new(&mut parts, 5);
    assert_eq!(w.write(b"abc"), 3);
    assert!(!w.trunc);
    assert_eq!(w.write(b"de"), 2);
    assert!(!w.trunc);
    assert_eq!(w.write(b""), 0);
    assert!(!w.trunc);
    assert_eq!(w.write(b"fg"), 2);
    assert!(w.trunc);
    assert_eq!(parts, b"abcde");
    assert_eq!(whole, parts);
}

#[test]
fn event_that_cannot_be_serialized_drops_the_batch() {
    let mut compressor = Compressor::try_create().unwrap();
    let mut encoder = FrameEncoder::begin(&mut compressor);
    let mut buf = Vec::new();
    let evt = EventText { json: None, again: None };
    let outcome = encode_evt_line(&mut encoder, &mut buf, &evt, 1);
    assert!(outcome.err.is_none());
    assert_eq!(outcome.ctl, BatchCtl::DropBatch);
    assert!(outcome.warning.is_none());
}

#[test]
fn oversized_line_is_kept_and_reported() {
    let mut compressor = Compressor::try_create().unwrap();
    let mut encoder = FrameEncoder::begin(&mut compressor);
    let mut buf = Vec::new();

    let json = vec![b'y'; NDJSON_LINE_LEN_MAX - 1];
    assert!(!is_oversized(&json));
    let evt = EventText { json: Some(json), again: None };
    let outcome = encode_evt_line(&mut encoder, &mut buf, &evt, 1);
    assert_eq!(outcome.ctl, BatchCtl::Continue);
    assert!(outcome.warning.is_none());

    let json = vec![b'y'; NDJSON_LINE_LEN_MAX];
    assert!(is_oversized(&json));
    let evt = EventText { json: Some(json.clone()), again: Some(json) };
    let outcome = encode_evt_line(&mut encoder, &mut buf, &evt, 2);
    assert!(outcome.err.is_none());
    assert_eq!(outcome.ctl, BatchCtl::Continue);
    let warning = outcome.warning.unwrap();
    assert_eq!(warning.len, 1_048_577);
    assert_eq!(warning.bytes_limit, 1_048_576);
    assert_eq!(warning.evts_count, 2);
    let dump = warning.dump.unwrap();
    assert!(dump.event_json_was_truncated);
    assert_eq!(dump.event_json_truncated.len(), 2048);
    assert_eq!(decode(&encoder.finish().unwrap()).len(), 2 * NDJSON_LINE_LEN_MAX + 1);
}

#[test]
fn dump_is_of_the_text_serialized_again() {
    let mut buf = b"before".to_vec();
    let again = Some(b"{\"n\":2}".to_vec());
    let warning = line_outcome(Ok(2_000_000), &mut buf, &again, 1).warning.unwrap();
    assert_eq!(warning.len, 2_000_000);
    let dump = warning.dump.unwrap();
    assert_eq!(dump.event_json_truncated, "{\"n\":2}");
    assert!(!dump.event_json_was_truncated);
    assert_eq!(buf, b"{\"n\":2}");

    let outcome = line_outcome(Ok(2_000_000), &mut buf, &None, 1);
    assert_eq!(outcome.ctl, BatchCtl::Continue);
    assert!(outcome.warning.unwrap().dump.is_none());
    assert!(buf.is_empty());
}

#[test]
fn failed_dump_leaves_nothing_stale() {
    let mut compressor = Compressor::try_create().unwrap();
    let mut encoder = FrameEncoder::begin(&mut compressor);
    let mut buf = vec![b's'; 3 * WARN_JSON_LEN_MAX];

    let evt = EventText { json: Some(b"{}".to_vec()), again: None };
    let outcome = encode_evt_line(&mut encoder, &mut buf, &evt, 1);
    assert!(outcome.warning.is_none());
    assert_eq!(buf, vec![b's'; 3 * WARN_JSON_LEN_MAX]);

    let evt = EventText { json: Some(vec![b'y'; NDJSON_LINE_LEN_MAX]), again: None };
    let outcome = encode_evt_line(&mut encoder, &mut buf, &evt, 2);
    assert_eq!(outcome.ctl, BatchCtl::Continue);
    assert!(outcome.warning.unwrap().dump.is_none());
    assert!(buf.is_empty());
    assert_eq!(decode(&encoder.finish().unwrap()).len(), 3 + NDJSON_LINE_LEN_MAX + 1);
}

#[test]
fn failed_write_drops_the_batch() {
    let mut buf = Vec::new();
    let full = std::io::Error::new(std::io::ErrorKind::Other, "full");
    let outcome = line_outcome(Err(full), &mut buf, &None, 3);
    assert_eq!(outcome.ctl, BatchCtl::DropBatch);
    assert!(outcome.warning.is_none());
    assert_eq!(outcome.err.unwrap().to_string(), "full");
    let outcome = line_outcome(Ok(3), &mut buf, &None, 3);
    assert_eq!(outcome.ctl, BatchCtl::Continue);
    assert!(outcome.err.is_none());
}
