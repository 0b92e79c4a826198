use std::collections::VecDeque;

use tracing_axiom::batch::{CollectEvent, Collector, Next};
use tracing_axiom::blob::{
    closed_events, closed_metrics, event_blob, export_time, finish_metrics, metric_blob,
    resource_attrs, BatchBlob, EventBatch, MetricBatch, ResponseKind,
};
use tracing_axiom::frame::Compressor;
use tracing_axiom::ndjson::{EventText, NDJSON_LINE_LEN_MAX};
use tracing_axiom::pool::{PollRound, SenderSlotState, Wake};
use tracing_axiom::send::{
    judge_reply, request_headers, IngestFailure, IngestStatus, Outcome, PartialSuccess, Reply,
    Report, RequestError, RetryErrKind, SendNext, SendState, Verdict, INITIAL_BACKOFF_NS,
    MAX_RETRY_ELAPSED_NS,
};

#[derive(Clone, Copy)]
enum StubResp {
    Http200,
    Http400,
    Http500,
    NoConnection,
    Partial,
    BadJson,
}

#[derive(Debug, PartialEq)]
struct ReqObs {
    start_seq: u64,
    evts: usize,
}

fn status(failed: u64, ingested: u64, failures: Vec<IngestFailure>) -> IngestStatus {
    IngestStatus {
        failed,
        ingested,
        processed_bytes: 0,
        blocks_created: None,
        failures,
        wal_length: None,
    }
}

fn boom() -> IngestFailure {
    IngestFailure { error: "boom".to_string(), timestamp: "2026-03-19T00:00:00Z".to_string() }
}

fn respond(resp: StubResp, evts: usize) -> Outcome {
    match resp {
        StubResp::Http200 => Outcome::Replied(Reply::Ingest(Some(status(0, evts as u64, vec![])))),
        StubResp::Http400 => {
            Outcome::Failed(RequestError { connect: false, status: Some(400) })
        }
        StubResp::Http500 => {
            Outcome::Failed(RequestError { connect: false, status: Some(500) })
        }
        StubResp::NoConnection => Outcome::Failed(RequestError { connect: true, status: None }),
        StubResp::Partial => Outcome::Replied(Reply::Ingest(Some(status(
            1,
            (evts as u64).saturating_sub(1),
            vec![boom()],
        )))),
        StubResp::BadJson => Outcome::Replied(Reply::Ingest(None)),
    }
}

fn evt_json(seq: u64) -> Vec<u8> {
    format!("{{\"service\":{{\"name\":\"test-service\"}},\"seq\":{}}}", seq).into_bytes()
}

fn text(json: Vec<u8>) -> EventText {
    EventText { json: Some(json), again: None }
}

fn bad() -> EventText {
    EventText { json: None, again: None }
}

fn good(count: u64) -> Vec<EventText> {
    (0..count).map(|seq| text(evt_json(seq))).collect()
}

fn decode_req(blob: &BatchBlob) -> ReqObs {
    let body = zstd::stream::decode_all(blob.body.as_ref()).unwrap();
    let mut start_seq = None;
    let mut evts = 0usize;
    for line in body.split(|byte| *byte == b'\n') {
        if line.is_empty() {
            continue;
        }
        let evt: serde_json::Value = serde_json::from_slice(line).unwrap();
        start_seq.get_or_insert(evt["seq"].as_u64().unwrap());
        evts += 1;
    }
    ReqObs { start_seq: start_seq.unwrap(), evts }
}

/// Makes the attempts that a batch is owed and returns what was decided after the last.
fn deliver(blob: &BatchBlob, resps: &mut VecDeque<StubResp>, reqs: &mut Vec<ReqObs>) -> SendNext {
    let mut state = SendState::new();
    let mut elapsed = 0u128;
    let mut backoff = INITIAL_BACKOFF_NS;
    loop {
        state.begin_attempt();
        let resp = resps.pop_front().unwrap_or(StubResp::Http200);
        let req = decode_req(blob);
        let outcome = respond(resp, req.evts);
        if !matches!(resp, StubResp::NoConnection) {
            reqs.push(req);
        }
        match state.step(&outcome, elapsed) {
            SendNext::Wait(_, pause) => {
                elapsed += pause;
                backoff = backoff * 3 / 2;
                state.grow(backoff);
            }
            next => return next,
        }
    }
}

/// Feeds all events through a coordinator and a pool of one, and closes the queue after them.
fn ingest(
    evts: Vec<EventText>,
    collect_target: usize,
    resps: Vec<StubResp>,
) -> (Vec<ReqObs>, Vec<SendNext>) {
    let mut queue: VecDeque<EventText> = evts.into_iter().collect();
    let mut resps: VecDeque<StubResp> = resps.into_iter().collect();
    let mut reqs = Vec::new();
    let mut ends = Vec::new();
    let mut slot: SenderSlotState<BatchBlob> = SenderSlotState::new();
    let mut compressor = Compressor::try_create().unwrap();
    let mut buf_warn_json = Vec::new();
    loop {
        let mut batch = EventBatch::begin(&mut compressor, collect_target);
        let next = loop {
            let read = batch.limit().min(queue.len());
            let next = if read == 0 {
                batch.closed()
            } else {
                let chunk: Vec<EventText> = queue.drain(..read).collect();
                batch.receive(&chunk, &mut buf_warn_json).next
            };
            match next {
                Next::Receive { limit, restart_timer } => {
                    assert_eq!(limit, batch.limit());
                    assert!(!restart_timer);
                }
                next => break next,
            }
        };
        match next {
            Next::Send => {
                slot.publish(batch.finish().unwrap());
                match slot.take() {
                    Wake::Send(blob) => ends.push(deliver(&blob, &mut resps, &mut reqs)),
                    Wake::Exit => panic!("a batch was published"),
                }
                assert!(!slot.stops_after_send());
            }
            Next::DropBatch => {}
            Next::Shutdown => break,
            Next::Receive { .. } => unreachable!(),
        }
    }
    slot.close();
    assert!(matches!(slot.take(), Wake::Exit));
    (reqs, ends)
}

#[test]
fn ingest_shutdown_flushes_partial_batch() {
    let (reqs, _) = ingest(good(3), 4, vec![]);
    assert_eq!(reqs.len(), 1);
    assert_eq!(reqs[0].start_seq, 0);
    assert_eq!(reqs[0].evts, 3);
}

#[test]
fn ingest_drops_bad_batch_and_keeps_running() {
    let evts = vec![text(evt_json(0)), bad(), text(evt_json(2)), text(evt_json(3))];
    let (reqs, _) = ingest(evts, 2, vec![]);
    assert_eq!(reqs.len(), 1);
    assert_eq!(reqs[0].start_seq, 2);
    assert_eq!(reqs[0].evts, 2);
}

#[test]
fn ingest_sender_pool_1_preserves_request_order() {
    let (reqs, _) = ingest(good(4), 2, vec![]);
    assert_eq!(reqs.len(), 2);
    assert_eq!(reqs[0].start_seq, 0);
    assert_eq!(reqs[1].start_seq, 2);
}

#[test]
fn ingest_retry_holds_sender_slot() {
    let (reqs, _) = ingest(good(2), 1, vec![StubResp::Http500]);
    assert_eq!(reqs.iter().map(|req| req.start_seq).collect::<Vec<_>>(), vec![0, 0, 1]);
}

#[test]
fn ingest_http_400_does_not_retry() {
    let (reqs, ends) = ingest(good(1), 1, vec![StubResp::Http400]);
    assert_eq!(reqs.len(), 1);
    assert_eq!(reqs[0].start_seq, 0);
    assert_eq!(ends, vec![SendNext::Finish(Verdict::Rejected)]);
}

#[test]
fn ingest_partial_does_not_retry() {
    let (reqs, ends) = ingest(good(1), 1, vec![StubResp::Partial]);
    assert_eq!(reqs.len(), 1);
    assert_eq!(reqs[0].start_seq, 0);
    assert_eq!(
        ends,
        vec![SendNext::Finish(Verdict::Delivered(Report::PartialIngest {
            failed: 1,
            ingested: 0
        }))]
    );
}

#[test]
fn ingest_http_500_retries() {
    let (reqs, ends) = ingest(good(1), 1, vec![StubResp::Http500]);
    assert_eq!(reqs.len(), 2);
    assert_eq!(reqs[0].start_seq, 0);
    assert_eq!(reqs[1].start_seq, 0);
    assert_eq!(ends, vec![SendNext::Finish(Verdict::Delivered(Report::Clean))]);
}

#[test]
fn ingest_connect_retries() {
    let (reqs, _) =
        ingest(good(1), 1, vec![StubResp::NoConnection, StubResp::NoConnection]);
    assert_eq!(reqs.len(), 1);
    assert_eq!(reqs[0].start_seq, 0);
}

#[test]
fn ingest_malformed_success_body_does_not_retry() {
    let (reqs, ends) = ingest(good(1), 1, vec![StubResp::BadJson]);
    assert_eq!(reqs.len(), 1);
    assert_eq!(reqs[0].start_seq, 0);
    assert_eq!(ends, vec![SendNext::Finish(Verdict::Delivered(Report::BadIngestBody))]);
}

#[test]
fn ingest_gives_up_at_the_deadline() {
    let (reqs, ends) = ingest(good(1), 1, vec![StubResp::Http500; 100]);
    // Nine waits of 200, 300, 450, ... milliseconds, the last cut short, fill ten seconds.
    assert_eq!(reqs.len(), 10);
    let kind = RetryErrKind::HttpStatus(500);
    assert_eq!(ends, vec![SendNext::GiveUp(Verdict::Retry { kind, repeated: true })]);
}

#[test]
fn warnings_before_a_bad_event_are_given() {
    let mut compressor = Compressor::try_create().unwrap();
    let mut buf = Vec::new();
    let mut batch = EventBatch::begin(&mut compressor, 4);
    let long = vec![b'z'; NDJSON_LINE_LEN_MAX];
    let chunk = vec![text(long.clone()), bad(), text(long)];
    let received = batch.receive(&chunk, &mut buf);
    assert_eq!(received.next, Next::DropBatch);
    assert!(received.err.is_none());
    assert_eq!(received.warnings.len(), 1);
    assert_eq!(received.warnings[0].evts_count, 3);
    assert!(received.warnings[0].dump.is_none());
    assert!(buf.is_empty());
}

#[test]
fn slots_hold_a_batch_each() {
    // Two senders hold a batch each before either has sent its own.
    let mut slots: Vec<SenderSlotState<u64>> =
        vec![SenderSlotState::new(), SenderSlotState::new()];
    let mut in_flight = 0usize;
    for (seq, slot) in slots.iter_mut().enumerate() {
        slot.publish(seq as u64);
        match slot.take() {
            Wake::Send(blob) => {
                assert_eq!(blob, seq as u64);
                in_flight += 1;
            }
            Wake::Exit => panic!("a batch was published"),
        }
        assert!(!slot.stops_after_send());
    }
    assert!(in_flight >= 2);
}

#[test]
fn busy_sender_keeps_the_next_batch_waiting() {
    // A queue of one, batches of one, and one sender that never gets done.
    let mut queue: VecDeque<u64> = VecDeque::new();
    let mut held: Option<u64> = None;
    let mut idle: VecDeque<usize> = VecDeque::from([0]);
    let mut slot: SenderSlotState<u64> = SenderSlotState::new();
    let mut accepted = Vec::new();
    for seq in 0..4u64 {
        if queue.is_empty() {
            queue.push_back(seq);
            accepted.push(seq);
        }
        if held.is_none() {
            held = queue.pop_front();
        }
        if let Some(batch) = held {
            if idle.pop_front().is_some() {
                slot.publish(batch);
                held = None;
                assert!(matches!(slot.take(), Wake::Send(_)));
            }
        }
    }
    assert_eq!(accepted, vec![0, 1, 2]);
    assert!(slot.blob.is_none());
}

#[test]
fn closed_slot_hands_out_its_batch_first() {
    let mut slot: SenderSlotState<u64> = SenderSlotState::new();
    slot.publish(5);
    slot.close();
    assert!(matches!(slot.take(), Wake::Send(5)));
    assert!(slot.stops_after_send());
    assert!(matches!(slot.take(), Wake::Exit));
}

#[test]
fn senders_are_polled_until_all_are_done() {
    let mut round = PollRound::new(3);
    round.begin();
    assert_eq!(round.next(), Some(0));
    round.record(false);
    assert_eq!(round.next(), Some(1));
    round.record(true);
    assert_eq!(round.next(), Some(2));
    round.record(true);
    assert_eq!(round.next(), None);
    assert!(!round.finished());
    round.begin();
    assert_eq!(round.next(), Some(0));
    round.record(true);
    assert_eq!(round.next(), None);
    assert!(round.finished());
    let mut nobody = PollRound::new(0);
    assert_eq!(nobody.next(), None);
    assert!(nobody.finished());
}

#[test]
fn collector_decides() {
    let mut collector = Collector::new(3);
    assert_eq!(collector.limit(), 3);
    assert_eq!(
        collector.step(CollectEvent::Elapsed),
        Next::Receive { limit: 3, restart_timer: true }
    );
    assert_eq!(
        collector.step(CollectEvent::Received { read: 2, encoded: true }),
        Next::Receive { limit: 1, restart_timer: false }
    );
    assert_eq!(collector.len(), 2);
    assert_eq!(collector.step(CollectEvent::Elapsed), Next::Send);
    let mut collector = Collector::new(3);
    assert_eq!(
        collector.step(CollectEvent::Received { read: 3, encoded: true }),
        Next::Send
    );
    let mut collector = Collector::new(3);
    collector.step(CollectEvent::Received { read: 1, encoded: true });
    assert_eq!(collector.step(CollectEvent::Closed), Next::Send);
    let mut collector = Collector::new(3);
    assert_eq!(collector.step(CollectEvent::Closed), Next::Shutdown);
    assert_eq!(
        collector.step(CollectEvent::Received { read: 1, encoded: false }),
        Next::DropBatch
    );
    assert_eq!(collector.len(), 0);
}

#[test]
fn timeout_sends_what_is_there() {
    let mut compressor = Compressor::try_create().unwrap();
    let mut buf = Vec::new();
    let mut batch = EventBatch::begin(&mut compressor, 4);
    assert_eq!(batch.elapsed(), Next::Receive { limit: 4, restart_timer: true });
    batch.receive(&good(1), &mut buf);
    assert_eq!(batch.elapsed(), Next::Send);
    let blob = batch.finish().unwrap();
    assert_eq!(blob.items_count, 1);
    assert_eq!(decode_req(&blob), ReqObs { start_seq: 0, evts: 1 });
}

#[test]
fn oversized_events_are_sent_with_a_warning() {
    let mut compressor = Compressor::try_create().unwrap();
    let mut buf = b"before".to_vec();
    let mut batch = EventBatch::begin(&mut compressor, 3);
    let long = vec![b'z'; NDJSON_LINE_LEN_MAX];
    let chunk =
        vec![text(evt_json(0)), EventText { json: Some(long.clone()), again: Some(long) }];
    let received = batch.receive(&chunk, &mut buf);
    assert_eq!(received.next, Next::Receive { limit: 1, restart_timer: false });
    assert_eq!(received.warnings.len(), 1);
    assert_eq!(received.warnings[0].evts_count, 2);
    assert_eq!(received.warnings[0].len, NDJSON_LINE_LEN_MAX + 1);
    let dump = received.warnings[0].dump.as_ref().unwrap();
    assert_eq!(buf, dump.event_json_truncated.as_bytes());
    assert_eq!(batch.closed(), Next::Send);
    let blob = batch.finish().unwrap();
    assert_eq!(blob.items_count, 2);
    let body = zstd::stream::decode_all(blob.body.as_ref()).unwrap();
    assert_eq!(body.len(), evt_json(0).len() + 1 + NDJSON_LINE_LEN_MAX + 1);
}

fn header<'a>(headers: &'a [(&'static str, String)], name: &str) -> Option<&'a str> {
    headers.iter().find(|h| h.0 == name).map(|h| h.1.as_str())
}

#[test]
fn metrics_ingest_sends_protobuf_zstd_with_axiom_headers() {
    let mut batch: MetricBatch<(String, i64)> = MetricBatch::begin(4);
    let mut chunk = vec![("test.metric".to_string(), 42)];
    assert_eq!(batch.receive(&mut chunk), Next::Receive { limit: 3, restart_timer: false });
    assert_eq!(batch.closed(), Next::Send);
    let mets = batch.into_metrics();
    assert_eq!(mets, vec![("test.metric".to_string(), 42)]);

    let attrs = resource_attrs("test-service");
    assert_eq!(attrs, vec![("service.name", "test-service".to_string())]);

    let export = b"\x0a\x0btest.metric".to_vec();
    let mut compressor = Compressor::try_create().unwrap();
    let blob = finish_metrics(&mut compressor, &export, mets.len(), "test".to_string()).unwrap();
    assert_eq!(zstd::stream::decode_all(blob.body.as_ref()).unwrap(), export);
    assert_eq!(blob.items_count, 1);
    assert_eq!(blob.response_kind, ResponseKind::MetricsExport);
    let headers = request_headers("Bearer test-key", &blob);
    assert_eq!(header(&headers, "X-Axiom-Dataset"), Some("test"));
    assert_eq!(header(&headers, "content-type"), Some("application/x-protobuf"));
    assert_eq!(header(&headers, "content-encoding"), Some("zstd"));
    assert_eq!(header(&headers, "authorization"), Some("Bearer test-key"));
}

#[test]
fn metrics_shutdown_flushes_partial_batch() {
    let mut batch: MetricBatch<String> = MetricBatch::begin(4);
    let mut chunk: Vec<String> = (0..3).map(|seq| format!("test.metric.{}", seq)).collect();
    batch.receive(&mut chunk);
    assert!(chunk.is_empty());
    assert_eq!(batch.limit(), 1);
    assert_eq!(batch.closed(), Next::Send);
    let mets = batch.into_metrics();
    assert_eq!(mets.len(), 3);
    assert_eq!(mets[0], "test.metric.0");
    let mut empty: MetricBatch<String> = MetricBatch::begin(4);
    assert_eq!(empty.elapsed(), Next::Receive { limit: 4, restart_timer: true });
    assert_eq!(empty.closed(), Next::Shutdown);
}

#[test]
fn blobs_differ_by_kind() {
    let blob = event_blob(b"frame".to_vec(), 7);
    assert_eq!(blob.body.as_ref(), b"frame");
    assert_eq!(blob.items_count, 7);
    assert_eq!(blob.response_kind, ResponseKind::IngestStatus);
    let headers = request_headers("Bearer k", &blob);
    let names: Vec<&str> = headers.iter().map(|h| h.0).collect();
    assert_eq!(names, vec!["authorization", "content-type", "content-encoding"]);
    assert_eq!(header(&headers, "content-type"), Some("application/json"));
    let blob = metric_blob(b"m".to_vec(), 1, "d".to_string());
    assert_eq!(blob.body.as_ref(), b"m");
    assert_eq!(request_headers("Bearer k", &blob).len(), 4);
}

#[test]
fn frame_that_cannot_be_closed_makes_no_blob() {
    let failed = || std::io::Error::new(std::io::ErrorKind::Other, "out of memory");
    let err = closed_events(Err(failed()), 2).err().unwrap();
    assert_eq!(err.to_string(), "out of memory");
    let err = closed_metrics(Err(failed()), 2, "d".to_string()).err().unwrap();
    assert_eq!(err.to_string(), "out of memory");
    let blob = closed_events(Ok(b"frame".to_vec()), 2).unwrap();
    assert_eq!(blob.body.as_ref(), b"frame");
    assert_eq!((blob.items_count, blob.content_type), (2, "application/json"));
    let blob = closed_metrics(Ok(b"frame".to_vec()), 3, "d".to_string()).unwrap();
    assert_eq!(blob.body.as_ref(), b"frame");
    assert_eq!((blob.items_count, blob.content_type), (3, "application/x-protobuf"));
    assert_eq!(blob.axiom_dataset.as_deref(), Some("d"));
}

#[test]
fn export_time_wraps() {
    assert_eq!(export_time(1_700_000_000_000_000_000), 1_700_000_000_000_000_000);
    assert_eq!(export_time(-1), u64::MAX);
    assert_eq!(export_time(1i128 << 64), 0);
    assert_eq!(export_time(i128::MIN), 0);
}

#[test]
fn replies_are_judged() {
    let metrics = |n: i64, message: &str| {
        Reply::Metrics(Some(Some(PartialSuccess {
            rejected_data_points: n,
            error_message: message.to_string(),
        })))
    };
    assert_eq!(judge_reply(&Reply::Ingest(Some(status(0, 3, vec![])))), Report::Clean);
    assert_eq!(
        judge_reply(&Reply::Ingest(Some(status(0, 3, vec![boom()])))),
        Report::PartialIngest { failed: 0, ingested: 3 }
    );
    assert_eq!(
        judge_reply(&Reply::Ingest(Some(status(2, 1, vec![])))),
        Report::PartialIngest { failed: 2, ingested: 1 }
    );
    assert_eq!(judge_reply(&Reply::Ingest(None)), Report::BadIngestBody);
    assert_eq!(judge_reply(&Reply::Metrics(None)), Report::BadMetricsBody);
    assert_eq!(judge_reply(&Reply::Metrics(Some(None))), Report::Clean);
    assert_eq!(judge_reply(&metrics(0, "")), Report::Clean);
    assert_eq!(
        judge_reply(&metrics(1, "")),
        Report::PartialMetrics { rejected_data_points: 1 }
    );
    assert_eq!(
        judge_reply(&metrics(-1, "odd")),
        Report::MetricsWarning { rejected_data_points: -1 }
    );
}

#[test]
fn only_transient_failures_are_retried() {
    let kind = |connect: bool, status: Option<u16>| RequestError { connect, status }.kind();
    assert_eq!(kind(true, None), Some(RetryErrKind::Transport));
    assert_eq!(kind(true, Some(404)), Some(RetryErrKind::Transport));
    assert_eq!(kind(false, None), None);
    assert_eq!(kind(false, Some(499)), None);
    assert_eq!(kind(false, Some(500)), Some(RetryErrKind::HttpStatus(500)));
    assert_eq!(kind(false, Some(599)), Some(RetryErrKind::HttpStatus(599)));
    assert_eq!(kind(false, Some(600)), None);
}

#[test]
fn repeated_failures_are_told_apart_from_new_ones() {
    let failed = |status: u16| {
        Outcome::Failed(RequestError { connect: false, status: Some(status) })
    };
    let mut state = SendState::new();
    assert_eq!(state.begin_attempt(), 0);
    let kind = RetryErrKind::HttpStatus(500);
    assert_eq!(
        state.step(&failed(500), 0),
        SendNext::Wait(Verdict::Retry { kind, repeated: false }, 200_000_000)
    );
    state.grow(300_000_000);
    assert_eq!(state.begin_attempt(), 1);
    assert_eq!(
        state.step(&failed(500), 250_000_000),
        SendNext::Wait(Verdict::Retry { kind, repeated: true }, 300_000_000)
    );
    let kind = RetryErrKind::HttpStatus(503);
    assert_eq!(
        state.step(&failed(503), 250_000_000),
        SendNext::Wait(Verdict::Retry { kind, repeated: false }, 300_000_000)
    );
    assert_eq!(state.step(&Outcome::BodyLost, 0), SendNext::Finish(Verdict::BodyLost));
}

#[test]
fn waiting_ends_at_the_deadline() {
    let failed = Outcome::Failed(RequestError { connect: true, status: None });
    let pause = |elapsed: u128| match SendState::new().step(&failed, elapsed) {
        SendNext::Wait(_, pause) => Some(pause),
        _ => None,
    };
    assert_eq!(pause(0), Some(INITIAL_BACKOFF_NS));
    assert_eq!(pause(9_800_000_000), Some(200_000_000));
    assert_eq!(pause(9_900_000_000), Some(100_000_000));
    assert_eq!(pause(MAX_RETRY_ELAPSED_NS - 1), Some(1));
    assert_eq!(pause(MAX_RETRY_ELAPSED_NS), None);
    assert_eq!(pause(MAX_RETRY_ELAPSED_NS + 1), None);
}
