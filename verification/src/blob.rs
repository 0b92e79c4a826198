//! Batches of events and metrics, and the request bodies they end up in.
use vstd::prelude::*;

use crate::batch::{all_some, collect_next, some_values, CollectEvent, Collector, Feed, Next};
use crate::frame::{frame_broken, frame_input, zstd_decoded, Compressor, FrameEncoder};
use crate::ndjson::{
    encode_evt_line, ndjson, ndjson_line, opt_bytes, oversized, BatchCtl, EventText, LineWarning,
    WARN_JSON_LEN_MAX,
};

verus! {

/// A shared byte buffer, cheap to hand out again for each attempt to send it.
#[verifier::external_type_specification]
#[verifier::external_body]
pub struct ExBytes(bytes::Bytes);

/// The bytes that a shared buffer holds.
pub uninterp spec fn bytes_content(b: bytes::Bytes) -> Seq<u8>;

/// Calls `bytes::Bytes::from` on a vector: the buffer holds the vector's bytes.
#[verifier::external_body]
fn bytes_from_vec(v: Vec<u8>) -> (r: bytes::Bytes)
    ensures
        bytes_content(r) == v@,
{
    bytes::Bytes::from(v)
}

/// How the response to a batch is read.
#[derive(Clone, Copy, Debug, PartialEq, Eq, Structural)]
pub enum ResponseKind {
    IngestStatus,
    MetricsExport,
}

/// A batch ready to be sent.
pub struct BatchBlob {
    pub body: bytes::Bytes,
    pub items_count: usize,
    pub content_type: &'static str,
    pub response_kind: ResponseKind,
    pub axiom_dataset: Option<String>,
}

/// The request body for a frame of event lines.
pub fn event_blob(frame: Vec<u8>, items_count: usize) -> (r: BatchBlob)
    ensures
        bytes_content(r.body) == frame@,
        r.items_count == items_count,
        r.content_type@ == "application/json"@,
        r.response_kind == ResponseKind::IngestStatus,
        r.axiom_dataset is None,
{
    BatchBlob {
        body: bytes_from_vec(frame),
        items_count,
        content_type: "application/json",
        response_kind: ResponseKind::IngestStatus,
        axiom_dataset: None,
    }
}

/// The request body for a frame that holds an encoded metrics export.
pub fn metric_blob(frame: Vec<u8>, items_count: usize, axiom_dataset: String) -> (r: BatchBlob)
    ensures
        bytes_content(r.body) == frame@,
        r.items_count == items_count,
        r.content_type@ == "application/x-protobuf"@,
        r.response_kind == ResponseKind::MetricsExport,
        r.axiom_dataset == Some(axiom_dataset),
{
    BatchBlob {
        body: bytes_from_vec(frame),
        items_count,
        content_type: "application/x-protobuf",
        response_kind: ResponseKind::MetricsExport,
        axiom_dataset: Some(axiom_dataset),
    }
}

impl BatchBlob {
    /// The blob posts `frame`, which holds the lines of so many events.
    pub open spec fn carries_events(&self, frame: Seq<u8>, items_count: usize) -> bool {
        &&& bytes_content(self.body) == frame
        &&& self.items_count == items_count
        &&& self.content_type@ == "application/json"@
        &&& self.response_kind == ResponseKind::IngestStatus
        &&& self.axiom_dataset is None
    }

    /// The blob posts `frame`, which holds the export of so many metrics, to a dataset.
    pub open spec fn carries_metrics(
        &self,
        frame: Seq<u8>,
        items_count: usize,
        axiom_dataset: String,
    ) -> bool {
        &&& bytes_content(self.body) == frame
        &&& self.items_count == items_count
        &&& self.content_type@ == "application/x-protobuf"@
        &&& self.response_kind == ResponseKind::MetricsExport
        &&& self.axiom_dataset == Some(axiom_dataset)
    }
}

/// What closing a frame of event lines comes to: a blob if the frame could be closed, and else
/// the reason why not.
pub fn closed_events(frame: Result<Vec<u8>, std::io::Error>, items_count: usize) -> (r: Result<
    BatchBlob,
    std::io::Error,
>)
    ensures
        match frame {
            Ok(frame) => r is Ok && r->Ok_0.carries_events(frame@, items_count),
            Err(err) => r == Err::<BatchBlob, std::io::Error>(err),
        },
{
    match frame {
        Ok(frame) => Ok(event_blob(frame, items_count)),
        Err(err) => Err(err),
    }
}

/// What closing a frame with a metrics export comes to: a blob if the frame could be written
/// and closed, and else the reason why not.
pub fn closed_metrics(
    frame: Result<Vec<u8>, std::io::Error>,
    items_count: usize,
    axiom_dataset: String,
) -> (r: Result<BatchBlob, std::io::Error>)
    ensures
        match frame {
            Ok(frame) => r is Ok && r->Ok_0.carries_metrics(frame@, items_count, axiom_dataset),
            Err(err) => r == Err::<BatchBlob, std::io::Error>(err),
        },
{
    match frame {
        Ok(frame) => Ok(metric_blob(frame, items_count, axiom_dataset)),
        Err(err) => Err(err),
    }
}

/// The JSON texts of a chunk of events, as bytes.
pub open spec fn json_views(chunk: Seq<EventText>) -> Seq<Option<Seq<u8>>> {
    chunk.map_values(|evt: EventText| opt_bytes(evt.json))
}

/// A line, and the text for the dump of it.
pub type LineView = (Seq<u8>, Option<Seq<u8>>);

/// The lines of events that have a text.
pub open spec fn line_views(chunk: Seq<EventText>) -> Seq<LineView> {
    chunk.map_values(|evt: EventText| (evt.json->0@, opt_bytes(evt.again)))
}

/// The oversized ones of `lines`, in order.
pub open spec fn oversized_lines(lines: Seq<LineView>) -> Seq<LineView> {
    lines.filter(|line: LineView| oversized(line.0))
}

/// One more line is among the oversized ones, at their end, if it is oversized.
pub proof fn oversized_push(lines: Seq<LineView>, line: LineView)
    ensures
        oversized_lines(lines.push(line)) == (if oversized(line.0) {
            oversized_lines(lines).push(line)
        } else {
            oversized_lines(lines)
        }),
{
    reveal(Seq::filter);
    assert(lines.push(line).drop_last() =~= lines);
}

/// The warnings are those about the oversized ones of `lines`, in order.
pub open spec fn warnings_about(
    warnings: Seq<LineWarning>,
    lines: Seq<LineView>,
    evts_count: usize,
) -> bool {
    let long = oversized_lines(lines);
    &&& warnings.len() == long.len()
    &&& forall|i: int|
        0 <= i < long.len() ==> (#[trigger] warnings[i]).describes(
            ndjson_line(long[i].0).len(),
            long[i].1,
            evts_count,
        )
}

/// Every oversized line gets a warning that tells of it, and every warning tells of an oversized
/// line. There are as many of them as there are such lines.
pub proof fn oversized_lines_are_warned_about(
    warnings: Seq<LineWarning>,
    lines: Seq<LineView>,
    evts_count: usize,
)
    requires
        warnings_about(warnings, lines, evts_count),
    ensures
        forall|i: int|
            0 <= i < lines.len() && (#[trigger] lines[i]).0.len() + 1 > 0x10_0000
                ==> exists|j: int|
                0 <= j < warnings.len() && (#[trigger] warnings[j]).describes(
                    lines[i].0.len() + 1,
                    lines[i].1,
                    evts_count,
                ),
        forall|j: int|
            0 <= j < warnings.len() ==> exists|i: int|
                0 <= i < lines.len() && lines[i].0.len() + 1 > 0x10_0000 && (
                #[trigger] warnings[j]).describes(
                    (#[trigger] lines[i]).0.len() + 1,
                    lines[i].1,
                    evts_count,
                ),
        warnings.len() == oversized_count(lines),
{
    let long = oversized_lines(lines);
    let pred = |line: LineView| oversized(line.0);
    assert forall|i: int| 0 <= i < lines.len() && (#[trigger] lines[i]).0.len() + 1
        > 0x10_0000 implies exists|j: int|
        0 <= j < warnings.len() && (#[trigger] warnings[j]).describes(
            lines[i].0.len() + 1,
            lines[i].1,
            evts_count,
        ) by {
        assert(pred(lines[i]));
        lines.lemma_filter_contains(pred, i);
        assert(long.contains(lines[i]));
        let j = choose|j: int| 0 <= j < long.len() && long[j] == lines[i];
        assert(warnings[j].describes(ndjson_line(long[j].0).len(), long[j].1, evts_count));
    }
    assert forall|j: int| 0 <= j < warnings.len() implies exists|i: int|
        0 <= i < lines.len() && lines[i].0.len() + 1 > 0x10_0000 && (
        #[trigger] warnings[j]).describes(
            (#[trigger] lines[i]).0.len() + 1,
            lines[i].1,
            evts_count,
        ) by {
        assert(warnings[j].describes(ndjson_line(long[j].0).len(), long[j].1, evts_count));
        lines.lemma_filter_pred(pred, j);
        assert(long.contains(long[j]));
        lines.lemma_filter_contains_rev(pred, long[j]);
        let i = choose|i: int| 0 <= i < lines.len() && lines[i] == long[j];
        assert(lines[i].0.len() + 1 > 0x10_0000);
    }
    oversized_are_counted(lines);
}

/// How many of `lines` are longer than one mebibyte with their newline.
pub open spec fn oversized_count(lines: Seq<LineView>) -> nat
    decreases lines.len(),
{
    if lines.len() == 0 {
        0
    } else {
        oversized_count(lines.drop_last()) + (if lines.last().0.len() + 1 > 0x10_0000 {
            1nat
        } else {
            0
        })
    }
}

/// The oversized lines are counted.
proof fn oversized_are_counted(lines: Seq<LineView>)
    ensures
        oversized_lines(lines).len() == oversized_count(lines),
    decreases lines.len(),
{
    if lines.len() == 0 {
        reveal(Seq::filter);
    } else {
        oversized_are_counted(lines.drop_last());
        oversized_push(lines.drop_last(), lines.last());
        assert(lines.drop_last().push(lines.last()) =~= lines);
    }
}

/// What is left in the dump buffer: what the last warning left there, if there was one.
pub open spec fn dump_left(before: Seq<u8>, warnings: Seq<LineWarning>) -> Seq<u8> {
    if warnings.len() == 0 {
        before
    } else {
        warnings.last().buffer()
    }
}

/// The last of several warnings decides what is left in the dump buffer.
pub proof fn last_dump_is_left(before: Seq<u8>, warnings: Seq<LineWarning>, warning: LineWarning)
    ensures
        dump_left(before, Seq::empty()) == before,
        dump_left(before, warnings.push(warning)) == warning.buffer(),
{
}

/// How many events of a chunk come before the first one without a text.
pub open spec fn texts_before_gap(items: Seq<Option<Seq<u8>>>) -> nat
    decreases items.len(),
{
    if items.len() == 0 || items[0] is None {
        0
    } else {
        1 + texts_before_gap(items.drop_first())
    }
}

/// An event with a text, and none without one before it, comes before the first gap.
pub proof fn text_before_gap(items: Seq<Option<Seq<u8>>>, k: int)
    requires
        0 <= k < items.len(),
        all_some(items.take(k)),
        items[k] is Some,
    ensures
        k < texts_before_gap(items),
    decreases items.len(),
{
    if k > 0 {
        assert(items.take(k)[0] is Some);
        let rest = items.drop_first();
        assert forall|j: int| 0 <= j < rest.take(k - 1).len() implies (#[trigger] rest.take(
            k - 1,
        )[j]) is Some by {
            assert(items.take(k)[j + 1] is Some);
        }
        text_before_gap(rest, k - 1);
    }
}

/// The first gap is where there is a gap and none before it.
pub proof fn gap_is_first(items: Seq<Option<Seq<u8>>>, k: int)
    requires
        0 <= k <= items.len(),
        all_some(items.take(k)),
        k < items.len() ==> items[k] is None,
    ensures
        texts_before_gap(items) == k,
    decreases items.len(),
{
    if k > 0 {
        assert(items.take(k)[0] is Some);
        let rest = items.drop_first();
        assert forall|j: int| 0 <= j < rest.take(k - 1).len() implies (#[trigger] rest.take(
            k - 1,
        )[j]) is Some by {
            assert(items.take(k)[j + 1] is Some);
        }
        gap_is_first(rest, k - 1);
    }
}

/// The events of a chunk are taken one for one and in order, each with its own texts; all have one
/// exactly if none is without.
pub proof fn chunks_are_taken_one_for_one(chunk: Seq<EventText>)
    ensures
        json_views(chunk).len() == chunk.len(),
        line_views(chunk).len() == chunk.len(),
        some_values(json_views(chunk)).len() == chunk.len(),
        all_some(json_views(chunk)) <==> !exists|i: int|
            0 <= i < chunk.len() && (#[trigger] chunk[i]).json is None,
        forall|i: int|
            0 <= i < chunk.len() && (#[trigger] chunk[i]).json is Some ==> {
                &&& json_views(chunk)[i] == Some(chunk[i].json->0@)
                &&& some_values(json_views(chunk))[i] == chunk[i].json->0@
                &&& line_views(chunk)[i].0 == chunk[i].json->0@
                &&& line_views(chunk)[i].1 is Some <==> chunk[i].again is Some
                &&& chunk[i].again is Some ==> line_views(chunk)[i].1 == Some(
                    chunk[i].again->0@,
                )
            },
{
    let items = json_views(chunk);
    assert forall|i: int| 0 <= i < chunk.len() implies (#[trigger] chunk[i]).json is None
        <==> items[i] is None by {}
    if all_some(items) {
        assert forall|i: int| 0 <= i < chunk.len() implies !((#[trigger] chunk[i]).json is None) by {
            assert(items[i] is Some);
        }
    } else {
        let i = choose|i: int| 0 <= i < items.len() && !((#[trigger] items[i]) is Some);
        assert(chunk[i].json is None);
    }
}

/// A blob is posted as what it carries: events as JSON without a dataset header, metrics as
/// protobuf with one. The replies differ accordingly.
pub proof fn blobs_are_posted_as_what_they_carry(
    blob: BatchBlob,
    frame: Seq<u8>,
    items_count: usize,
    axiom_dataset: String,
)
    ensures
        blob.carries_events(frame, items_count) ==> {
            &&& bytes_content(blob.body) == frame
            &&& blob.items_count == items_count
            &&& blob.content_type@ == "application/json"@
            &&& blob.response_kind is IngestStatus
            &&& blob.axiom_dataset is None
        },
        blob.carries_metrics(frame, items_count, axiom_dataset) ==> {
            &&& bytes_content(blob.body) == frame
            &&& blob.items_count == items_count
            &&& blob.content_type@ == "application/x-protobuf"@
            &&& blob.response_kind is MetricsExport
            &&& blob.axiom_dataset == Some(axiom_dataset)
        },
{
}

/// What came of a chunk of events.
pub struct Received {
    pub next: Next,
    /// About lines that are longer than the ingest service takes.
    pub warnings: Vec<LineWarning>,
    /// Why a line could not be written.
    pub err: Option<std::io::Error>,
}

/// A batch of events, compressed as they arrive.
pub struct EventBatch<'a> {
    encoder: FrameEncoder<'a>,
    collector: Collector,
    lines: Ghost<Seq<Seq<u8>>>,
}

impl<'a> EventBatch<'a> {
    /// The number of events that fill the batch.
    pub closed spec fn target(&self) -> usize {
        self.collector.target()
    }

    /// The JSON texts of the events in the batch, in order of arrival.
    pub closed spec fn pending(&self) -> Seq<Seq<u8>> {
        self.lines@
    }

    /// The frame is whole and holds exactly the lines of the events counted.
    pub closed spec fn wf(&self) -> bool {
        &&& self.collector.wf()
        &&& self.collector.count() == self.lines@.len()
        &&& frame_input(self.encoder) == ndjson(self.lines@)
        &&& !frame_broken(self.encoder)
    }

    /// The frame did not take a line and takes no other.
    pub closed spec fn broken(&self) -> bool {
        frame_broken(self.encoder)
    }

    /// Starts an empty batch.
    pub fn begin(compressor: &'a mut Compressor, collect_target: usize) -> (r: Self)
        requires
            collect_target > 0,
        ensures
            r.wf(),
            r.target() == collect_target,
            r.pending() == Seq::<Seq<u8>>::empty(),
    {
        EventBatch {
            encoder: FrameEncoder::begin(compressor),
            collector: Collector::new(collect_target),
            lines: Ghost(Seq::empty()),
        }
    }

    /// How many events may still be received.
    pub fn limit(&self) -> (r: usize)
        requires
            self.wf(),
        ensures
            r == self.target() - self.pending().len(),
    {
        self.collector.limit()
    }

    /// Takes in a chunk of events. The first event that cannot be encoded costs the batch: one
    /// without a text, or one whose line the frame did not take. Warnings about the lines before
    /// it are given all the same.
    pub fn receive(&mut self, chunk: &Vec<EventText>, buf_warn_json: &mut Vec<u8>) -> (r: Received)
        requires
            old(self).wf(),
            0 < chunk@.len() <= old(self).target() - old(self).pending().len(),
            forall|i: int|
                0 <= i < chunk@.len() && (#[trigger] chunk@[i]).json is Some
                    ==> chunk@[i].json->0@.len() < usize::MAX,
        ensures
            final(self).target() == old(self).target(),
            r.next == Next::DropBatch <==> !all_some(json_views(chunk@)) || r.err is Some,
            r.err is Some <==> final(self).broken(),
            r.next == Next::DropBatch && r.err is None ==> warnings_about(
                r.warnings@,
                line_views(chunk@.take(texts_before_gap(json_views(chunk@)) as int)),
                (old(self).pending().len() + chunk@.len()) as usize,
            ),
            r.err is Some ==> exists|k: int|
                0 <= k < texts_before_gap(json_views(chunk@)) && warnings_about(
                    r.warnings@,
                    line_views(#[trigger] chunk@.take(k)),
                    (old(self).pending().len() + chunk@.len()) as usize,
                ),
            r.next != Next::DropBatch ==> {
                &&& final(self).wf()
                &&& final(self).pending() == old(self).pending() + some_values(
                    json_views(chunk@),
                )
                &&& r.next == collect_next(
                    old(self).target(),
                    old(self).pending().len() as usize,
                    Feed::Items(json_views(chunk@)).event(),
                ).1
                &&& warnings_about(
                    r.warnings@,
                    line_views(chunk@),
                    final(self).pending().len() as usize,
                )
            },
            final(buf_warn_json)@ == dump_left(old(buf_warn_json)@, r.warnings@),
            r.warnings@.len() > 0 ==> final(buf_warn_json)@.len() <= WARN_JSON_LEN_MAX,
    {
        let ghost before = self.lines@;
        let ghost items = json_views(chunk@);
        let read: usize = chunk.len();
        let evts_count: usize = self.collector.len() + read;
        let mut warnings: Vec<LineWarning> = Vec::new();
        let mut i: usize = 0;
        assert(some_values(items.take(0)) =~= Seq::<Seq<u8>>::empty());
        assert(before + Seq::<Seq<u8>>::empty() =~= before);
        assert(warnings_about(warnings@, line_views(chunk@.take(0)), evts_count)) by {
            reveal(Seq::filter);
        }
        while i < read
            invariant
                0 <= i <= read,
                read == chunk@.len(),
                items == json_views(chunk@),
                old(self).wf(),
                before == old(self).lines@,
                all_some(items.take(i as int)),
                self.collector == old(self).collector,
                self.collector.wf(),
                0 < read <= self.collector.target() - self.collector.count(),
                evts_count == self.collector.count() + read,
                self.lines@ == before + some_values(items.take(i as int)),
                frame_input(self.encoder) == ndjson(self.lines@),
                !frame_broken(self.encoder),
                warnings_about(warnings@, line_views(chunk@.take(i as int)), evts_count),
                buf_warn_json@ == dump_left(old(buf_warn_json)@, warnings@),
                warnings@.len() > 0 ==> buf_warn_json@.len() <= WARN_JSON_LEN_MAX,
                forall|k: int|
                    0 <= k < chunk@.len() && (#[trigger] chunk@[k]).json is Some
                        ==> chunk@[k].json->0@.len() < usize::MAX,
            decreases read - i,
        {
            let outcome = encode_evt_line(
                &mut self.encoder,
                buf_warn_json,
                &chunk[i],
                evts_count,
            );
            match outcome.ctl {
                BatchCtl::Continue => {},
                _ => {
                    self.collector.step(CollectEvent::Received { read, encoded: false });
                    proof {
                        assert(items[i as int] is None || outcome.err is Some);
                        if outcome.err is None {
                            gap_is_first(items, i as int);
                        } else {
                            text_before_gap(items, i as int);
                        }
                    }
                    return Received { next: Next::DropBatch, warnings, err: outcome.err };
                },
            }
            let ghost json = chunk@[i as int].json->0@;
            let ghost line = (json, opt_bytes(chunk@[i as int].again));
            let ghost so_far = some_values(items.take(i as int));
            let ghost lines = line_views(chunk@.take(i as int));
            let ghost warned = warnings@;
            proof {
                self.lines@ = self.lines@.push(json);
                let next = items.take(i + 1);
                assert(next.drop_last() =~= items.take(i as int));
                assert(items[i as int] == Some(json));
                assert(some_values(next) =~= so_far.push(json));
                assert(self.lines@ =~= before + some_values(next));
                assert(self.lines@.drop_last() =~= before + so_far);
                assert(all_some(next)) by {
                    assert forall|k: int| 0 <= k < next.len() implies (#[trigger] next[k]) is Some by {
                        if k < i {
                            assert(items.take(i as int)[k] is Some);
                        }
                    }
                }
                assert(line_views(chunk@.take(i + 1)) =~= lines.push(line));
                oversized_push(lines, line);
            }
            match outcome.warning {
                Some(warning) => {
                    warnings.push(warning);
                },
                None => {},
            }
            assert(warnings_about(warnings@, line_views(chunk@.take(i + 1)), evts_count)) by {
                let long = oversized_lines(lines);
                let longer = oversized_lines(lines.push(line));
                assert forall|k: int| 0 <= k < longer.len() implies (
                #[trigger] warnings@[k]).describes(
                    ndjson_line(longer[k].0).len(),
                    longer[k].1,
                    evts_count,
                ) by {
                    if k < long.len() {
                        assert(warnings@[k] == warned[k]);
                    }
                }
            }
            i = i + 1;
        }
        assert(items.take(i as int) =~= items);
        assert(chunk@.take(i as int) =~= chunk@);
        let next = self.collector.step(CollectEvent::Received { read, encoded: true });
        Received { next, warnings, err: None }
    }

    /// The collect timeout ran out.
    pub fn elapsed(&mut self) -> (r: Next)
        requires
            old(self).wf(),
        ensures
            final(self).wf(),
            final(self).target() == old(self).target(),
            final(self).pending() == old(self).pending(),
            r == collect_next(
                old(self).target(),
                old(self).pending().len() as usize,
                CollectEvent::Elapsed,
            ).1,
    {
        self.collector.step(CollectEvent::Elapsed)
    }

    /// The queue is closed and empty.
    pub fn closed(&mut self) -> (r: Next)
        requires
            old(self).wf(),
        ensures
            final(self).wf(),
            final(self).target() == old(self).target(),
            final(self).pending() == old(self).pending(),
            r == collect_next(
                old(self).target(),
                old(self).pending().len() as usize,
                CollectEvent::Closed,
            ).1,
    {
        self.collector.step(CollectEvent::Closed)
    }

    /// Closes the frame of a batch that holds something: the body decompresses to exactly the
    /// lines of the batch's events.
    pub fn finish(self) -> (r: Result<BatchBlob, std::io::Error>)
        requires
            self.wf(),
            self.pending().len() > 0,
        ensures
            r matches Ok(blob) ==> {
                &&& zstd_decoded(bytes_content(blob.body)) == Some(ndjson(self.pending()))
                &&& blob.items_count == self.pending().len()
                &&& blob.content_type@ == "application/json"@
                &&& blob.response_kind == ResponseKind::IngestStatus
                &&& blob.axiom_dataset is None
            },
    {
        let evts_count: usize = self.collector.len();
        closed_events(self.encoder.finish(), evts_count)
    }
}

/// A batch of metrics, kept whole until it is encoded.
pub struct MetricBatch<M> {
    mets: Vec<M>,
    collector: Collector,
}

impl<M> MetricBatch<M> {
    /// The number of metrics that fill the batch.
    pub closed spec fn target(&self) -> usize {
        self.collector.target()
    }

    /// The metrics in the batch, in order of arrival.
    pub closed spec fn pending(&self) -> Seq<M> {
        self.mets@
    }

    /// The metrics held are the metrics counted.
    pub closed spec fn wf(&self) -> bool {
        &&& self.collector.wf()
        &&& self.collector.count() == self.mets@.len()
    }

    /// Starts an empty batch.
    pub fn begin(collect_target: usize) -> (r: Self)
        requires
            collect_target > 0,
        ensures
            r.wf(),
            r.target() == collect_target,
            r.pending() == Seq::<M>::empty(),
    {
        MetricBatch { mets: Vec::new(), collector: Collector::new(collect_target) }
    }

    /// How many metrics may still be received.
    pub fn limit(&self) -> (r: usize)
        requires
            self.wf(),
        ensures
            r == self.target() - self.pending().len(),
    {
        self.collector.limit()
    }

    /// Takes in a chunk of metrics and leaves it empty.
    pub fn receive(&mut self, chunk: &mut Vec<M>) -> (r: Next)
        requires
            old(self).wf(),
            0 < old(chunk)@.len() <= old(self).target() - old(self).pending().len(),
        ensures
            final(self).wf(),
            final(self).target() == old(self).target(),
            final(self).pending() == old(self).pending() + old(chunk)@,
            final(chunk)@ == Seq::<M>::empty(),
            r == collect_next(
                old(self).target(),
                old(self).pending().len() as usize,
                CollectEvent::Received { read: old(chunk)@.len() as usize, encoded: true },
            ).1,
    {
        let read: usize = chunk.len();
        self.mets.append(chunk);
        self.collector.step(CollectEvent::Received { read, encoded: true })
    }

    /// The collect timeout ran out.
    pub fn elapsed(&mut self) -> (r: Next)
        requires
            old(self).wf(),
        ensures
            final(self).wf(),
            final(self).target() == old(self).target(),
            final(self).pending() == old(self).pending(),
            r == collect_next(
                old(self).target(),
                old(self).pending().len() as usize,
                CollectEvent::Elapsed,
            ).1,
    {
        self.collector.step(CollectEvent::Elapsed)
    }

    /// The queue is closed and empty.
    pub fn closed(&mut self) -> (r: Next)
        requires
            old(self).wf(),
        ensures
            final(self).wf(),
            final(self).target() == old(self).target(),
            final(self).pending() == old(self).pending(),
            r == collect_next(
                old(self).target(),
                old(self).pending().len() as usize,
                CollectEvent::Closed,
            ).1,
    {
        self.collector.step(CollectEvent::Closed)
    }

    /// Hands the metrics out for encoding.
    pub fn into_metrics(self) -> (r: Vec<M>)
        ensures
            r@ == self.pending(),
    {
        self.mets
    }
}

/// Compresses an encoded metrics export: the body decompresses to exactly `export`.
pub fn finish_metrics(
    compressor: &mut Compressor,
    export: &[u8],
    items_count: usize,
    axiom_dataset: String,
) -> (r: Result<BatchBlob, std::io::Error>)
    ensures
        r matches Ok(blob) ==> {
            &&& zstd_decoded(bytes_content(blob.body)) == Some(export@)
            &&& blob.items_count == items_count
            &&& blob.content_type@ == "application/x-protobuf"@
            &&& blob.response_kind == ResponseKind::MetricsExport
            &&& blob.axiom_dataset == Some(axiom_dataset)
        },
{
    let mut encoder = FrameEncoder::begin(compressor);
    let frame = match encoder.write_all(export) {
        Ok(()) => encoder.finish(),
        Err(err) => Err(err),
    };
    assert(Seq::<u8>::empty() + export@ =~= export@);
    closed_metrics(frame, items_count, axiom_dataset)
}

/// The attributes of the resource that a metrics export is about.
pub fn resource_attrs(service_name: &str) -> (r: Vec<(&'static str, String)>)
    ensures
        r@.len() == 1,
        r@[0].0@ == "service.name"@,
        r@[0].1@ == service_name@,
{
    let mut attrs: Vec<(&'static str, String)> = Vec::new();
    attrs.push(("service.name", service_name.to_owned()));
    attrs
}

/// The time of a metrics export: nanoseconds since the Unix epoch, in sixty-four bits.
pub fn export_time(unix_nanos: i128) -> (r: u64)
    ensures
        r as int == unix_nanos as int % 0x1_0000_0000_0000_0000,
{
    let r: u64 = #[verifier::truncate] (unix_nanos as u64);
    proof {
        let n = unix_nanos;
        if n >= 0 {
            assert((n as u64) as int == n % 0x1_0000_0000_0000_0000i128) by (bit_vector)
                requires
                    n >= 0,
            ;
        } else {
            let m: i128 = (-1 - n) as i128;
            assert((n as u64) as int == 0xffff_ffff_ffff_ffff - (m % 0x1_0000_0000_0000_0000i128))
                by (bit_vector)
                requires
                    m >= 0,
                    m == -1 - n,
            ;
        }
    }
    r
}

} // verus!
