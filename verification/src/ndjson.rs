//! Newline-delimited JSON lines: framing, size accounting, and the bounded dump that goes into
//! the warning about an oversized line.
use vstd::prelude::*;
use vstd::slice::slice_subrange;
use vstd::string::*;
use vstd::utf8::*;

use crate::frame::{frame_broken, frame_input, FrameEncoder};
use crate::text::{utf8_str, valid_up_to, valid_up_to_is_longest};

verus! {

/// The longest line, newline included, that the ingest service is known to take.
pub const NDJSON_LINE_LEN_MAX: usize = 0x10_0000;

/// The longest dump of an oversized line.
pub const WARN_JSON_LEN_MAX: usize = 0x800;

/// What stands at the end of a dump that was cut.
pub const WARN_JSON_SUFFIX: &'static str = "...<truncated>";

/// What to do with the batch after one step.
#[derive(Clone, Copy, Debug, PartialEq, Eq, Structural)]
pub enum BatchCtl {
    Continue,
    DropBatch,
    Shutdown,
}

/// The bytes of one line: the JSON text and a newline.
pub open spec fn ndjson_line(json: Seq<u8>) -> Seq<u8> {
    json.push(10u8)
}

/// Lines one after the other.
pub open spec fn ndjson(lines: Seq<Seq<u8>>) -> Seq<u8>
    decreases lines.len(),
{
    if lines.len() == 0 {
        Seq::empty()
    } else {
        ndjson(lines.drop_last()) + ndjson_line(lines.last())
    }
}

/// A line is the text and a newline after it, and every further line goes after the others.
pub proof fn lines_follow_each_other(lines: Seq<Seq<u8>>, json: Seq<u8>)
    ensures
        ndjson_line(json).len() == json.len() + 1,
        ndjson_line(json).take(json.len() as int) == json,
        ndjson_line(json).last() == 0x0a,
        ndjson(Seq::empty()) == Seq::<u8>::empty(),
        ndjson(lines.push(json)) == ndjson(lines) + json + seq![0x0au8],
{
    assert(ndjson_line(json).take(json.len() as int) =~= json);
    assert(lines.push(json).drop_last() =~= lines);
    assert(ndjson(lines.push(json)) =~= ndjson(lines) + json + seq![0x0au8]);
}

/// A text without a newline in it.
pub open spec fn one_line(json: Seq<u8>) -> bool {
    forall|i: int| 0 <= i < json.len() ==> #[trigger] json[i] != 10u8
}

/// What is not empty ends in a newline.
proof fn ndjson_ends_in_newline(lines: Seq<Seq<u8>>)
    ensures
        lines.len() > 0 ==> ndjson(lines).len() > 0,
        ndjson(lines).len() > 0 ==> lines.len() > 0 && ndjson(lines).last() == 10u8,
{
}

/// Lines can be told apart again: where no text holds a newline, the same bytes mean the same
/// texts in the same order.
pub proof fn ndjson_is_unambiguous(a: Seq<Seq<u8>>, b: Seq<Seq<u8>>)
    requires
        forall|i: int| 0 <= i < a.len() ==> one_line(#[trigger] a[i]),
        forall|i: int| 0 <= i < b.len() ==> one_line(#[trigger] b[i]),
        ndjson(a) == ndjson(b),
    ensures
        a == b,
    decreases a.len(),
{
    ndjson_ends_in_newline(a);
    ndjson_ends_in_newline(b);
    if a.len() == 0 || b.len() == 0 {
        assert(a =~= b);
    } else {
        let fa = ndjson(a.drop_last());
        let fb = ndjson(b.drop_last());
        let la = a.last();
        let lb = b.last();
        let all = ndjson(a);
        ndjson_ends_in_newline(a.drop_last());
        ndjson_ends_in_newline(b.drop_last());
        assert(one_line(a[a.len() - 1]));
        assert(one_line(b[b.len() - 1]));
        assert(all.len() == fa.len() + la.len() + 1);
        assert(all.len() == fb.len() + lb.len() + 1);
        if la.len() < lb.len() {
            let i = fa.len() - 1;
            assert(all[i] == fa.last());
            assert(all[i] == lb[i - fb.len()]);
        } else if lb.len() < la.len() {
            let i = fb.len() - 1;
            assert(all[i] == fb.last());
            assert(all[i] == la[i - fa.len()]);
        }
        assert(fa =~= all.take(fa.len() as int));
        assert(fb =~= all.take(fb.len() as int));
        assert(la =~= all.subrange(fa.len() as int, all.len() - 1));
        assert(lb =~= all.subrange(fb.len() as int, all.len() - 1));
        ndjson_is_unambiguous(a.drop_last(), b.drop_last());
        assert(a =~= a.drop_last().push(la));
        assert(b =~= b.drop_last().push(lb));
    }
}

/// Counts what passes through to a frame.
pub struct CountWrite<'a, 'b> {
    pub inner: &'a mut FrameEncoder<'b>,
    pub bytes: usize,
}

impl<'a, 'b> CountWrite<'a, 'b> {
    /// Hands all of `data` on and adds its length to the count, or fails and leaves the frame
    /// broken. Handing on nothing always succeeds.
    pub fn write(&mut self, data: &[u8]) -> (r: Result<(), std::io::Error>)
        requires
            old(self).bytes + data@.len() <= usize::MAX,
        ensures
            *final(final(self).inner) == *final(old(self).inner),
            r is Ok ==> {
                &&& frame_input(*final(self).inner) == frame_input(*old(self).inner) + data@
                &&& final(self).bytes == old(self).bytes + data@.len()
            },
            r is Err ==> final(self).bytes == old(self).bytes,
            r is Ok <==> data@.len() == 0 || !frame_broken(*final(self).inner),
            frame_broken(*final(self).inner) <==> frame_broken(*old(self).inner) || r is Err,
    {
        match self.inner.write_all(data) {
            Ok(()) => {
                self.bytes = self.bytes + data.len();
                Ok(())
            },
            Err(err) => Err(err),
        }
    }
}

/// Writes one line into the frame and returns its length in bytes, newline included, or fails
/// and leaves the frame broken.
pub fn write_ndjson_line(encoder: &mut FrameEncoder<'_>, json: &[u8]) -> (r: Result<
    usize,
    std::io::Error,
>)
    requires
        json@.len() < usize::MAX,
    ensures
        r matches Ok(len) ==> {
            &&& len == ndjson_line(json@).len()
            &&& frame_input(*final(encoder)) == frame_input(*old(encoder)) + ndjson_line(json@)
        },
        r is Ok <==> !frame_broken(*final(encoder)),
        frame_broken(*old(encoder)) ==> frame_broken(*final(encoder)),
{
    let ghost before = frame_input(*encoder);
    let newline: [u8; 1] = [10u8];
    let mut writer = CountWrite { inner: encoder, bytes: 0 };
    match writer.write(json) {
        Ok(()) => {},
        Err(err) => {
            return Err(err);
        },
    }
    match writer.write(&newline) {
        Ok(()) => {},
        Err(err) => {
            return Err(err);
        },
    }
    assert(before + json@ + newline@ =~= before + ndjson_line(json@));
    Ok(writer.bytes)
}

/// A sink that keeps at most `limit` bytes and remembers whether it dropped any.
pub struct TruncWrite<'a> {
    pub buf: &'a mut Vec<u8>,
    pub limit: usize,
    pub trunc: bool,
}

/// The first `limit` bytes of `bytes`, or all of them.
pub open spec fn cut(bytes: Seq<u8>, limit: nat) -> Seq<u8> {
    if bytes.len() <= limit {
        bytes
    } else {
        bytes.take(limit as int)
    }
}

/// Cutting keeps the beginning, and as much of it as fits.
pub proof fn cutting_keeps_what_fits(bytes: Seq<u8>, limit: nat)
    ensures
        cut(bytes, limit).is_prefix_of(bytes),
        cut(bytes, limit).len() <= limit,
        cut(bytes, limit).len() == limit || cut(bytes, limit) == bytes,
        bytes.len() <= limit ==> cut(bytes, limit) == bytes,
{
}

impl<'a> TruncWrite<'a> {
    /// The state after `written` in all: the buffer holds what fits of it, and the flag says
    /// whether something did not fit.
    pub open spec fn holds(&self, written: Seq<u8>) -> bool {
        &&& self.buf@ == cut(written, self.limit as nat)
        &&& self.trunc == (written.len() > self.limit)
    }

    /// A sink on top of `buf`, which keeps what it holds.
    pub fn new(buf: &'a mut Vec<u8>, limit: usize) -> (r: Self)
        ensures
            r.buf@ == old(buf)@,
            *final(r.buf) == *final(buf),
            r.limit == limit,
            !r.trunc,
    {
        TruncWrite { buf, limit, trunc: false }
    }

    /// Takes all of `data` and keeps what still fits. The outcome does not depend on how the
    /// bytes were split into writes.
    pub fn write(&mut self, data: &[u8]) -> (r: usize)
        ensures
            r == data@.len(),
            final(self).limit == old(self).limit,
            *final(final(self).buf) == *final(old(self).buf),
            old(self).buf@.len() >= old(self).limit ==> final(self).buf@ == old(self).buf@,
            old(self).buf@.len() < old(self).limit ==> final(self).buf@ == cut(
                old(self).buf@ + data@,
                old(self).limit as nat,
            ),
            final(self).trunc == (old(self).trunc || data@.len() > 0 && old(self).buf@.len()
                + data@.len() > old(self).limit),
            forall|written: Seq<u8>| #[trigger]
                old(self).holds(written) ==> final(self).holds(written + data@),
    {
        let ghost before = self.buf@;
        let ghost was = *self;
        let left: usize = self.limit.saturating_sub(self.buf.len());
        let keep: usize = if left < data.len() {
            left
        } else {
            data.len()
        };
        let kept = slice_subrange(data, 0, keep);
        self.buf.extend_from_slice(kept);
        assert(self.buf@ =~= before + data@.subrange(0, keep as int));
        self.trunc = self.trunc || keep < data.len();
        assert(before.len() < self.limit ==> self.buf@ =~= cut(
            before + data@,
            self.limit as nat,
        ));
        assert(before.len() >= self.limit ==> self.buf@ =~= before);
        assert forall|written: Seq<u8>| #[trigger] was.holds(written) implies self.holds(
            written + data@,
        ) by {
            assert(self.buf@ =~= cut(written + data@, self.limit as nat));
        }
        data.len()
    }
}

/// How many bytes of the JSON text a dump keeps, so that the suffix, which is fourteen bytes
/// long, still fits.
pub open spec fn warn_json_limit() -> nat {
    (WARN_JSON_LEN_MAX - 14) as nat
}

/// The bytes of a dump: the text up to the limit, cut back to whole characters, and the suffix
/// where the text was longer than the limit.
pub open spec fn warn_json_bytes(json: Seq<u8>) -> Seq<u8> {
    let fits = cut(json, warn_json_limit());
    let whole = fits.take(valid_up_to(fits) as int);
    if json.len() > warn_json_limit() {
        whole + encode_utf8(WARN_JSON_SUFFIX@)
    } else {
        whole
    }
}

/// The suffix is fourteen bytes long.
proof fn suffix_len()
    ensures
        encode_utf8(WARN_JSON_SUFFIX@).len() == 14,
{
    reveal_strlit("...<truncated>");
    is_ascii_chars_encode_utf8(WARN_JSON_SUFFIX@);
}

/// Every dump is valid UTF-8 and within its limit, and it ends in the suffix exactly where the
/// text was cut. A text that fits and is valid UTF-8 is dumped as it is. Text up to the limit and
/// the suffix fill a dump exactly.
pub proof fn warn_json_is_bounded_text(json: Seq<u8>)
    ensures
        warn_json_limit() + encode_utf8(WARN_JSON_SUFFIX@).len() == WARN_JSON_LEN_MAX,
        valid_utf8(warn_json_bytes(json)),
        warn_json_bytes(json).len() <= WARN_JSON_LEN_MAX,
        json.len() > warn_json_limit() ==> encode_utf8(WARN_JSON_SUFFIX@).is_suffix_of(
            warn_json_bytes(json),
        ),
        json.len() <= warn_json_limit() && valid_utf8(json) ==> warn_json_bytes(json) == json,
{
    suffix_len();
    let fits = cut(json, warn_json_limit());
    valid_up_to_is_longest(fits);
    let whole = fits.take(valid_up_to(fits) as int);
    encode_utf8_valid_utf8(WARN_JSON_SUFFIX@);
    valid_utf8_concat(whole, encode_utf8(WARN_JSON_SUFFIX@));
    assert(fits.take(fits.len() as int) =~= fits);
}

/// A dump shows the longest beginning of the text that is valid UTF-8 and no longer than 2034
/// bytes, and after it the suffix exactly where the text is longer than that.
pub proof fn dumps_show_as_much_as_fits(json: Seq<u8>) -> (shown: int)
    ensures
        0 <= shown <= json.len(),
        shown <= 2034,
        valid_utf8(json.take(shown)),
        forall|m: int|
            shown < m <= json.len() && m <= 2034 ==> !valid_utf8(#[trigger] json.take(m)),
        json.len() <= 2034 ==> warn_json_bytes(json) == json.take(shown),
        json.len() > 2034 ==> warn_json_bytes(json) == json.take(shown) + encode_utf8(
            "...<truncated>"@,
        ),
{
    let fits = cut(json, warn_json_limit());
    valid_up_to_is_longest(fits);
    let shown = valid_up_to(fits) as int;
    assert(fits.take(shown) =~= json.take(shown));
    assert forall|m: int| shown < m <= json.len() && m <= 2034 implies !valid_utf8(
        #[trigger] json.take(m),
    ) by {
        assert(fits.take(m) =~= json.take(m));
    }
    shown
}

/// Fills `buf` with the dump of an oversized line and returns it as text, with whether the
/// line was cut. What `buf` held before is gone.
pub fn warn_json_dump<'a>(buf: &'a mut Vec<u8>, json: &[u8]) -> (r: (&'a str, bool))
    ensures
        final(buf)@ == warn_json_bytes(json@),
        r.0.spec_bytes() == warn_json_bytes(json@),
        r.1 == (json@.len() > warn_json_limit()),
{
    proof {
        suffix_len();
        warn_json_is_bounded_text(json@);
    }
    buf.clear();

    let limit: usize = WARN_JSON_LEN_MAX.saturating_sub(WARN_JSON_SUFFIX.len());
    let mut writer = TruncWrite::new(buf, limit);
    assert(writer.holds(Seq::<u8>::empty()));
    let _ = writer.write(json);
    let trunc = writer.trunc;
    assert(Seq::<u8>::empty() + json@ =~= json@);
    assert(buf@ == cut(json@, warn_json_limit()));

    let end: usize = match utf8_str(buf.as_slice()) {
        Ok(_) => buf.len(),
        Err(end) => end,
    };
    proof {
        valid_up_to_is_longest(buf@);
    }
    buf.truncate(end);
    if trunc {
        let ghost whole = buf@;
        buf.extend_from_slice(WARN_JSON_SUFFIX.as_bytes());
        assert(buf@ =~= whole + encode_utf8(WARN_JSON_SUFFIX@));
    }
    assert(buf@ =~= warn_json_bytes(json@));
    match utf8_str(buf.as_slice()) {
        Ok(dump) => (dump, trunc),
        // Never taken: a dump is valid UTF-8.
        Err(_) => ("", trunc),
    }
}

/// An event as it is handed over for encoding.
pub struct EventText {
    /// Its JSON text; nothing where serializing it failed.
    pub json: Option<Vec<u8>>,
    /// Its JSON text serialized once more, for the warning about an oversized line; nothing
    /// where that failed. Of any other line it is not read.
    pub again: Option<Vec<u8>>,
}

/// Optional bytes.
pub open spec fn opt_bytes(bytes: Option<Vec<u8>>) -> Option<Seq<u8>> {
    match bytes {
        Some(bytes) => Some(bytes@),
        None => None,
    }
}

/// A line that is longer than the ingest service takes.
pub open spec fn oversized(json: Seq<u8>) -> bool {
    ndjson_line(json).len() > NDJSON_LINE_LEN_MAX
}

/// Whether the line for `json` is longer than the ingest service takes.
pub fn is_oversized(json: &[u8]) -> (r: bool)
    ensures
        r == oversized(json@),
{
    json.len() >= NDJSON_LINE_LEN_MAX
}

/// The dump of an event.
pub struct LineDump {
    /// As much of the event as fits.
    pub event_json_truncated: String,
    /// Whether the dump is shorter than the event.
    pub event_json_was_truncated: bool,
}

impl LineDump {
    /// The dump of the event that `json` is the text of.
    pub open spec fn shows(&self, json: Seq<u8>) -> bool {
        &&& encode_utf8(self.event_json_truncated@) == warn_json_bytes(json)
        &&& self.event_json_was_truncated == (json.len() > warn_json_limit())
    }
}

/// What is reported of a line that is longer than the ingest service takes. The line itself
/// stays in the batch.
pub struct LineWarning {
    /// Length of the line, newline included.
    pub len: usize,
    /// The limit that it exceeds.
    pub bytes_limit: usize,
    /// How many events the batch counted when the line was written.
    pub evts_count: usize,
    /// The dump of the event; nothing where serializing it for the dump failed.
    pub dump: Option<LineDump>,
}

impl LineWarning {
    /// The warning about a line of `len` bytes, given the event's text for the dump.
    pub open spec fn describes(
        &self,
        len: nat,
        again: Option<Seq<u8>>,
        evts_count: usize,
    ) -> bool {
        &&& self.len == len
        &&& self.bytes_limit == NDJSON_LINE_LEN_MAX
        &&& self.evts_count == evts_count
        &&& self.dump is Some <==> again is Some
        &&& again is Some ==> self.dump->0.shows(again->0)
    }

    /// What the dump buffer holds after the warning was made. Nothing of an earlier dump is left.
    pub open spec fn buffer(&self) -> Seq<u8> {
        match self.dump {
            Some(dump) => encode_utf8(dump.event_json_truncated@),
            None => Seq::empty(),
        }
    }
}

/// A warning tells the line's own length, the limit of one mebibyte, the count, and the dump of the
/// text given for it, if one was given.
pub proof fn warnings_tell_the_line(
    warning: LineWarning,
    len: nat,
    again: Option<Seq<u8>>,
    evts_count: usize,
)
    requires
        warning.describes(len, again, evts_count),
    ensures
        warning.len == len,
        warning.bytes_limit == 0x10_0000,
        warning.evts_count == evts_count,
        warning.dump is Some <==> again is Some,
        again matches Some(json) ==> {
            &&& encode_utf8(warning.dump->0.event_json_truncated@) == warn_json_bytes(json)
            &&& warning.dump->0.event_json_was_truncated <==> json.len() > 2034
            &&& warning.buffer() == warn_json_bytes(json)
        },
        again is None ==> warning.buffer() == Seq::<u8>::empty(),
{
}

/// A line is oversized exactly if text and newline together are longer than one mebibyte.
pub proof fn oversize_counts_the_newline(json: Seq<u8>)
    ensures
        oversized(json) <==> json.len() + 1 > 0x10_0000,
{
}

/// What comes of one event.
pub struct LineOutcome {
    pub ctl: BatchCtl,
    pub warning: Option<LineWarning>,
    /// Why the line could not be written.
    pub err: Option<std::io::Error>,
}

impl LineOutcome {
    /// What the dump buffer holds afterwards.
    pub open spec fn buffer(&self, before: Seq<u8>) -> Seq<u8> {
        match self.warning {
            Some(warning) => warning.buffer(),
            None => before,
        }
    }
}

/// The dump buffer is left alone unless there is a warning, and then holds what that leaves there.
pub proof fn buffer_changes_with_a_warning(outcome: LineOutcome, before: Seq<u8>)
    ensures
        outcome.warning is None ==> outcome.buffer(before) == before,
        outcome.warning matches Some(warning) ==> outcome.buffer(before) == warning.buffer(),
{
}

/// Judges a write: a failed one drops the batch; a line over the limit is kept, with a
/// warning. `again` is the event's text for the dump, if there is one.
pub fn line_outcome(
    written: Result<usize, std::io::Error>,
    buf_warn_json: &mut Vec<u8>,
    again: &Option<Vec<u8>>,
    evts_count: usize,
) -> (r: LineOutcome)
    ensures
        match written {
            Ok(len) => {
                &&& r.ctl == BatchCtl::Continue
                &&& r.err is None
                &&& r.warning is Some <==> len > NDJSON_LINE_LEN_MAX
                &&& r.warning matches Some(warning) ==> warning.describes(
                    len as nat,
                    opt_bytes(*again),
                    evts_count,
                )
            },
            Err(err) => {
                &&& r.ctl == BatchCtl::DropBatch
                &&& r.err == Some(err)
                &&& r.warning is None
            },
        },
        final(buf_warn_json)@ == r.buffer(old(buf_warn_json)@),
        r.warning is Some ==> final(buf_warn_json)@.len() <= WARN_JSON_LEN_MAX,
{
    match written {
        Err(err) => LineOutcome { ctl: BatchCtl::DropBatch, warning: None, err: Some(err) },
        Ok(len) => {
            if len > NDJSON_LINE_LEN_MAX {
                let dump: Option<LineDump> = match again {
                    Some(json) => {
                        proof {
                            warn_json_is_bounded_text(json@);
                        }
                        let (text, was_truncated) = warn_json_dump(
                            buf_warn_json,
                            json.as_slice(),
                        );
                        Some(
                            LineDump {
                                event_json_truncated: text.to_owned(),
                                event_json_was_truncated: was_truncated,
                            },
                        )
                    },
                    None => {
                        buf_warn_json.clear();
                        None
                    },
                };
                LineOutcome {
                    ctl: BatchCtl::Continue,
                    warning: Some(
                        LineWarning { len, bytes_limit: NDJSON_LINE_LEN_MAX, evts_count, dump },
                    ),
                    err: None,
                }
            } else {
                LineOutcome { ctl: BatchCtl::Continue, warning: None, err: None }
            }
        },
    }
}

/// Encodes one event into the frame of its batch.
///
/// An event that cannot be encoded costs the whole batch: one without a text, or one whose line
/// the frame did not take. The frame is then broken exactly in the second case, or if it was
/// before.
pub fn encode_evt_line(
    encoder: &mut FrameEncoder<'_>,
    buf_warn_json: &mut Vec<u8>,
    evt: &EventText,
    evts_count: usize,
) -> (r: LineOutcome)
    requires
        evt.json matches Some(json) ==> json@.len() < usize::MAX,
    ensures
        r.ctl == (if evt.json is None || r.err is Some {
            BatchCtl::DropBatch
        } else {
            BatchCtl::Continue
        }),
        evt.json is Some ==> (r.err is None <==> !frame_broken(*final(encoder))),
        evt.json is None ==> {
            &&& r.err is None
            &&& frame_broken(*final(encoder)) <==> frame_broken(*old(encoder))
            &&& frame_input(*final(encoder)) == frame_input(*old(encoder))
        },
        frame_broken(*old(encoder)) ==> frame_broken(*final(encoder)),
        r.ctl == BatchCtl::DropBatch ==> r.warning is None,
        r.ctl == BatchCtl::Continue ==> {
            let json = evt.json->0@;
            &&& frame_input(*final(encoder)) == frame_input(*old(encoder)) + ndjson_line(json)
            &&& r.warning is Some <==> oversized(json)
            &&& r.warning matches Some(warning) ==> warning.describes(
                ndjson_line(json).len(),
                opt_bytes(evt.again),
                evts_count,
            )
        },
        final(buf_warn_json)@ == r.buffer(old(buf_warn_json)@),
        r.warning is Some ==> final(buf_warn_json)@.len() <= WARN_JSON_LEN_MAX,
{
    match &evt.json {
        None => LineOutcome { ctl: BatchCtl::DropBatch, warning: None, err: None },
        Some(json) => {
            let written = write_ndjson_line(encoder, json.as_slice());
            line_outcome(written, buf_warn_json, &evt.again, evts_count)
        },
    }
}

} // verus!
