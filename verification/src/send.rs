//! Sending one batch: the request, what the reply means, and when to try again.
use vstd::prelude::*;

use crate::blob::BatchBlob;
use crate::config::AXIOM_DATASET_HEADER;

verus! {

/// Nanoseconds to wait before the first retry.
pub const INITIAL_BACKOFF_NS: u128 = 200_000_000;

/// Nanoseconds after which a batch is given up.
pub const MAX_RETRY_ELAPSED_NS: u128 = 10_000_000_000;

/// The headers of a request as text.
pub open spec fn header_views(headers: Seq<(&'static str, String)>) -> Seq<
    (Seq<char>, Seq<char>),
> {
    headers.map_values(|header: (&'static str, String)| (header.0@, header.1@))
}

/// The headers that a batch is posted with.
pub open spec fn blob_headers(bearer: Seq<char>, blob: BatchBlob) -> Seq<(Seq<char>, Seq<char>)> {
    let common = seq![
        ("authorization"@, bearer),
        ("content-type"@, blob.content_type@),
        ("content-encoding"@, "zstd"@),
    ];
    match blob.axiom_dataset {
        Some(dataset) => common.push((AXIOM_DATASET_HEADER@, dataset@)),
        None => common,
    }
}

/// The headers that a batch is posted with.
pub fn request_headers(bearer: &str, blob: &BatchBlob) -> (r: Vec<(&'static str, String)>)
    ensures
        header_views(r@) == blob_headers(bearer@, *blob),
{
    let mut headers: Vec<(&'static str, String)> = Vec::new();
    headers.push(("authorization", bearer.to_owned()));
    headers.push(("content-type", blob.content_type.to_owned()));
    headers.push(("content-encoding", "zstd".to_owned()));
    match &blob.axiom_dataset {
        Some(dataset) => {
            headers.push((AXIOM_DATASET_HEADER, dataset.clone()));
        },
        None => {},
    }
    assert(header_views(headers@) =~= blob_headers(bearer@, *blob));
    headers
}

/// The headers of a request are names and values, one for one and in order.
pub proof fn headers_are_shown_one_for_one(headers: Seq<(&'static str, String)>)
    ensures
        header_views(headers).len() == headers.len(),
        forall|i: int|
            0 <= i < headers.len() ==> #[trigger] header_views(headers)[i] == (
                headers[i].0@,
                headers[i].1@,
            ),
{
}

/// What a server finds in a header; nothing where it is not sent.
pub open spec fn header_value(headers: Seq<(Seq<char>, Seq<char>)>, name: Seq<char>) -> Option<
    Seq<char>,
>
    decreases headers.len(),
{
    if headers.len() == 0 {
        None
    } else if headers.last().0 == name {
        Some(headers.last().1)
    } else {
        header_value(headers.drop_last(), name)
    }
}

/// Reading headers one after the other.
proof fn header_push(headers: Seq<(Seq<char>, Seq<char>)>, header: (Seq<char>, Seq<char>), name:
    Seq<char>)
    ensures
        header_value(headers.push(header), name) == (if header.0 == name {
            Some(header.1)
        } else {
            header_value(headers, name)
        }),
{
    assert(headers.push(header).drop_last() =~= headers);
}

/// A request tells the server who sends, what the body is, that it is compressed, and the dataset
/// where the batch names one. It has no other header, and none twice.
pub proof fn headers_tell_the_batch(bearer: Seq<char>, blob: BatchBlob)
    ensures
        ({
            let headers = blob_headers(bearer, blob);
            &&& header_value(headers, "authorization"@) == Some(bearer)
            &&& header_value(headers, "content-type"@) == Some(blob.content_type@)
            &&& header_value(headers, "content-encoding"@) == Some("zstd"@)
            &&& header_value(headers, "X-Axiom-Dataset"@) == (match blob.axiom_dataset {
                Some(dataset) => Some(dataset@),
                None => None,
            })
            &&& headers.len() == (if blob.axiom_dataset is Some { 4 } else { 3int })
        }),
{
    reveal_strlit("authorization");
    reveal_strlit("content-type");
    reveal_strlit("content-encoding");
    reveal_strlit("X-Axiom-Dataset");
    let empty = Seq::<(Seq<char>, Seq<char>)>::empty();
    let a = ("authorization"@, bearer);
    let b = ("content-type"@, blob.content_type@);
    let c = ("content-encoding"@, "zstd"@);
    let common = empty.push(a).push(b).push(c);
    assert(common =~= seq![a, b, c]);
    assert forall|name: Seq<char>| #[trigger] header_value(common, name) == (if c.0 == name {
        Some(c.1)
    } else if b.0 == name {
        Some(b.1)
    } else if a.0 == name {
        Some(a.1)
    } else {
        None
    }) by {
        header_push(empty.push(a).push(b), c, name);
        header_push(empty.push(a), b, name);
        header_push(empty, a, name);
    }
    assert("authorization"@.len() == 13 && "content-type"@.len() == 12);
    assert("content-encoding"@.len() == 16 && "X-Axiom-Dataset"@.len() == 15);
    match blob.axiom_dataset {
        Some(dataset) => {
            let d = (AXIOM_DATASET_HEADER@, dataset@);
            header_push(common, d, "authorization"@);
            header_push(common, d, "content-type"@);
            header_push(common, d, "content-encoding"@);
            header_push(common, d, "X-Axiom-Dataset"@);
        },
        None => {},
    }
}

/// What the ingest service says of a batch of events.
pub struct IngestStatus {
    pub failed: u64,
    pub ingested: u64,
    pub processed_bytes: u64,
    pub blocks_created: Option<u32>,
    pub failures: Vec<IngestFailure>,
    pub wal_length: Option<u32>,
}

/// What the ingest service says of an event that it refused.
pub struct IngestFailure {
    pub error: String,
    pub timestamp: String,
}

/// What the metrics endpoint says of a batch that it did not take whole.
pub struct PartialSuccess {
    pub rejected_data_points: i64,
    pub error_message: String,
}

/// The body of a successful response; nothing where it could not be read as what was expected.
pub enum Reply {
    Ingest(Option<IngestStatus>),
    Metrics(Option<Option<PartialSuccess>>),
}

/// What is to be reported of a successful response.
#[derive(Clone, Copy, Debug, PartialEq, Eq, Structural)]
pub enum Report {
    /// Nothing.
    Clean,
    /// Some events were refused.
    PartialIngest { failed: u64, ingested: u64 },
    /// The reply to events could not be read.
    BadIngestBody,
    /// Some data points were refused.
    PartialMetrics { rejected_data_points: i64 },
    /// All data points were taken, with a remark.
    MetricsWarning { rejected_data_points: i64 },
    /// The reply to metrics could not be read.
    BadMetricsBody,
}

/// What is to be reported of a reply.
pub open spec fn reply_report(reply: Reply) -> Report {
    match reply {
        Reply::Ingest(Some(status)) => if status.failed > 0 || status.failures@.len() > 0 {
            Report::PartialIngest { failed: status.failed, ingested: status.ingested }
        } else {
            Report::Clean
        },
        Reply::Ingest(None) => Report::BadIngestBody,
        Reply::Metrics(Some(Some(partial))) => if partial.rejected_data_points > 0 {
            Report::PartialMetrics { rejected_data_points: partial.rejected_data_points }
        } else if partial.error_message@.len() > 0 {
            Report::MetricsWarning { rejected_data_points: partial.rejected_data_points }
        } else {
            Report::Clean
        },
        Reply::Metrics(Some(None)) => Report::Clean,
        Reply::Metrics(None) => Report::BadMetricsBody,
    }
}

/// What is to be reported of a reply.
pub fn judge_reply(reply: &Reply) -> (r: Report)
    ensures
        r == reply_report(*reply),
{
    match reply {
        Reply::Ingest(Some(status)) => {
            if status.failed > 0 || !status.failures.is_empty() {
                Report::PartialIngest { failed: status.failed, ingested: status.ingested }
            } else {
                Report::Clean
            }
        },
        Reply::Ingest(None) => Report::BadIngestBody,
        Reply::Metrics(Some(Some(partial))) => {
            if partial.rejected_data_points > 0 {
                Report::PartialMetrics { rejected_data_points: partial.rejected_data_points }
            } else if !partial.error_message.as_str().is_empty() {
                Report::MetricsWarning { rejected_data_points: partial.rejected_data_points }
            } else {
                Report::Clean
            }
        },
        Reply::Metrics(Some(None)) => Report::Clean,
        Reply::Metrics(None) => Report::BadMetricsBody,
    }
}

/// Why a request failed.
#[derive(Clone, Copy, Debug, PartialEq, Eq, Structural)]
pub struct RequestError {
    /// No connection could be made.
    pub connect: bool,
    /// The status of an error response.
    pub status: Option<u16>,
}

/// Kinds of failure that are worth another attempt.
#[derive(Clone, Copy, Debug, PartialEq, Eq, Structural)]
pub enum RetryErrKind {
    Transport,
    HttpStatus(u16),
}

/// A status that blames the server.
pub open spec fn server_error(status: u16) -> bool {
    500 <= status < 600
}

impl RequestError {
    /// The kind of failure, where it is worth another attempt: no connection, or an error of
    /// the server.
    pub open spec fn retry_kind(self) -> Option<RetryErrKind> {
        if self.connect {
            Some(RetryErrKind::Transport)
        } else {
            match self.status {
                Some(status) => if server_error(status) {
                    Some(RetryErrKind::HttpStatus(status))
                } else {
                    None
                },
                None => None,
            }
        }
    }

    /// The kind of failure, where it is worth another attempt.
    pub fn kind(&self) -> (r: Option<RetryErrKind>)
        ensures
            r == self.retry_kind(),
    {
        if self.connect {
            return Some(RetryErrKind::Transport);
        }
        match self.status {
            Some(status) => {
                if status >= 500 && status < 600 {
                    Some(RetryErrKind::HttpStatus(status))
                } else {
                    None
                }
            },
            None => None,
        }
    }
}

/// How an attempt went.
pub enum Outcome {
    /// A successful response with its body.
    Replied(Reply),
    /// A successful response whose body could not be received.
    BodyLost,
    /// No response, or one with an error status.
    Failed(RequestError),
}

/// What to make of an attempt.
#[derive(Clone, Copy, Debug, PartialEq, Eq, Structural)]
pub enum Verdict {
    /// The batch was delivered; report this.
    Delivered(Report),
    /// The batch was taken, but what the service said of it is lost.
    BodyLost,
    /// The batch was refused for good.
    Rejected,
    /// Try again. A failure that only repeats the one before it is not worth more than a debug
    /// line.
    Retry { kind: RetryErrKind, repeated: bool },
}

impl Verdict {
    /// The batch is to be sent again.
    pub open spec fn is_retry(self) -> bool {
        self is Retry
    }
}

/// What to make of an attempt, given the failure before it.
pub open spec fn verdict(outcome: Outcome, last: Option<RetryErrKind>) -> Verdict {
    match outcome {
        Outcome::Replied(reply) => Verdict::Delivered(reply_report(reply)),
        Outcome::BodyLost => Verdict::BodyLost,
        Outcome::Failed(err) => match err.retry_kind() {
            Some(kind) => Verdict::Retry { kind, repeated: last == Some(kind) },
            None => Verdict::Rejected,
        },
    }
}

/// How long to wait before another attempt, `elapsed` nanoseconds after the first one; nothing
/// where the batch is to be given up. The wait ends at the deadline at the latest.
pub open spec fn retry_pause(backoff: u128, elapsed: u128) -> Option<u128> {
    if elapsed >= MAX_RETRY_ELAPSED_NS {
        None
    } else if backoff < MAX_RETRY_ELAPSED_NS - elapsed {
        Some(backoff)
    } else {
        Some((MAX_RETRY_ELAPSED_NS - elapsed) as u128)
    }
}

/// What comes after an attempt.
#[derive(Clone, Copy, Debug, PartialEq, Eq, Structural)]
pub enum SendNext {
    /// Nothing: the batch is dealt with.
    Finish(Verdict),
    /// Another attempt, after so many nanoseconds.
    Wait(Verdict, u128),
    /// Nothing: the deadline has passed, and the items of the batch are lost.
    GiveUp(Verdict),
}

impl SendNext {
    /// What was made of the attempt.
    pub open spec fn verdict(self) -> Verdict {
        match self {
            SendNext::Finish(verdict) => verdict,
            SendNext::Wait(verdict, _) => verdict,
            SendNext::GiveUp(verdict) => verdict,
        }
    }
}

/// What comes after an attempt.
pub open spec fn send_next(
    outcome: Outcome,
    last: Option<RetryErrKind>,
    backoff: u128,
    elapsed: u128,
) -> SendNext {
    let verdict = verdict(outcome, last);
    if verdict.is_retry() {
        match retry_pause(backoff, elapsed) {
            Some(pause) => SendNext::Wait(verdict, pause),
            None => SendNext::GiveUp(verdict),
        }
    } else {
        SendNext::Finish(verdict)
    }
}

/// A failure that may pass: no connection, or any status that blames the server.
pub open spec fn transient(outcome: Outcome) -> bool {
    outcome matches Outcome::Failed(err) && (err.connect || (err.status is Some && 500
        <= err.status->0 < 600))
}

/// An attempt that failed in a way that may pass is followed by another one as long as the
/// deadline has not passed, and the batch is given up from then on. After any other attempt
/// nothing follows. The wait is as long as it should be, unless the deadline comes first.
pub proof fn attempts_are_followed_up(
    outcome: Outcome,
    last: Option<RetryErrKind>,
    backoff: u128,
    elapsed: u128,
)
    ensures
        ({
            let next = send_next(outcome, last, backoff, elapsed);
            let transient = outcome matches Outcome::Failed(err) && (err.connect || (
            err.status matches Some(status) && 500 <= status <= 599));
            let late = elapsed >= 10_000_000_000;
            &&& next is Wait <==> transient && !late
            &&& next is GiveUp <==> transient && late
            &&& next is Finish <==> !transient
            &&& transient == self::transient(outcome)
            &&& next matches SendNext::Finish(told) ==> told == verdict(outcome, last)
            &&& next matches SendNext::GiveUp(told) ==> told == verdict(outcome, last)
            &&& next matches SendNext::Wait(told, _) ==> told == verdict(outcome, last)
            &&& next.verdict() == verdict(outcome, last)
            &&& next matches SendNext::Wait(_, pause) ==> {
                &&& pause <= backoff
                &&& elapsed + pause <= MAX_RETRY_ELAPSED_NS
                &&& pause == backoff || elapsed + pause == MAX_RETRY_ELAPSED_NS
            }
        }),
{
}

/// The verdict on an attempt tells what happened: what the reply says, that its body is lost, or
/// the failure, which is worth another attempt exactly if it may pass. A failure to connect is
/// told as such and any other by its status.
pub proof fn verdicts_tell_what_happened(outcome: Outcome, last: Option<RetryErrKind>)
    ensures
        outcome matches Outcome::Replied(reply) ==> verdict(outcome, last) == Verdict::Delivered(
            reply_report(reply),
        ),
        outcome is BodyLost <==> verdict(outcome, last) is BodyLost,
        verdict(outcome, last) is Rejected <==> outcome is Failed && !transient(outcome),
        verdict(outcome, last) is Retry <==> transient(outcome),
        verdict(outcome, last) matches Verdict::Retry { kind, repeated } ==> {
            let err = outcome->Failed_0;
            &&& repeated <==> last == Some(kind)
            &&& kind is Transport <==> err.connect
            &&& kind matches RetryErrKind::HttpStatus(status) ==> err.status == Some(status)
        },
{
}

/// A reply is reported with its own numbers, and nothing is reported exactly of one that could be
/// read and tells of no refusal and no remark.
pub proof fn reports_tell_the_reply(reply: Reply)
    ensures
        reply matches Reply::Ingest(Some(status)) ==> {
            let refused = status.failed != 0 || status.failures@.len() != 0;
            &&& refused ==> reply_report(reply) == (Report::PartialIngest {
                failed: status.failed,
                ingested: status.ingested,
            })
            &&& !refused ==> reply_report(reply) is Clean
        },
        reply_report(reply) is BadIngestBody <==> (reply matches Reply::Ingest(status)
            && status is None),
        reply_report(reply) is BadMetricsBody <==> (reply matches Reply::Metrics(partial)
            && partial is None),
        reply matches Reply::Metrics(Some(None)) ==> reply_report(reply) is Clean,
        reply matches Reply::Metrics(Some(Some(partial))) ==> {
            let rejected_data_points = partial.rejected_data_points;
            &&& rejected_data_points >= 1 ==> reply_report(reply) == (Report::PartialMetrics {
                rejected_data_points,
            })
            &&& rejected_data_points <= 0 && partial.error_message@.len() != 0
                ==> reply_report(reply) == (Report::MetricsWarning { rejected_data_points })
            &&& rejected_data_points <= 0 && partial.error_message@.len() == 0
                ==> reply_report(reply) is Clean
        },
{
}

/// The attempts to send one batch.
pub struct SendState {
    attempts: u16,
    backoff: u128,
    last_err_kind: Option<RetryErrKind>,
}

impl SendState {
    /// How many attempts were begun.
    pub closed spec fn attempts(&self) -> u16 {
        self.attempts
    }

    /// The wait before the next attempt, unless the deadline cuts it short.
    pub closed spec fn backoff(&self) -> u128 {
        self.backoff
    }

    /// The failure of the last attempt that is retried.
    pub closed spec fn last_err_kind(&self) -> Option<RetryErrKind> {
        self.last_err_kind
    }

    /// Before the first attempt.
    pub fn new() -> (r: Self)
        ensures
            r.attempts() == 0,
            r.backoff() == INITIAL_BACKOFF_NS,
            r.last_err_kind() is None,
    {
        SendState { attempts: 0, backoff: INITIAL_BACKOFF_NS, last_err_kind: None }
    }

    /// Begins an attempt and returns its number, from zero on.
    pub fn begin_attempt(&mut self) -> (r: u16)
        requires
            old(self).attempts() < u16::MAX,
        ensures
            r == old(self).attempts(),
            final(self).attempts() == old(self).attempts() + 1,
            final(self).backoff() == old(self).backoff(),
            final(self).last_err_kind() == old(self).last_err_kind(),
    {
        self.attempts = self.attempts + 1;
        self.attempts - 1
    }

    /// Judges how the attempt went.
    fn judge(&mut self, outcome: &Outcome) -> (r: Verdict)
        ensures
            r == verdict(*outcome, old(self).last_err_kind()),
            final(self).attempts() == old(self).attempts(),
            final(self).backoff() == old(self).backoff(),
            final(self).last_err_kind() == (match r {
                Verdict::Retry { kind, .. } => Some(kind),
                _ => old(self).last_err_kind(),
            }),
    {
        match outcome {
            Outcome::Replied(reply) => Verdict::Delivered(judge_reply(reply)),
            Outcome::BodyLost => Verdict::BodyLost,
            Outcome::Failed(err) => match err.kind() {
                Some(kind) => {
                    let repeated = match self.last_err_kind {
                        Some(last) => last == kind,
                        None => false,
                    };
                    self.last_err_kind = Some(kind);
                    Verdict::Retry { kind, repeated }
                },
                None => Verdict::Rejected,
            },
        }
    }

    /// How long to wait before the next attempt; nothing where the batch is to be given up.
    fn pause(&self, elapsed: u128) -> (r: Option<u128>)
        ensures
            r == retry_pause(self.backoff(), elapsed),
    {
        if elapsed >= MAX_RETRY_ELAPSED_NS {
            return None;
        }
        let remaining: u128 = MAX_RETRY_ELAPSED_NS - elapsed;
        if self.backoff < remaining {
            Some(self.backoff)
        } else {
            Some(remaining)
        }
    }

    /// Judges how the attempt went, `elapsed` nanoseconds after the first one, and decides what
    /// comes next.
    pub fn step(&mut self, outcome: &Outcome, elapsed: u128) -> (r: SendNext)
        ensures
            r == send_next(*outcome, old(self).last_err_kind(), old(self).backoff(), elapsed),
            r is Wait <==> transient(*outcome) && elapsed < MAX_RETRY_ELAPSED_NS,
            r is GiveUp <==> transient(*outcome) && elapsed >= MAX_RETRY_ELAPSED_NS,
            r is Finish <==> !transient(*outcome),
            final(self).attempts() == old(self).attempts(),
            final(self).backoff() == old(self).backoff(),
            final(self).last_err_kind() == (match r.verdict() {
                Verdict::Retry { kind, .. } => Some(kind),
                _ => old(self).last_err_kind(),
            }),
    {
        proof {
            attempts_are_followed_up(
                *outcome,
                self.last_err_kind(),
                self.backoff(),
                elapsed,
            );
        }
        let verdict = self.judge(outcome);
        match verdict {
            Verdict::Retry { .. } => match self.pause(elapsed) {
                Some(pause) => SendNext::Wait(verdict, pause),
                None => SendNext::GiveUp(verdict),
            },
            _ => SendNext::Finish(verdict),
        }
    }

    /// Sets the wait before the attempt after the next.
    pub fn grow(&mut self, backoff: u128)
        ensures
            final(self).backoff() == backoff,
            final(self).attempts() == old(self).attempts(),
            final(self).last_err_kind() == old(self).last_err_kind(),
    {
        self.backoff = backoff;
    }
}

/// A batch is sent again exactly after a failure to connect or an error of the server. Any
/// other refusal and any successful response, whatever its body, is final.
pub proof fn only_transient_failures_are_retried(outcome: Outcome, last: Option<RetryErrKind>)
    ensures
        verdict(outcome, last).is_retry() <==> (outcome matches Outcome::Failed(err) && (
        err.connect || (err.status is Some && server_error(err.status->0)))),
{
}

/// Of a series of failures of one kind, the first is told apart from those that only repeat it.
pub proof fn only_the_first_of_a_series_is_new(
    first: RequestError,
    again: RequestError,
    last: Option<RetryErrKind>,
)
    requires
        first.retry_kind() is Some,
        again.retry_kind() == first.retry_kind(),
        last != first.retry_kind(),
    ensures
        verdict(Outcome::Failed(first), last) == (Verdict::Retry {
            kind: first.retry_kind()->0,
            repeated: false,
        }),
        verdict(Outcome::Failed(again), first.retry_kind()) == (Verdict::Retry {
            kind: first.retry_kind()->0,
            repeated: true,
        }),
{
}

/// A wait never reaches beyond the deadline and is never longer than it should be, and a batch
/// is given up exactly from the deadline on.
pub proof fn waiting_ends_at_the_deadline(backoff: u128, elapsed: u128)
    ensures
        retry_pause(backoff, elapsed) is None <==> elapsed >= MAX_RETRY_ELAPSED_NS,
        retry_pause(backoff, elapsed) matches Some(pause) ==> {
            &&& elapsed + pause <= MAX_RETRY_ELAPSED_NS
            &&& pause <= backoff
            &&& pause == backoff || elapsed + pause == MAX_RETRY_ELAPSED_NS
        },
{
}

/// When a batch failed so often: the nanoseconds from its first attempt to each failure. The
/// clock runs on while waiting, and the wait is never shorter than the first.
pub open spec fn failure_times(elapsed: Seq<u128>, backoff: Seq<u128>) -> bool {
    &&& backoff.len() == elapsed.len()
    &&& forall|k: int| 0 <= k < backoff.len() ==> #[trigger] backoff[k] >= INITIAL_BACKOFF_NS
    &&& forall|k: int|
        0 <= k < elapsed.len() - 1 ==> {
            &&& retry_pause(backoff[k], #[trigger] elapsed[k]) is Some
            &&& elapsed[k + 1] >= elapsed[k] + retry_pause(backoff[k], elapsed[k])->0
        }
}

/// By the failure numbered `k`, so many waits have passed, or the deadline has.
proof fn time_passes(elapsed: Seq<u128>, backoff: Seq<u128>, k: int)
    requires
        failure_times(elapsed, backoff),
        0 <= k < elapsed.len(),
    ensures
        elapsed[k] >= k * INITIAL_BACKOFF_NS || elapsed[k] >= MAX_RETRY_ELAPSED_NS,
    decreases k,
{
    if k > 0 {
        time_passes(elapsed, backoff, k - 1);
        assert(retry_pause(backoff[k - 1], elapsed[k - 1]) is Some);
        assert(elapsed[k - 1 + 1] >= elapsed[k - 1] + retry_pause(
            backoff[k - 1],
            elapsed[k - 1],
        )->0);
    }
}

/// Retrying ends: a batch fails at most fifty-one times, so its attempts can always be counted.
pub proof fn attempts_are_bounded(elapsed: Seq<u128>, backoff: Seq<u128>)
    requires
        failure_times(elapsed, backoff),
    ensures
        elapsed.len() <= 51,
{
    if elapsed.len() >= 2 {
        let k = elapsed.len() - 2;
        time_passes(elapsed, backoff, k);
        assert(retry_pause(backoff[k], elapsed[k]) is Some);
    }
}

} // verus!
