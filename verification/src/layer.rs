//! Spans and events as they are observed: identity, timing, and what is sent of them.
use rand::Rng;
use vstd::prelude::*;

use crate::config::INTERNAL_TARGET;
use crate::event::{BogusKind, Event, Level, SpanInfo, Timestamp};
use crate::text::starts_with;
use crate::value::ValueView;

pub use crate::fields::FieldCascade;

verus! {

/// A small random number generator, carried through unread.
#[verifier::external_type_specification]
#[verifier::external_body]
pub struct ExSmallRng(rand::rngs::SmallRng);

/// Calls `rand::Rng::random` for an array of bytes. Nothing is promised of them.
#[verifier::external_body]
fn random_id<const N: usize>(rng: &mut rand::rngs::SmallRng) -> (r: [u8; N]) {
    rng.random()
}

/// `id` came out of a call of [`random_id`] on the generator that `rng` borrows: `*rng` is the
/// generator before the call, and `*final(rng)` after it.
pub closed spec fn drawn<const N: usize>(rng: &mut rand::rngs::SmallRng, id: [u8; N]) -> bool {
    call_ensures(random_id::<N>, (rng,), id)
}

/// A draw is a result of calling [`random_id`], and nothing else is.
proof fn draws_come_from_the_generator<const N: usize>(
    rng: &mut rand::rngs::SmallRng,
    id: [u8; N],
)
    ensures
        drawn(rng, id) <==> call_ensures(random_id::<N>, (rng,), id),
{
}

/// Calls `f` on a generator.
fn draw_by<const N: usize, F: FnOnce(&mut rand::rngs::SmallRng) -> [u8; N]>(
    f: F,
    rng: &mut rand::rngs::SmallRng,
) -> (r: [u8; N])
    requires
        forall|g: &mut rand::rngs::SmallRng| #[trigger] call_requires(f, (g,)),
    ensures
        exists|g: &mut rand::rngs::SmallRng| #[trigger]
            call_ensures(f, (g,), r) && *g == *old(rng) && *final(g) == *final(rng),
{
    f(rng)
}

/// Draws an identifier.
fn draw<const N: usize>(rng: &mut rand::rngs::SmallRng) -> (r: [u8; N])
    ensures
        exists|g: &mut rand::rngs::SmallRng| #[trigger]
            drawn(g, r) && *g == *old(rng) && *final(g) == *final(rng),
{
    let r: [u8; N] = draw_by(random_id::<N>, rng);
    proof {
        let g = choose|g: &mut rand::rngs::SmallRng| #[trigger]
            call_ensures(random_id::<N>, (g,), r) && *g == *old(rng) && *final(g) == *rng;
        draws_come_from_the_generator(g, r);
    }
    r
}

/// The nanoseconds from `earlier` to `now`, none if the clock went back.
pub open spec fn nanos_between(earlier: u64, now: u64) -> int {
    if now >= earlier {
        now - earlier
    } else {
        0
    }
}

/// How long a span was entered and how long it was not, in nanoseconds of a running clock.
pub struct Timing {
    pub start_instant: u64,
    pub start_dt: Timestamp,
    pub idle: u64,
    pub busy: u64,
    pub last: u64,
    pub entered_depth: u64,
}

impl Timing {
    /// A span that starts.
    pub open spec fn started(start_instant: u64, start_dt: Timestamp) -> Self {
        Timing { start_instant, start_dt, idle: 0, busy: 0, last: start_instant, entered_depth: 0 }
    }

    /// The span once more entered. Only the outermost entry ends idle time.
    pub open spec fn entered(self, now: u64) -> Self {
        if self.entered_depth == 0 {
            Timing {
                entered_depth: 1,
                idle: (self.idle + nanos_between(self.last, now)) as u64,
                last: now,
                ..self
            }
        } else {
            Timing { entered_depth: (self.entered_depth + 1) as u64, ..self }
        }
    }

    /// The span once less entered. Only the outermost exit ends busy time, and an exit without
    /// an entry changes nothing.
    pub open spec fn exited(self, now: u64) -> Self {
        if self.entered_depth == 1 {
            Timing {
                entered_depth: 0,
                busy: (self.busy + nanos_between(self.last, now)) as u64,
                last: now,
                ..self
            }
        } else if self.entered_depth == 0 {
            self
        } else {
            Timing { entered_depth: (self.entered_depth - 1) as u64, ..self }
        }
    }

    /// The time up to the last change is accounted for: it was either idle or busy.
    pub open spec fn accounted(&self) -> bool {
        &&& self.start_instant <= self.last
        &&& self.idle + self.busy == self.last - self.start_instant
    }

    /// A span that starts.
    pub fn new(start_instant: u64, start_dt: Timestamp) -> (r: Self)
        ensures
            r == Timing::started(start_instant, start_dt),
            r.accounted(),
    {
        Timing { start_instant, start_dt, idle: 0, busy: 0, last: start_instant, entered_depth: 0 }
    }

    /// The span is entered.
    pub fn on_enter(&mut self, now: u64)
        requires
            old(self).entered_depth < u64::MAX,
            old(self).entered_depth == 0 ==> old(self).idle + nanos_between(old(self).last, now)
                <= u64::MAX,
        ensures
            *final(self) == old(self).entered(now),
    {
        self.entered_depth = self.entered_depth + 1;
        if self.entered_depth == 1 {
            self.idle = self.idle + now.saturating_sub(self.last);
            self.last = now;
        }
    }

    /// The span is left.
    pub fn on_exit(&mut self, now: u64)
        requires
            old(self).entered_depth == 1 ==> old(self).busy + nanos_between(old(self).last, now)
                <= u64::MAX,
        ensures
            *final(self) == old(self).exited(now),
    {
        if self.entered_depth == 1 {
            self.busy = self.busy + now.saturating_sub(self.last);
            self.last = now;
        }
        self.entered_depth = self.entered_depth.saturating_sub(1);
    }
}

/// A clock difference is what has to be added to the earlier reading to get the later one, and
/// nothing where the clock went back.
pub proof fn differences_add_up(earlier: u64, now: u64)
    ensures
        now >= earlier ==> earlier + nanos_between(earlier, now) == now,
        now < earlier ==> nanos_between(earlier, now) == 0,
{
}

/// A span starts with nothing counted. Entering it counts one entry more, leaving it one less as
/// long as there is one, and neither changes when it started.
pub proof fn entries_are_counted(timing: Timing, now: u64, start_dt: Timestamp)
    requires
        timing.entered_depth < u64::MAX,
    ensures
        ({
            let new = Timing::started(now, start_dt);
            &&& new.start_instant == now && new.start_dt == start_dt && new.last == now
            &&& new.idle == 0 && new.busy == 0 && new.entered_depth == 0
        }),
        timing.entered(now).entered_depth == timing.entered_depth + 1,
        timing.entered_depth > 0 ==> timing.exited(now).entered_depth == timing.entered_depth - 1,
        timing.entered_depth == 0 ==> timing.exited(now) == timing,
        timing.entered(now).start_instant == timing.start_instant,
        timing.entered(now).start_dt == timing.start_dt,
        timing.exited(now).start_instant == timing.start_instant,
        timing.exited(now).start_dt == timing.start_dt,
{
}

/// Only the outermost entry and exit are timed: the entry ends idle time and the exit busy time,
/// each by what the clock went forward since the last of them. All others change no time.
pub proof fn only_the_outermost_is_timed(timing: Timing, now: u64)
    requires
        timing.entered_depth < u64::MAX,
        timing.idle + now <= u64::MAX,
        timing.busy + now <= u64::MAX,
    ensures
        ({
            let entered = timing.entered(now);
            let exited = timing.exited(now);
            &&& entered.busy == timing.busy
            &&& exited.idle == timing.idle
            &&& timing.entered_depth > 0 ==> entered.idle == timing.idle && entered.last
                == timing.last
            &&& timing.entered_depth != 1 ==> exited.busy == timing.busy && exited.last
                == timing.last
            &&& timing.entered_depth == 0 ==> entered.last == now && entered.idle == timing.idle
                + (if now > timing.last { now - timing.last } else { 0 })
            &&& timing.entered_depth == 1 ==> exited.last == now && exited.busy == timing.busy
                + (if now > timing.last { now - timing.last } else { 0 })
        }),
{
}

/// On a clock that does not go back, the sums of a span's idle and busy time never overflow.
pub proof fn times_fit(timing: Timing, now: u64)
    requires
        timing.accounted(),
        timing.last <= now,
    ensures
        timing.idle + nanos_between(timing.last, now) <= u64::MAX,
        timing.busy + nanos_between(timing.last, now) <= u64::MAX,
{
}

/// On a clock that does not go back, entering and leaving a span keep its time accounted for:
/// every nanosecond up to the last change is either idle or busy, and none is both.
pub proof fn time_stays_accounted(timing: Timing, now: u64)
    requires
        timing.accounted(),
        timing.last <= now,
    ensures
        timing.entered(now).accounted(),
        timing.exited(now).accounted(),
        timing.entered(now).last <= now,
        timing.exited(now).last <= now,
{
}

/// A nested entry and its exit leave the timing as it was.
pub proof fn nested_entry_is_undone(timing: Timing, entered: u64, left: u64)
    requires
        0 < timing.entered_depth < u64::MAX,
    ensures
        timing.entered(entered).exited(left) == timing,
{
}

/// An entry and its exit add the time between them to the busy time, and the time before them
/// to the idle time.
pub proof fn entry_and_exit_are_measured(timing: Timing, entered: u64, left: u64)
    requires
        timing.accounted(),
        timing.entered_depth == 0,
        timing.last <= entered <= left,
    ensures
        timing.entered(entered).exited(left).entered_depth == 0,
        timing.entered(entered).exited(left).idle == timing.idle + (entered - timing.last),
        timing.entered(entered).exited(left).busy == timing.busy + (left - entered),
{
}

/// What is kept of a live span.
pub struct SpanExtra {
    pub span_id: [u8; 8],
    pub trace_id: [u8; 16],
    pub timing: Timing,
}

impl SpanExtra {
    /// A span that starts. It belongs to the trace of its parent, or else to a new one.
    pub fn new(
        parent_trace_id: Option<[u8; 16]>,
        new_trace_id: [u8; 16],
        span_id: [u8; 8],
        start_instant: u64,
        start_dt: Timestamp,
    ) -> (r: Self)
        ensures
            r.span_id == span_id,
            r.trace_id == (match parent_trace_id {
                Some(trace_id) => trace_id,
                None => new_trace_id,
            }),
            r.timing == Timing::started(start_instant, start_dt),
    {
        let trace_id: [u8; 16] = match parent_trace_id {
            Some(trace_id) => trace_id,
            None => new_trace_id,
        };
        SpanExtra { span_id, trace_id, timing: Timing::new(start_instant, start_dt) }
    }

    /// Identity and timing of the span when it is closed.
    pub fn info(&self, now: u64) -> (r: SpanInfo)
        ensures
            r.span_id == self.span_id,
            r.trace_id == self.trace_id,
            r.duration_ns == nanos_between(self.timing.start_instant, now),
            r.idle_ns == self.timing.idle,
            r.busy_ns == self.timing.busy,
            self.timing.accounted() && self.timing.last <= now ==> r.idle_ns + r.busy_ns
                <= r.duration_ns,
    {
        SpanInfo {
            span_id: self.span_id,
            trace_id: self.trace_id,
            duration_ns: now.saturating_sub(self.timing.start_instant),
            idle_ns: self.timing.idle,
            busy_ns: self.timing.busy,
        }
    }
}

/// A span starts. Its span identifier is drawn from the generator, for every span anew. Its trace
/// is that of its parent, or else drawn before that. The generator is left as the last draw
/// leaves it.
pub fn on_new_span(
    rng: &mut rand::rngs::SmallRng,
    parent_trace_id: Option<[u8; 16]>,
    start_instant: u64,
    start_dt: Timestamp,
) -> (r: SpanExtra)
    ensures
        parent_trace_id is Some ==> r.trace_id == parent_trace_id->0,
        parent_trace_id is Some ==> exists|g: &mut rand::rngs::SmallRng| #[trigger]
            drawn(g, r.span_id) && *g == *old(rng) && *final(g) == *final(rng),
        parent_trace_id is None ==> exists|g: &mut rand::rngs::SmallRng, h:
            &mut rand::rngs::SmallRng| #[trigger]
            drawn(g, r.trace_id) && #[trigger] drawn(h, r.span_id) && *g == *old(rng) && *h
                == *final(g) && *final(h) == *final(rng),
        r.timing == Timing::started(start_instant, start_dt),
{
    let new_trace_id: [u8; 16] = match parent_trace_id {
        Some(trace_id) => trace_id,
        None => draw(rng),
    };
    let ghost between = *rng;
    let span_id: [u8; 8] = draw(rng);
    proof {
        let h = choose|h: &mut rand::rngs::SmallRng| #[trigger]
            drawn(h, span_id) && *h == between && *final(h) == *rng;
        if parent_trace_id is None {
            let g = choose|g: &mut rand::rngs::SmallRng| #[trigger]
                drawn(g, new_trace_id) && *g == *old(rng) && *final(g) == between;
            assert(drawn(g, new_trace_id) && drawn(h, span_id));
        }
    }
    SpanExtra::new(parent_trace_id, new_trace_id, span_id, start_instant, start_dt)
}

/// Spans that start one after the other in a trace share the trace and nothing else: each has an
/// identifier drawn for it alone, the later one from the generator as the earlier one left it.
pub proof fn siblings_are_drawn_apart(
    first: &mut rand::rngs::SmallRng,
    second: &mut rand::rngs::SmallRng,
    a: SpanExtra,
    b: SpanExtra,
)
    requires
        exists|g: &mut rand::rngs::SmallRng| #[trigger]
            drawn(g, a.span_id) && *g == *first && *final(g) == *final(first),
        exists|g: &mut rand::rngs::SmallRng| #[trigger]
            drawn(g, b.span_id) && *g == *second && *final(g) == *final(second),
        *second == *final(first),
    ensures
        exists|g: &mut rand::rngs::SmallRng, h: &mut rand::rngs::SmallRng| #[trigger]
            drawn(g, a.span_id) && #[trigger] drawn(h, b.span_id) && *g == *old(first) && *h
                == *final(g) && *final(h) == *final(second),
{
    let g = choose|g: &mut rand::rngs::SmallRng| #[trigger]
        drawn(g, a.span_id) && *g == *first && *final(g) == *final(first);
    let h = choose|h: &mut rand::rngs::SmallRng| #[trigger]
        drawn(h, b.span_id) && *h == *second && *final(h) == *final(second);
    assert(drawn(g, a.span_id) && drawn(h, b.span_id));
}

/// Where an event or span was declared.
pub struct Meta {
    pub module: Option<String>,
    pub target: String,
    pub level: Level,
    pub name: String,
}

/// Whether something was logged by the client itself.
pub fn is_internal(target: &str) -> (r: bool)
    ensures
        r == INTERNAL_TARGET@.is_prefix_of(target@),
{
    starts_with(target, INTERNAL_TARGET)
}

/// The identifiers that an event has from the span around it.
pub struct SpanIds {
    pub span_id: [u8; 8],
    pub trace_id: [u8; 16],
}

/// What is sent of an event: a log line with the identifiers of the span around it, if any.
/// Its message, where it is text, stands on its own and not among the fields. Of what the
/// client itself logs nothing is sent.
pub fn on_event<X>(
    around: Option<SpanIds>,
    meta: Meta,
    fields: FieldCascade,
    time: Timestamp,
) -> (r: Option<Event<X>>)
    requires
        fields.wf(),
    ensures
        r is None <==> INTERNAL_TARGET@.is_prefix_of(meta.target@),
        r matches Some(event) ==> {
            &&& event matches Event::Log {
                message,
                module,
                target,
                level,
                name,
                data,
                time: t,
                trace_id,
                parent_span_id,
                ..
            }
            &&& message is Some <==> fields.fields().dom().contains("message"@)
                && fields.fields()["message"@] is String
            &&& message is Some ==> fields.fields()["message"@] == ValueView::String(message->0@)
            &&& message is Some ==> data.fields() == fields.fields().remove("message"@)
            &&& message is None ==> data == fields
            &&& data.outer() == fields.outer()
            &&& data.wf()
            &&& module == meta.module
            &&& target == meta.target
            &&& level == meta.level
            &&& name == meta.name
            &&& t == time
            &&& trace_id == (match around {
                Some(around) => Some(around.trace_id),
                None => None,
            })
            &&& parent_span_id == (match around {
                Some(around) => Some(around.span_id),
                None => None,
            })
        },
{
    if is_internal(meta.target.as_str()) {
        return None;
    }
    let (parent_span_id, trace_id) = match around {
        Some(around) => (Some(around.span_id), Some(around.trace_id)),
        None => (None, None),
    };
    let mut data = fields;
    let message = data.take_message();
    Some(
        Event::Log {
            message,
            module: meta.module,
            target: meta.target,
            level: meta.level,
            name: meta.name,
            data,
            time,
            trace_id,
            parent_span_id,
            kind: BogusKind,
        },
    )
}

/// What is sent of a span that closes: its identity and timing, if they were kept, under the
/// time at which it started, or else under the present time.
pub fn on_close<X>(
    extra: Option<(SpanExtra, FieldCascade)>,
    parent_span_id: Option<[u8; 8]>,
    meta: Meta,
    now: u64,
    now_dt: Timestamp,
) -> (r: Event<X>)
    ensures
        r matches Event::Span {
            module,
            target,
            level,
            name,
            data,
            time,
            span_info,
            parent_span_id: p,
            ..
        } && {
            &&& module == meta.module
            &&& target == meta.target
            &&& level == meta.level
            &&& name == meta.name
            &&& p == parent_span_id
            &&& match extra {
                Some((extra, fields)) => {
                    &&& data == Some(fields)
                    &&& time == extra.timing.start_dt
                    &&& span_info is Some
                    &&& span_info->0.span_id == extra.span_id
                    &&& span_info->0.trace_id == extra.trace_id
                    &&& span_info->0.duration_ns == nanos_between(
                        extra.timing.start_instant,
                        now,
                    )
                    &&& span_info->0.idle_ns == extra.timing.idle
                    &&& span_info->0.busy_ns == extra.timing.busy
                },
                None => data is None && time == now_dt && span_info is None,
            }
        },
{
    let (time, data, span_info) = match extra {
        Some((extra, fields)) => {
            let info = extra.info(now);
            (extra.timing.start_dt, Some(fields), Some(info))
        },
        None => (now_dt, None, None),
    };
    Event::Span {
        module: meta.module,
        target: meta.target,
        level: meta.level,
        name: meta.name,
        data,
        time,
        span_info,
        parent_span_id,
        kind: BogusKind,
    }
}

/// How putting an event into the queue went.
#[derive(Clone, Copy, Debug, PartialEq, Eq, Structural)]
pub enum Enqueued {
    /// It was put in.
    Accepted,
    /// Nobody holds the queue open any more, or nobody receives from it.
    Closed,
    /// The queue has no room.
    Full,
}

/// The complaint about an event that could not be put into the queue and is dropped. Nobody
/// waits for room.
pub fn drop_message(enqueued: Enqueued) -> (r: Option<&'static str>)
    ensures
        r is None <==> enqueued == Enqueued::Accepted,
        enqueued == Enqueued::Closed ==> r->0@ == "queue closed. dropping event"@,
        enqueued == Enqueued::Full ==> r->0@ == "queue full. dropping event"@,
{
    match enqueued {
        Enqueued::Accepted => None,
        Enqueued::Closed => Some("queue closed. dropping event"),
        Enqueued::Full => Some("queue full. dropping event"),
    }
}

} // verus!
