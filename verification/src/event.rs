//! Events and the JSON objects they are sent as.
use vstd::prelude::*;

use crate::fields::{entry_views, Entry, FieldCascade};
use crate::text::{hex_is_injective, hex_text, ser_hex, ser_opt_hex};
use crate::value::{Number, Value, ValueView};

verus! {

/// An uninhabited payload: a queue of events without custom ones.
#[derive(Clone, Copy, Debug, PartialEq)]
pub struct Never {
    never: std::convert::Infallible,
}

/// The span kind. The ingest service recognizes a span by it, and there is only one.
pub struct BogusKind;

impl BogusKind {
    /// The kind as it is written.
    pub fn as_str(&self) -> (r: &'static str)
        ensures
            r@ == "server"@,
    {
        "server"
    }
}

/// Severity of an event or span.
#[derive(Clone, Copy, Debug, PartialEq, Eq, Structural)]
pub enum Level {
    Trace,
    Debug,
    Info,
    Warn,
    Error,
}

/// The name of a level as it is written.
pub open spec fn level_name(level: Level) -> Seq<char> {
    match level {
        Level::Trace => "trace"@,
        Level::Debug => "debug"@,
        Level::Info => "info"@,
        Level::Warn => "warn"@,
        Level::Error => "error"@,
    }
}

impl Level {
    /// The name of the level.
    pub fn as_str(&self) -> (r: &'static str)
        ensures
            r@ == level_name(*self),
    {
        match self {
            Level::Trace => "trace",
            Level::Debug => "debug",
            Level::Info => "info",
            Level::Warn => "warn",
            Level::Error => "error",
        }
    }
}

/// A point in time and the offset from UTC in which it is told.
#[derive(Clone, Copy, Debug, PartialEq, Eq, Structural)]
pub struct Timestamp {
    pub unix_nanos: i128,
    pub offset_seconds: i32,
}

/// Identity and timing of a finished span.
#[derive(Clone, Copy, Debug)]
pub struct SpanInfo {
    pub span_id: [u8; 8],
    pub trace_id: [u8; 16],
    pub duration_ns: u64,
    pub idle_ns: u64,
    pub busy_ns: u64,
}

/// What is sent: a log line, a finished span, or something of the caller's own.
#[allow(inconsistent_fields)]
pub enum Event<Extra = Never> {
    Log {
        message: Option<String>,
        module: Option<String>,
        target: String,
        level: Level,
        name: String,
        data: FieldCascade,
        time: Timestamp,
        trace_id: Option<[u8; 16]>,
        parent_span_id: Option<[u8; 8]>,
        kind: BogusKind,
    },
    Span {
        module: Option<String>,
        target: String,
        level: Level,
        name: String,
        data: Option<FieldCascade>,
        time: Timestamp,
        span_info: Option<SpanInfo>,
        parent_span_id: Option<[u8; 8]>,
        kind: BogusKind,
    },
    Extra(Extra),
}

/// A member of the object an event is sent as: a plain value or a flat object.
pub enum Node {
    Leaf(Value),
    Object(Vec<(String, Value)>),
}

/// What a member is, with its text as characters.
pub enum NodeView {
    Leaf(ValueView),
    Object(Seq<Entry>),
}

impl View for Node {
    type V = NodeView;

    open spec fn view(&self) -> NodeView {
        match self {
            Node::Leaf(value) => NodeView::Leaf(value@),
            Node::Object(entries) => NodeView::Object(entry_views(entries@)),
        }
    }
}

/// The members of an object, in the order in which they are written.
pub open spec fn member_views(members: Seq<(String, Node)>) -> Seq<(Seq<char>, NodeView)> {
    members.map_values(|member: (String, Node)| (member.0@, member.1@))
}

/// A member that is text.
pub open spec fn text_member(key: Seq<char>, text: Seq<char>) -> Seq<(Seq<char>, NodeView)> {
    seq![(key, NodeView::Leaf(ValueView::String(text)))]
}

/// A member that is text, where there is text.
pub open spec fn opt_text_member(key: Seq<char>, text: Option<String>) -> Seq<
    (Seq<char>, NodeView),
> {
    match text {
        Some(text) => text_member(key, text@),
        None => Seq::empty(),
    }
}

/// A member that is an identifier in hexadecimal, where there is one.
pub open spec fn opt_hex_member<const N: usize>(key: Seq<char>, id: Option<[u8; N]>) -> Seq<
    (Seq<char>, NodeView),
> {
    match id {
        Some(id) => text_member(key, hex_text(id@)),
        None => Seq::empty(),
    }
}

/// A member that counts something.
pub open spec fn count_member(key: Seq<char>, n: u64) -> Seq<(Seq<char>, NodeView)> {
    seq![(key, NodeView::Leaf(ValueView::Number(Number::PosInt(n))))]
}

/// The member that names the service.
pub open spec fn service_member(service_name: Seq<char>) -> Seq<(Seq<char>, NodeView)> {
    seq![("service"@, NodeView::Object(seq![("name"@, ValueView::String(service_name))]))]
}

/// The members of a finished span's identity and timing.
pub open spec fn span_info_members(info: Option<SpanInfo>) -> Seq<(Seq<char>, NodeView)> {
    match info {
        Some(info) => text_member("span_id"@, hex_text(info.span_id@)) + text_member(
            "trace_id"@,
            hex_text(info.trace_id@),
        ) + count_member("duration"@, info.duration_ns) + count_member("idle_ns"@, info.idle_ns)
            + count_member("busy_ns"@, info.busy_ns),
        None => Seq::empty(),
    }
}

/// The members of the object that an event is sent as, given its time as text. The members of
/// a custom event are its own and follow these.
pub open spec fn event_members<X>(
    service_name: Seq<char>,
    event: Event<X>,
    time: Seq<char>,
) -> Seq<(Seq<char>, NodeView)> {
    match event {
        Event::Log {
            message,
            module,
            target,
            level,
            name,
            data,
            trace_id,
            parent_span_id,
            ..
        } => service_member(service_name) + opt_text_member("message"@, message)
            + opt_text_member("module_path"@, module) + text_member("target"@, target@)
            + text_member("level"@, level_name(level)) + text_member("name"@, name@) + seq![
            ("data"@, NodeView::Object(data.entries())),
        ] + text_member("_time"@, time) + opt_hex_member("trace_id"@, trace_id)
            + opt_hex_member("parent_span_id"@, parent_span_id) + text_member(
            "kind"@,
            "server"@,
        ),
        Event::Span {
            module,
            target,
            level,
            name,
            data,
            span_info,
            parent_span_id,
            ..
        } => service_member(service_name) + opt_text_member("module_path"@, module)
            + text_member("target"@, target@) + text_member("level"@, level_name(level))
            + text_member("name"@, name@) + (match data {
            Some(data) => seq![("data"@, NodeView::Object(data.entries()))],
            None => Seq::empty(),
        }) + text_member("_time"@, time) + span_info_members(span_info) + opt_hex_member(
            "parent_span_id"@,
            parent_span_id,
        ) + text_member("kind"@, "server"@),
        Event::Extra(_) => service_member(service_name),
    }
}

/// What a reader of an object finds under a key; nothing where it has no such member.
pub open spec fn member(members: Seq<(Seq<char>, NodeView)>, key: Seq<char>) -> Option<NodeView>
    decreases members.len(),
{
    if members.len() == 0 {
        None
    } else if members.last().0 == key {
        Some(members.last().1)
    } else {
        member(members.drop_last(), key)
    }
}

/// Reading members one after the other.
proof fn member_concat(
    first: Seq<(Seq<char>, NodeView)>,
    second: Seq<(Seq<char>, NodeView)>,
    key: Seq<char>,
)
    ensures
        member(first + second, key) == (if member(second, key) is Some {
            member(second, key)
        } else {
            member(first, key)
        }),
    decreases second.len(),
{
    if second.len() == 0 {
        assert(first + second =~= first);
    } else {
        assert((first + second).last() == second.last());
        assert((first + second).drop_last() =~= first + second.drop_last());
        member_concat(first, second.drop_last(), key);
    }
}

/// A single member is found under its own key alone.
proof fn member_one(name: Seq<char>, node: NodeView, key: Seq<char>)
    ensures
        member(seq![(name, node)], key) == (if name == key {
            Some(node)
        } else {
            None
        }),
{
    let one = seq![(name, node)];
    assert(one.drop_last() =~= Seq::empty());
    assert(member(one.drop_last(), key) is None);
}

/// The place of a key among those of a log line; below zero where it is none of them.
pub open spec fn log_rank(key: Seq<char>) -> int {
    if key == "service"@ {
        0
    } else if key == "message"@ {
        1
    } else if key == "module_path"@ {
        2
    } else if key == "target"@ {
        3
    } else if key == "level"@ {
        4
    } else if key == "name"@ {
        5
    } else if key == "data"@ {
        6
    } else if key == "_time"@ {
        7
    } else if key == "trace_id"@ {
        8
    } else if key == "parent_span_id"@ {
        9
    } else if key == "kind"@ {
        10
    } else {
        -1
    }
}

/// The place of a key among those of a span; below zero where it is none of them.
pub open spec fn span_rank(key: Seq<char>) -> int {
    if key == "service"@ {
        0
    } else if key == "module_path"@ {
        1
    } else if key == "target"@ {
        2
    } else if key == "level"@ {
        3
    } else if key == "name"@ {
        4
    } else if key == "data"@ {
        5
    } else if key == "_time"@ {
        6
    } else if key == "span_id"@ {
        7
    } else if key == "trace_id"@ {
        8
    } else if key == "duration"@ {
        9
    } else if key == "idle_ns"@ {
        10
    } else if key == "busy_ns"@ {
        11
    } else if key == "parent_span_id"@ {
        12
    } else if key == "kind"@ {
        13
    } else {
        -1
    }
}

/// The keys have all different names.
proof fn keys_differ()
    ensures
        log_rank("service"@) == 0,
        log_rank("message"@) == 1,
        log_rank("module_path"@) == 2,
        log_rank("target"@) == 3,
        log_rank("level"@) == 4,
        log_rank("name"@) == 5,
        log_rank("data"@) == 6,
        log_rank("_time"@) == 7,
        log_rank("trace_id"@) == 8,
        log_rank("parent_span_id"@) == 9,
        log_rank("kind"@) == 10,
        span_rank("service"@) == 0,
        span_rank("module_path"@) == 1,
        span_rank("target"@) == 2,
        span_rank("level"@) == 3,
        span_rank("name"@) == 4,
        span_rank("data"@) == 5,
        span_rank("_time"@) == 6,
        span_rank("span_id"@) == 7,
        span_rank("trace_id"@) == 8,
        span_rank("duration"@) == 9,
        span_rank("idle_ns"@) == 10,
        span_rank("busy_ns"@) == 11,
        span_rank("parent_span_id"@) == 12,
        span_rank("kind"@) == 13,
{
    reveal_strlit("service");
    reveal_strlit("message");
    reveal_strlit("module_path");
    reveal_strlit("target");
    reveal_strlit("level");
    reveal_strlit("name");
    reveal_strlit("data");
    reveal_strlit("_time");
    reveal_strlit("trace_id");
    reveal_strlit("parent_span_id");
    reveal_strlit("kind");
    reveal_strlit("span_id");
    reveal_strlit("duration");
    reveal_strlit("idle_ns");
    reveal_strlit("busy_ns");
    assert("service"@.len() == 7 && "service"@[0] == 's' && "service"@[1] == 'e');
    assert("message"@.len() == 7 && "message"@[0] == 'm' && "message"@[1] == 'e');
    assert("module_path"@.len() == 11 && "module_path"@[0] == 'm' && "module_path"@[1] == 'o');
    assert("target"@.len() == 6 && "target"@[0] == 't' && "target"@[1] == 'a');
    assert("level"@.len() == 5 && "level"@[0] == 'l' && "level"@[1] == 'e');
    assert("name"@.len() == 4 && "name"@[0] == 'n' && "name"@[1] == 'a');
    assert("data"@.len() == 4 && "data"@[0] == 'd' && "data"@[1] == 'a');
    assert("_time"@.len() == 5 && "_time"@[0] == '_' && "_time"@[1] == 't');
    assert("trace_id"@.len() == 8 && "trace_id"@[0] == 't' && "trace_id"@[1] == 'r');
    assert("parent_span_id"@.len() == 14 && "parent_span_id"@[0] == 'p');
    assert("kind"@.len() == 4 && "kind"@[0] == 'k' && "kind"@[1] == 'i');
    assert("span_id"@.len() == 7 && "span_id"@[0] == 's' && "span_id"@[1] == 'p');
    assert("duration"@.len() == 8 && "duration"@[0] == 'd' && "duration"@[1] == 'u');
    assert("idle_ns"@.len() == 7 && "idle_ns"@[0] == 'i' && "idle_ns"@[1] == 'd');
    assert("busy_ns"@.len() == 7 && "busy_ns"@[0] == 'b' && "busy_ns"@[1] == 'u');
}

/// Members whose keys have places from `low` on and below `high`, in order and none twice.
pub open spec fn in_order(
    members: Seq<(Seq<char>, NodeView)>,
    rank: spec_fn(Seq<char>) -> int,
    low: int,
    high: int,
) -> bool {
    &&& forall|i: int| 0 <= i < members.len() ==> low <= #[trigger] rank(members[i].0) < high
    &&& forall|i: int, j: int|
        0 <= i < j < members.len() ==> #[trigger] rank(members[i].0) < #[trigger] rank(
            members[j].0,
        )
}

/// Members in order, and after them others with later places, are in order.
proof fn in_order_concat(
    first: Seq<(Seq<char>, NodeView)>,
    second: Seq<(Seq<char>, NodeView)>,
    rank: spec_fn(Seq<char>) -> int,
    low: int,
    between: int,
    high: int,
)
    requires
        low <= between <= high,
        in_order(first, rank, low, between),
        in_order(second, rank, between, high),
    ensures
        in_order(first + second, rank, low, high),
{
    let all = first + second;
    let n = first.len() as int;
    assert forall|i: int| 0 <= i < all.len() implies low <= #[trigger] rank(all[i].0) < high by {
        if i < n {
            assert(low <= rank(first[i].0) < between);
        } else {
            assert(between <= rank(second[i - n].0) < high);
        }
    }
    assert forall|i: int, j: int| 0 <= i < j < all.len() implies #[trigger] rank(all[i].0)
        < #[trigger] rank(all[j].0) by {
        if j < n {
            assert(rank(first[i].0) < rank(first[j].0));
        } else if i >= n {
            assert(rank(second[i - n].0) < rank(second[j - n].0));
        } else {
            assert(rank(first[i].0) < between);
            assert(between <= rank(second[j - n].0));
        }
    }
}

/// Optional text as a member.
pub open spec fn opt_text_node(text: Option<String>) -> Option<NodeView> {
    match text {
        Some(text) => Some(NodeView::Leaf(ValueView::String(text@))),
        None => None,
    }
}

/// The service as a member.
pub open spec fn service_node(service_name: Seq<char>) -> Option<NodeView> {
    Some(NodeView::Object(seq![("name"@, ValueView::String(service_name))]))
}

/// Text as a member.
pub open spec fn text_node(text: Seq<char>) -> Option<NodeView> {
    Some(NodeView::Leaf(ValueView::String(text)))
}

/// An optional identifier as a member: in hexadecimal.
pub open spec fn opt_hex_node<const N: usize>(id: Option<[u8; N]>) -> Option<NodeView> {
    match id {
        Some(id) => Some(NodeView::Leaf(ValueView::String(hex_text(id@)))),
        None => None,
    }
}

/// A count as a member.
pub open spec fn count_node(n: u64) -> Option<NodeView> {
    Some(NodeView::Leaf(ValueView::Number(Number::PosInt(n))))
}

/// Optional fields as a member.
pub open spec fn opt_data_node(data: Option<FieldCascade>) -> Option<NodeView> {
    match data {
        Some(data) => Some(NodeView::Object(data.entries())),
        None => None,
    }
}

/// Members of which one, at most, is there: under its key and at its place.
proof fn single(
    members: Seq<(Seq<char>, NodeView)>,
    name: Seq<char>,
    node: Option<NodeView>,
    rank: spec_fn(Seq<char>) -> int,
    place: int,
)
    requires
        members == (match node {
            Some(node) => seq![(name, node)],
            None => Seq::empty(),
        }),
        rank(name) == place,
    ensures
        in_order(members, rank, place, place + 1),
        forall|key: Seq<char>| #[trigger]
            member(members, key) == (if key == name {
                node
            } else {
                None
            }),
{
    assert forall|key: Seq<char>| #[trigger] member(members, key) == (if key == name {
        node
    } else {
        None
    }) by {
        match node {
            Some(node) => member_one(name, node, key),
            None => {},
        }
    }
}

/// Members in order, and one more at the next place: what is found is what was found, and under
/// the next key the next member.
proof fn one_more(
    members: Seq<(Seq<char>, NodeView)>,
    next: Seq<(Seq<char>, NodeView)>,
    name: Seq<char>,
    node: Option<NodeView>,
    rank: spec_fn(Seq<char>) -> int,
    place: int,
)
    requires
        0 <= place,
        in_order(members, rank, 0, place),
        next == (match node {
            Some(node) => seq![(name, node)],
            None => Seq::empty(),
        }),
        rank(name) == place,
    ensures
        in_order(members + next, rank, 0, place + 1),
        member(members + next, name) == node,
        forall|key: Seq<char>|
            key != name ==> #[trigger] member(members + next, key) == member(members, key),
{
    single(next, name, node, rank, place);
    in_order_concat(members, next, rank, 0, place, place + 1);
    assert forall|key: Seq<char>| key != name implies #[trigger] member(members + next, key)
        == member(members, key) by {
        member_concat(members, next, key);
        assert(member(next, key) is None);
    }
    member_concat(members, next, name);
    assert(member(next, name) == node);
    if node is None {
        not_in_order(members, rank, 0, place, name);
    }
}

/// A key whose place is out of bounds is not found.
proof fn not_in_order(
    members: Seq<(Seq<char>, NodeView)>,
    rank: spec_fn(Seq<char>) -> int,
    low: int,
    high: int,
    key: Seq<char>,
)
    requires
        in_order(members, rank, low, high),
        !(low <= rank(key) < high),
    ensures
        member(members, key) is None,
    decreases members.len(),
{
    if members.len() > 0 {
        let front = members.drop_last();
        assert(low <= rank(members[members.len() - 1].0) < high);
        assert forall|i: int| 0 <= i < front.len() implies low <= #[trigger] rank(front[i].0)
            < high by {
            assert(low <= rank(members[i].0) < high);
        }
        assert forall|i: int, j: int| 0 <= i < j < front.len() implies #[trigger] rank(front[i].0)
            < #[trigger] rank(front[j].0) by {
            assert(rank(members[i].0) < rank(members[j].0));
        }
        not_in_order(front, rank, low, high, key);
    }
}

/// The object of a log line gives, read by key, each of the event's own fields, and nothing under
/// the key of a field that the event has not. It has no other members, none twice, and all of them
/// in the order of [`log_rank`].
pub proof fn log_objects_tell_the_event<X>(service_name: Seq<char>, event: Event<X>, time: Seq<char>)
    ensures
        event matches Event::Log {
            message,
            module,
            target,
            level,
            name,
            data,
            trace_id,
            parent_span_id,
            ..
        } ==> {
            let members = event_members(service_name, event, time);
            &&& member(members, "service"@) == service_node(service_name)
            &&& member(members, "message"@) == opt_text_node(message)
            &&& member(members, "module_path"@) == opt_text_node(module)
            &&& member(members, "target"@) == text_node(target@)
            &&& member(members, "level"@) == text_node(level_name(level))
            &&& member(members, "name"@) == text_node(name@)
            &&& member(members, "data"@) == Some(NodeView::Object(data.entries()))
            &&& member(members, "_time"@) == text_node(time)
            &&& member(members, "trace_id"@) == opt_hex_node(trace_id)
            &&& member(members, "parent_span_id"@) == opt_hex_node(parent_span_id)
            &&& member(members, "kind"@) == text_node("server"@)
            &&& in_order(members, |key: Seq<char>| log_rank(key), 0, 11)
        },
{
    let rank = |key: Seq<char>| log_rank(key);
    keys_differ();
    match event {
        Event::Log { message, module, target, level, name, data, trace_id, parent_span_id, .. } => {
            let m0 = Seq::<(Seq<char>, NodeView)>::empty();
            let p0 = service_member(service_name);
            let m1 = m0 + p0;
            one_more(m0, p0, "service"@, service_node(service_name), rank, 0);
            let p1 = opt_text_member("message"@, message);
            let m2 = m1 + p1;
            one_more(m1, p1, "message"@, opt_text_node(message), rank, 1);
            let p2 = opt_text_member("module_path"@, module);
            let m3 = m2 + p2;
            one_more(m2, p2, "module_path"@, opt_text_node(module), rank, 2);
            let p3 = text_member("target"@, target@);
            let m4 = m3 + p3;
            one_more(m3, p3, "target"@, text_node(target@), rank, 3);
            let p4 = text_member("level"@, level_name(level));
            let m5 = m4 + p4;
            one_more(m4, p4, "level"@, text_node(level_name(level)), rank, 4);
            let p5 = text_member("name"@, name@);
            let m6 = m5 + p5;
            one_more(m5, p5, "name"@, text_node(name@), rank, 5);
            let p6 = seq![("data"@, NodeView::Object(data.entries()))];
            let m7 = m6 + p6;
            one_more(m6, p6, "data"@, Some(NodeView::Object(data.entries())), rank, 6);
            let p7 = text_member("_time"@, time);
            let m8 = m7 + p7;
            one_more(m7, p7, "_time"@, text_node(time), rank, 7);
            let p8 = opt_hex_member("trace_id"@, trace_id);
            let m9 = m8 + p8;
            one_more(m8, p8, "trace_id"@, opt_hex_node(trace_id), rank, 8);
            let p9 = opt_hex_member("parent_span_id"@, parent_span_id);
            let m10 = m9 + p9;
            one_more(m9, p9, "parent_span_id"@, opt_hex_node(parent_span_id), rank, 9);
            let p10 = text_member("kind"@, "server"@);
            let m11 = m10 + p10;
            one_more(m10, p10, "kind"@, text_node("server"@), rank, 10);
            assert(m1 =~= p0);
            assert(event_members(service_name, event, time) == m11);
        },
        _ => {},
    }
}

/// The object of a span gives, read by key, each of the span's own fields, identity and timing, and
/// nothing under the key of a field that the span has not. It has no other members, none twice, and
/// all of them in the order of [`span_rank`].
pub proof fn span_objects_tell_the_span<X>(
    service_name: Seq<char>,
    event: Event<X>,
    time: Seq<char>,
)
    ensures
        event matches Event::Span {
            module,
            target,
            level,
            name,
            data,
            span_info,
            parent_span_id,
            ..
        } ==> {
            let members = event_members(service_name, event, time);
            &&& member(members, "service"@) == service_node(service_name)
            &&& member(members, "module_path"@) == opt_text_node(module)
            &&& member(members, "target"@) == text_node(target@)
            &&& member(members, "level"@) == text_node(level_name(level))
            &&& member(members, "name"@) == text_node(name@)
            &&& member(members, "data"@) == opt_data_node(data)
            &&& member(members, "_time"@) == text_node(time)
            &&& member(members, "span_id"@) == (match span_info {
                Some(info) => text_node(hex_text(info.span_id@)),
                None => None,
            })
            &&& member(members, "trace_id"@) == (match span_info {
                Some(info) => text_node(hex_text(info.trace_id@)),
                None => None,
            })
            &&& member(members, "duration"@) == (match span_info {
                Some(info) => count_node(info.duration_ns),
                None => None,
            })
            &&& member(members, "idle_ns"@) == (match span_info {
                Some(info) => count_node(info.idle_ns),
                None => None,
            })
            &&& member(members, "busy_ns"@) == (match span_info {
                Some(info) => count_node(info.busy_ns),
                None => None,
            })
            &&& member(members, "parent_span_id"@) == opt_hex_node(parent_span_id)
            &&& member(members, "kind"@) == text_node("server"@)
            &&& in_order(members, |key: Seq<char>| span_rank(key), 0, 14)
        },
{
    let rank = |key: Seq<char>| span_rank(key);
    keys_differ();
    match event {
        Event::Span { module, target, level, name, data, span_info, parent_span_id, .. } => {
            let m0 = Seq::<(Seq<char>, NodeView)>::empty();
            let p0 = service_member(service_name);
            let m1 = m0 + p0;
            one_more(m0, p0, "service"@, service_node(service_name), rank, 0);
            let p1 = opt_text_member("module_path"@, module);
            let m2 = m1 + p1;
            one_more(m1, p1, "module_path"@, opt_text_node(module), rank, 1);
            let p2 = text_member("target"@, target@);
            let m3 = m2 + p2;
            one_more(m2, p2, "target"@, text_node(target@), rank, 2);
            let p3 = text_member("level"@, level_name(level));
            let m4 = m3 + p3;
            one_more(m3, p3, "level"@, text_node(level_name(level)), rank, 3);
            let p4 = text_member("name"@, name@);
            let m5 = m4 + p4;
            one_more(m4, p4, "name"@, text_node(name@), rank, 4);
            let p5 = (match data {
                Some(data) => seq![("data"@, NodeView::Object(data.entries()))],
                None => Seq::empty(),
            });
            let m6 = m5 + p5;
            one_more(m5, p5, "data"@, opt_data_node(data), rank, 5);
            let p6 = text_member("_time"@, time);
            let m7 = m6 + p6;
            one_more(m6, p6, "_time"@, text_node(time), rank, 6);
            let p7 = (match span_info {
                Some(info) => text_member("span_id"@, hex_text(info.span_id@)),
                None => Seq::empty(),
            });
            let m8 = m7 + p7;
            one_more(m7, p7, "span_id"@, (match span_info {
                Some(info) => text_node(hex_text(info.span_id@)),
                None => None,
            }), rank, 7);
            let p8 = (match span_info {
                Some(info) => text_member("trace_id"@, hex_text(info.trace_id@)),
                None => Seq::empty(),
            });
            let m9 = m8 + p8;
            one_more(m8, p8, "trace_id"@, (match span_info {
                Some(info) => text_node(hex_text(info.trace_id@)),
                None => None,
            }), rank, 8);
            let p9 = (match span_info {
                Some(info) => count_member("duration"@, info.duration_ns),
                None => Seq::empty(),
            });
            let m10 = m9 + p9;
            one_more(m9, p9, "duration"@, (match span_info {
                Some(info) => count_node(info.duration_ns),
                None => None,
            }), rank, 9);
            let p10 = (match span_info {
                Some(info) => count_member("idle_ns"@, info.idle_ns),
                None => Seq::empty(),
            });
            let m11 = m10 + p10;
            one_more(m10, p10, "idle_ns"@, (match span_info {
                Some(info) => count_node(info.idle_ns),
                None => None,
            }), rank, 10);
            let p11 = (match span_info {
                Some(info) => count_member("busy_ns"@, info.busy_ns),
                None => Seq::empty(),
            });
            let m12 = m11 + p11;
            one_more(m11, p11, "busy_ns"@, (match span_info {
                Some(info) => count_node(info.busy_ns),
                None => None,
            }), rank, 11);
            let p12 = opt_hex_member("parent_span_id"@, parent_span_id);
            let m13 = m12 + p12;
            one_more(m12, p12, "parent_span_id"@, opt_hex_node(parent_span_id), rank, 12);
            let p13 = text_member("kind"@, "server"@);
            let m14 = m13 + p13;
            one_more(m13, p13, "kind"@, text_node("server"@), rank, 13);
            assert(m1 =~= p0);
            assert(m12 =~= m7 + span_info_members(span_info));
            assert(event_members(service_name, event, time) == m14);
        },
        _ => {},
    }
}

/// A custom event has no members before its own but the service.
pub proof fn custom_objects_tell_the_service<X>(
    service_name: Seq<char>,
    extra: X,
    time: Seq<char>,
)
    ensures
        event_members(service_name, Event::Extra(extra), time) == seq![
            ("service"@, NodeView::Object(seq![("name"@, ValueView::String(service_name))])),
        ],
{
}

/// Levels have different names, each the level's own in lower case.
pub proof fn level_names_differ(a: Level, b: Level)
    ensures
        level_name(a) == level_name(b) ==> a == b,
        level_name(Level::Trace) == "trace"@,
        level_name(Level::Debug) == "debug"@,
        level_name(Level::Info) == "info"@,
        level_name(Level::Warn) == "warn"@,
        level_name(Level::Error) == "error"@,
{
    reveal_strlit("trace");
    reveal_strlit("debug");
    reveal_strlit("info");
    reveal_strlit("warn");
    reveal_strlit("error");
    assert("trace"@[0] == 't' && "debug"@[0] == 'd' && "info"@[0] == 'i' && "warn"@[0] == 'w'
        && "error"@[0] == 'e');
}

/// Log lines with the same object have the same fields: nothing of an event is lost in it.
pub proof fn same_object_same_event<X>(
    service_name: Seq<char>,
    a: Event<X>,
    b: Event<X>,
    time_a: Seq<char>,
    time_b: Seq<char>,
)
    requires
        a is Log,
        b is Log,
        event_members(service_name, a, time_a) == event_members(service_name, b, time_b),
    ensures
        a->Log_message is Some <==> b->Log_message is Some,
        a->Log_message is Some ==> a->Log_message->0@ == b->Log_message->0@,
        a->Log_module is Some <==> b->Log_module is Some,
        a->Log_module is Some ==> a->Log_module->0@ == b->Log_module->0@,
        a->Log_target@ == b->Log_target@,
        a->Log_level == b->Log_level,
        a->Log_name@ == b->Log_name@,
        a->Log_data.entries() == b->Log_data.entries(),
        time_a == time_b,
        a->trace_id is Some <==> b->trace_id is Some,
        a->trace_id is Some ==> a->trace_id->0@ == b->trace_id->0@,
        a->Log_parent_span_id is Some <==> b->Log_parent_span_id is Some,
        a->Log_parent_span_id is Some ==> a->Log_parent_span_id->0@ == b->Log_parent_span_id->0@,
{
    log_objects_tell_the_event(service_name, a, time_a);
    log_objects_tell_the_event(service_name, b, time_b);
    assert(text_node(level_name(a->Log_level)) == text_node(level_name(b->Log_level)));
    level_names_differ(a->Log_level, b->Log_level);
    assert(opt_hex_node(a->trace_id) == opt_hex_node(b->trace_id));
    if a->trace_id is Some {
        hex_is_injective(a->trace_id->0@, b->trace_id->0@);
    }
    assert(opt_hex_node(a->Log_parent_span_id) == opt_hex_node(b->Log_parent_span_id));
    if a->Log_parent_span_id is Some {
        hex_is_injective(a->Log_parent_span_id->0@, b->Log_parent_span_id->0@);
    }
    assert(opt_text_node(a->Log_message) == opt_text_node(b->Log_message));
    assert(opt_text_node(a->Log_module) == opt_text_node(b->Log_module));
    assert(text_node(a->Log_target@) == text_node(b->Log_target@));
    assert(text_node(a->Log_name@) == text_node(b->Log_name@));
    assert(text_node(time_a) == text_node(time_b));
}

/// The members of an object are its keys and nodes, one for one and in order, and a node shows all
/// of its value or entries.
pub proof fn members_are_shown_one_for_one(members: Seq<(String, Node)>)
    ensures
        member_views(members).len() == members.len(),
        forall|i: int|
            0 <= i < members.len() ==> (#[trigger] member_views(members)[i]).0 == members[i].0@
                && match members[i].1 {
                Node::Leaf(value) => member_views(members)[i].1 == NodeView::Leaf(value@),
                Node::Object(entries) => member_views(members)[i].1 == NodeView::Object(
                    entry_views(entries@),
                ),
            },
{
}

/// Appends a text member.
fn push_text(members: &mut Vec<(String, Node)>, key: &str, text: String)
    ensures
        member_views(final(members)@) == member_views(old(members)@) + text_member(key@, text@),
{
    members.push((key.to_owned(), Node::Leaf(Value::String(text))));
    assert(member_views(members@) =~= member_views(old(members)@) + text_member(key@, text@));
}

/// Appends a text member where there is text.
fn push_opt_text(members: &mut Vec<(String, Node)>, key: &str, text: Option<String>)
    ensures
        member_views(final(members)@) == member_views(old(members)@) + opt_text_member(
            key@,
            text,
        ),
{
    match text {
        Some(text) => push_text(members, key, text),
        None => {
            assert(member_views(members@) =~= member_views(old(members)@) + Seq::<
                (Seq<char>, NodeView),
            >::empty());
        },
    }
}

/// Appends an identifier where there is one.
fn push_opt_hex<const N: usize>(
    members: &mut Vec<(String, Node)>,
    key: &str,
    id: &Option<[u8; N]>,
)
    requires
        N * 2 <= 32,
    ensures
        member_views(final(members)@) == member_views(old(members)@) + opt_hex_member(key@, *id),
{
    match ser_opt_hex(id) {
        Some(text) => push_text(members, key, text),
        None => {
            assert(member_views(members@) =~= member_views(old(members)@) + Seq::<
                (Seq<char>, NodeView),
            >::empty());
        },
    }
}

/// Appends a count.
fn push_count(members: &mut Vec<(String, Node)>, key: &str, n: u64)
    ensures
        member_views(final(members)@) == member_views(old(members)@) + count_member(key@, n),
{
    members.push((key.to_owned(), Node::Leaf(Value::Number(Number::PosInt(n)))));
    assert(member_views(members@) =~= member_views(old(members)@) + count_member(key@, n));
}

/// Appends the fields of a cascade.
fn push_data(members: &mut Vec<(String, Node)>, data: FieldCascade)
    ensures
        member_views(final(members)@) == member_views(old(members)@) + seq![
            ("data"@, NodeView::Object(data.entries())),
        ],
{
    let entries = data.serialize_fields();
    members.push(("data".to_owned(), Node::Object(entries)));
    assert(member_views(members@) =~= member_views(old(members)@) + seq![
        ("data"@, NodeView::Object(data.entries())),
    ]);
}

/// Appends identity and timing of a finished span.
fn push_span_info(members: &mut Vec<(String, Node)>, info: &Option<SpanInfo>)
    ensures
        member_views(final(members)@) == member_views(old(members)@) + span_info_members(*info),
{
    match info {
        Some(info) => {
            push_text(members, "span_id", ser_hex(&info.span_id));
            push_text(members, "trace_id", ser_hex(&info.trace_id));
            push_count(members, "duration", info.duration_ns);
            push_count(members, "idle_ns", info.idle_ns);
            push_count(members, "busy_ns", info.busy_ns);
        },
        None => {},
    }
    assert(member_views(members@) =~= member_views(old(members)@) + span_info_members(*info));
}

/// The member that names the service.
fn start_members(service_name: &str) -> (r: Vec<(String, Node)>)
    ensures
        member_views(r@) == service_member(service_name@),
{
    let mut service: Vec<(String, Value)> = Vec::new();
    service.push(("name".to_owned(), Value::String(service_name.to_owned())));
    assert(entry_views(service@) =~= seq![("name"@, ValueView::String(service_name@))]);
    let mut members: Vec<(String, Node)> = Vec::new();
    members.push(("service".to_owned(), Node::Object(service)));
    assert(member_views(members@) =~= service_member(service_name@));
    members
}

/// An event taken apart: its members, and the payload of a custom event, whose own members
/// follow.
pub struct EventObject<X> {
    pub members: Vec<(String, Node)>,
    pub extra: Option<X>,
}

/// Takes an event apart, given its time as text.
pub fn event_object_at<X>(service_name: &str, event: Event<X>, time: String) -> (r: EventObject<
    X,
>)
    ensures
        member_views(r.members@) == event_members(service_name@, event, time@),
        r.extra == (match event {
            Event::Extra(extra) => Some(extra),
            _ => None,
        }),
{
    let mut members = start_members(service_name);
    match event {
        Event::Log {
            message,
            module,
            target,
            level,
            name,
            data,
            time: _,
            trace_id,
            parent_span_id,
            kind,
        } => {
            push_opt_text(&mut members, "message", message);
            push_opt_text(&mut members, "module_path", module);
            push_text(&mut members, "target", target);
            push_text(&mut members, "level", level.as_str().to_owned());
            push_text(&mut members, "name", name);
            push_data(&mut members, data);
            push_text(&mut members, "_time", time);
            push_opt_hex(&mut members, "trace_id", &trace_id);
            push_opt_hex(&mut members, "parent_span_id", &parent_span_id);
            push_text(&mut members, "kind", kind.as_str().to_owned());
            EventObject { members, extra: None }
        },
        Event::Span {
            module,
            target,
            level,
            name,
            data,
            time: _,
            span_info,
            parent_span_id,
            kind,
        } => {
            push_opt_text(&mut members, "module_path", module);
            push_text(&mut members, "target", target);
            push_text(&mut members, "level", level.as_str().to_owned());
            push_text(&mut members, "name", name);
            let ghost so_far = member_views(members@);
            match data {
                Some(data) => push_data(&mut members, data),
                None => {
                    assert(so_far =~= so_far + Seq::<(Seq<char>, NodeView)>::empty());
                },
            }
            push_text(&mut members, "_time", time);
            push_span_info(&mut members, &span_info);
            push_opt_hex(&mut members, "parent_span_id", &parent_span_id);
            push_text(&mut members, "kind", kind.as_str().to_owned());
            EventObject { members, extra: None }
        },
        Event::Extra(extra) => EventObject { members, extra: Some(extra) },
    }
}

/// The text that `time::OffsetDateTime::format` gives, in the RFC 3339 form, for the instant so
/// many nanoseconds after the Unix epoch told in the given offset; nothing where the instant
/// or the offset is out of its range or has no such form.
pub uninterp spec fn rfc3339_text(unix_nanos: i128, offset_seconds: i32) -> Option<Seq<char>>;

/// Calls `time::OffsetDateTime::format` with the well-known RFC 3339 description, on the
/// date-time that the two numbers stand for. Its result is [`rfc3339_text`] of them.
#[verifier::external_body]
fn format_rfc3339(unix_nanos: i128, offset_seconds: i32) -> (r: Option<String>)
    ensures
        r is Some <==> rfc3339_text(unix_nanos, offset_seconds) is Some,
        r matches Some(text) ==> rfc3339_text(unix_nanos, offset_seconds) == Some(text@),
{
    let utc = time::OffsetDateTime::from_unix_timestamp_nanos(unix_nanos).ok()?;
    let offset = time::UtcOffset::from_whole_seconds(offset_seconds).ok()?;
    let told = utc.checked_to_offset(offset)?;
    told.format(&time::format_description::well_known::Rfc3339).ok()
}

/// The time of an event as text. A custom event tells its own time, if any.
pub open spec fn event_time<X>(event: Event<X>) -> Option<Seq<char>> {
    match event {
        Event::Log { time, .. } => rfc3339_text(time.unix_nanos, time.offset_seconds),
        Event::Span { time, .. } => rfc3339_text(time.unix_nanos, time.offset_seconds),
        Event::Extra(_) => Some(Seq::empty()),
    }
}

/// The time of a log line or a span is told in its own offset; a custom event always has one.
pub proof fn times_are_told_in_their_offset<X>(event: Event<X>)
    ensures
        event matches Event::Log { time, .. } ==> event_time(event) == rfc3339_text(
            time.unix_nanos,
            time.offset_seconds,
        ),
        event matches Event::Span { time, .. } ==> event_time(event) == rfc3339_text(
            time.unix_nanos,
            time.offset_seconds,
        ),
        event is Extra ==> event_time(event) is Some,
{
}

/// Takes an event apart for sending. An event whose time has no text cannot be sent.
pub fn event_object<X>(service_name: &str, event: Event<X>) -> (r: Option<EventObject<X>>)
    ensures
        r is Some <==> event_time(event) is Some,
        r matches Some(object) ==> {
            &&& member_views(object.members@) == event_members(
                service_name@,
                event,
                event_time(event)->0,
            )
            &&& object.extra == (match event {
                Event::Extra(extra) => Some(extra),
                _ => None,
            })
        },
{
    let time: Option<String> = match &event {
        Event::Log { time, .. } => format_rfc3339(time.unix_nanos, time.offset_seconds),
        Event::Span { time, .. } => format_rfc3339(time.unix_nanos, time.offset_seconds),
        Event::Extra(_) => Some(String::new()),
    };
    match time {
        Some(time) => Some(event_object_at(service_name, event, time)),
        None => None,
    }
}

} // verus!
