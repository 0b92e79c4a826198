//! The protocol between a coordinator and its senders, step by step, and what holds of it
//! however the steps interleave.
//!
//! A sender announces itself as idle, waits to be notified, takes the batch out of its slot,
//! sends it, and either stops or announces itself again. A coordinator takes an idle sender,
//! puts a batch into its slot and notifies it; when there is no more to send, it closes the
//! slots one by one and notifies each sender. A notification that finds nobody waiting is kept,
//! but only one of them.
use vstd::multiset::Multiset;
use vstd::prelude::*;

use crate::batch::{all_values, closing_flushes, no_item_is_lost, Collected, Feed};
use crate::pool::SenderSlotState;

verus! {

/// Where a sender stands.
pub enum SenderPhase<B> {
    /// About to announce itself as idle.
    Announcing,
    /// Waiting for a notification.
    Waiting,
    /// Notified, about to look into its slot.
    Woken,
    /// Sending a batch.
    Sending(B),
    /// About to look whether it is to stop.
    Checking,
    /// Stopped.
    Done,
}

/// Where a coordinator stands.
pub enum CoordPhase {
    /// Collecting a batch, or waiting for an idle sender.
    Collecting,
    /// Has been told that a sender is idle.
    Holding(int),
    /// Has put a batch into the sender's slot.
    Notifying(int),
    /// About to close a slot.
    Closing(int),
    /// Has closed the slot.
    ClosingNotify(int),
    /// Stopped.
    Stopped,
}

/// A sender and its slot.
pub struct Station<B> {
    pub phase: SenderPhase<B>,
    pub slot: SenderSlotState<B>,
    /// Whether a notification is kept for the sender.
    pub permit: bool,
    /// Every batch that was put into the slot, in order.
    pub published: Seq<B>,
    /// Every batch that was sent, in order.
    pub sent: Seq<B>,
}

/// A coordinator, its senders, and the queue of idle ones.
pub struct Pool<B> {
    pub stations: Seq<Station<B>>,
    pub idle: Seq<int>,
    pub coord: CoordPhase,
}

/// One step of the coordinator or of a sender.
pub enum Step<B> {
    Announce(int),
    Wake(int),
    Take(int),
    Sent(int),
    Check(int),
    Claim,
    Publish(B),
    Notify,
    StartClosing,
    CloseSlot,
    NotifyClosed,
}

impl<B> Pool<B> {
    /// A pool at its start.
    pub open spec fn start(size: nat) -> Self {
        Pool {
            stations: Seq::new(
                size,
                |i: int|
                    Station {
                        phase: SenderPhase::Announcing,
                        slot: SenderSlotState { blob: None, closed: false },
                        permit: false,
                        published: Seq::empty(),
                        sent: Seq::empty(),
                    },
            ),
            idle: Seq::empty(),
            coord: CoordPhase::Collecting,
        }
    }

    /// The pool with another state of one station.
    pub open spec fn with(self, i: int, station: Station<B>) -> Self {
        Pool { stations: self.stations.update(i, station), ..self }
    }

    /// Whether a step can be taken. A slot's own demands are not among the conditions: that they
    /// are met is what has to be shown.
    pub open spec fn enabled(self, step: Step<B>) -> bool {
        let n = self.stations.len();
        match step {
            Step::Announce(i) => 0 <= i < n && self.stations[i].phase is Announcing
                && self.idle.len() < n,
            Step::Wake(i) => 0 <= i < n && self.stations[i].phase is Waiting
                && self.stations[i].permit,
            Step::Take(i) => 0 <= i < n && self.stations[i].phase is Woken,
            Step::Sent(i) => 0 <= i < n && self.stations[i].phase is Sending,
            Step::Check(i) => 0 <= i < n && self.stations[i].phase is Checking,
            Step::Claim => self.coord is Collecting && self.idle.len() > 0,
            Step::Publish(_) => self.coord is Holding,
            Step::Notify => self.coord is Notifying,
            Step::StartClosing => self.coord is Collecting,
            Step::CloseSlot => self.coord matches CoordPhase::Closing(k) && k < n,
            Step::NotifyClosed => self.coord is ClosingNotify,
        }
    }

    /// The pool after a step.
    pub open spec fn step(self, step: Step<B>) -> Self {
        match step {
            Step::Announce(i) => Pool {
                idle: self.idle.push(i),
                ..self.with(i, Station { phase: SenderPhase::Waiting, ..self.stations[i] })
            },
            Step::Wake(i) => self.with(
                i,
                Station { phase: SenderPhase::Woken, permit: false, ..self.stations[i] },
            ),
            Step::Take(i) => self.with(
                i,
                Station {
                    phase: match self.stations[i].slot.blob {
                        Some(blob) => SenderPhase::Sending(blob),
                        None => SenderPhase::Done,
                    },
                    slot: self.stations[i].slot.taken(),
                    ..self.stations[i]
                },
            ),
            Step::Sent(i) => self.with(
                i,
                Station {
                    phase: SenderPhase::Checking,
                    sent: match self.stations[i].phase {
                        SenderPhase::Sending(blob) => self.stations[i].sent.push(blob),
                        _ => self.stations[i].sent,
                    },
                    ..self.stations[i]
                },
            ),
            Step::Check(i) => self.with(
                i,
                Station {
                    phase: if self.stations[i].slot.closed {
                        SenderPhase::Done
                    } else {
                        SenderPhase::Announcing
                    },
                    ..self.stations[i]
                },
            ),
            Step::Claim => Pool {
                idle: self.idle.drop_first(),
                coord: CoordPhase::Holding(self.idle[0]),
                ..self
            },
            Step::Publish(blob) => match self.coord {
                CoordPhase::Holding(i) => Pool {
                    coord: CoordPhase::Notifying(i),
                    ..self.with(
                        i,
                        Station {
                            slot: self.stations[i].slot.published(blob),
                            published: self.stations[i].published.push(blob),
                            ..self.stations[i]
                        },
                    )
                },
                _ => self,
            },
            Step::Notify => match self.coord {
                CoordPhase::Notifying(i) => Pool {
                    coord: CoordPhase::Collecting,
                    ..self.with(i, Station { permit: true, ..self.stations[i] })
                },
                _ => self,
            },
            Step::StartClosing => Pool {
                coord: if self.stations.len() == 0 {
                    CoordPhase::Stopped
                } else {
                    CoordPhase::Closing(0)
                },
                ..self
            },
            Step::CloseSlot => match self.coord {
                CoordPhase::Closing(i) => Pool {
                    coord: CoordPhase::ClosingNotify(i),
                    ..self.with(
                        i,
                        Station { slot: self.stations[i].slot.shut(), ..self.stations[i] },
                    )
                },
                _ => self,
            },
            Step::NotifyClosed => match self.coord {
                CoordPhase::ClosingNotify(i) => Pool {
                    coord: if i + 1 == self.stations.len() {
                        CoordPhase::Stopped
                    } else {
                        CoordPhase::Closing(i + 1)
                    },
                    ..self.with(i, Station { permit: true, ..self.stations[i] })
                },
                _ => self,
            },
        }
    }

    /// All steps of a run.
    pub open spec fn run(self, steps: Seq<Step<B>>) -> Self
        decreases steps.len(),
    {
        if steps.len() == 0 {
            self
        } else {
            self.run(steps.drop_last()).step(steps.last())
        }
    }

    /// Every step of a run could be taken.
    pub open spec fn possible(self, steps: Seq<Step<B>>) -> bool
        decreases steps.len(),
    {
        steps.len() > 0 ==> {
            &&& self.possible(steps.drop_last())
            &&& self.run(steps.drop_last()).enabled(steps.last())
        }
    }

    /// The slot at `i` has been closed.
    pub open spec fn closing_reached(self, i: int) -> bool {
        match self.coord {
            CoordPhase::Closing(k) => i < k,
            CoordPhase::ClosingNotify(k) => i <= k,
            CoordPhase::Stopped => true,
            _ => false,
        }
    }

    /// The sender at `i` has been told that its slot is closed.
    pub open spec fn closing_told(self, i: int) -> bool {
        match self.coord {
            CoordPhase::Closing(k) => i < k,
            CoordPhase::ClosingNotify(k) => i < k,
            CoordPhase::Stopped => true,
            _ => false,
        }
    }

    /// What the coordinator knows of the sender at `i`: that it is idle.
    pub open spec fn held(self, i: int) -> bool {
        self.coord == CoordPhase::Holding(i)
    }

    /// What holds of the station at `i`.
    pub open spec fn station_inv(self, i: int) -> bool {
        let s = self.stations[i];
        let known_idle = self.idle.contains(i) || self.held(i);
        // A slot is closed exactly when the coordinator has come by it.
        &&& s.slot.closed <==> self.closing_reached(i)
        // Whoever counts as idle is waiting on an empty slot, or has left because it was closed.
        &&& known_idle ==> s.slot.blob is None && (s.phase is Waiting || s.slot.closed && (
        s.phase is Woken || s.phase is Done))
        // A batch in a slot is for a sender that waits or has just been woken.
        &&& s.slot.blob is Some ==> s.phase is Waiting || s.phase is Woken
        // A woken sender finds something.
        &&& s.phase is Woken ==> s.slot.blob is Some || s.slot.closed
        // So does one that will be woken.
        &&& s.permit ==> s.slot.closed || s.slot.blob is Some && s.phase is Waiting
        // A sender whose batch has yet to be notified is still waiting.
        &&& self.coord == CoordPhase::Notifying(i) ==> s.phase is Waiting && s.slot.blob is Some
            && !s.permit
        // A waiting sender that nobody knows to be idle has a batch, or is about to leave.
        &&& s.phase is Waiting && !known_idle ==> s.slot.blob is Some
        // A batch that waits will be noticed.
        &&& s.phase is Waiting && s.slot.blob is Some ==> s.permit || self.coord
            == CoordPhase::Notifying(i)
        // A sender that was told to stop and has yet to act on it will be woken.
        &&& self.closing_told(i) && (s.phase is Waiting || s.phase is Announcing) ==> s.permit
        // A sender stops only once its slot is closed.
        &&& s.phase is Done ==> s.slot.closed
        // Every batch put into the slot has been sent, is being sent, or waits in the slot.
        &&& s.published == s.sent + (match s.phase {
            SenderPhase::Sending(blob) => seq![blob],
            _ => Seq::<B>::empty(),
        }) + (match s.slot.blob {
            Some(blob) => seq![blob],
            None => Seq::<B>::empty(),
        })
    }

    /// What holds of the pool.
    pub open spec fn inv(self) -> bool {
        let n = self.stations.len();
        &&& forall|i: int| 0 <= i < n ==> #[trigger] self.station_inv(i)
        &&& self.idle.no_duplicates()
        &&& forall|j: int| 0 <= j < self.idle.len() ==> 0 <= #[trigger] self.idle[j] < n
        &&& match self.coord {
            CoordPhase::Holding(i) => 0 <= i < n && !self.idle.contains(i),
            CoordPhase::Notifying(i) => 0 <= i < n,
            CoordPhase::Closing(i) => 0 <= i < n,
            CoordPhase::ClosingNotify(i) => 0 <= i < n,
            _ => true,
        }
    }
}

/// A pool starts in order.
proof fn start_inv<B>(size: nat)
    ensures
        Pool::<B>::start(size).inv(),
{
    let pool = Pool::<B>::start(size);
    assert forall|i: int| 0 <= i < pool.stations.len() implies #[trigger] pool.station_inv(i) by {
        assert(Seq::<B>::empty() + Seq::<B>::empty() + Seq::<B>::empty() =~= Seq::<B>::empty());
    }
}

/// Every step that can be taken keeps the pool in order.
proof fn step_inv<B>(pool: Pool<B>, step: Step<B>)
    requires
        pool.inv(),
        pool.enabled(step),
    ensures
        pool.step(step).inv(),
        pool.step(step).stations.len() == pool.stations.len(),
{
    let next = pool.step(step);
    let n = pool.stations.len();
    match step {
        Step::Announce(i) => {
            assert(pool.station_inv(i));
            assert(next.idle.drop_last() =~= pool.idle);
            assert(!pool.idle.contains(i));
            assert forall|j: int| next.idle.contains(j) implies j == i || pool.idle.contains(j) by {
                let x = choose|x: int| 0 <= x < next.idle.len() && next.idle[x] == j;
                if x < pool.idle.len() {
                    assert(pool.idle[x] == j);
                }
            }
            assert forall|j: int| pool.idle.contains(j) implies next.idle.contains(j) by {
                let x = choose|x: int| 0 <= x < pool.idle.len() && pool.idle[x] == j;
                assert(next.idle[x] == j);
            }
            assert(next.idle[pool.idle.len() as int] == i);
            assert forall|j: int| 0 <= j < n implies #[trigger] next.station_inv(j) by {
                assert(pool.station_inv(j));
            }
        },
        Step::Claim => {
            let i = pool.idle[0];
            assert(pool.idle.contains(i));
            assert forall|j: int| next.idle.contains(j) implies pool.idle.contains(j) && j != i by {
                let x = choose|x: int| 0 <= x < next.idle.len() && next.idle[x] == j;
                assert(pool.idle[x + 1] == j);
            }
            assert forall|j: int| pool.idle.contains(j) && j != i implies next.idle.contains(j) by {
                let x = choose|x: int| 0 <= x < pool.idle.len() && pool.idle[x] == j;
                assert(next.idle[x - 1] == j);
            }
            assert forall|j: int| 0 <= j < n implies #[trigger] next.station_inv(j) by {
                assert(pool.station_inv(j));
            }
        },
        Step::Take(i) => {
            assert(pool.station_inv(i));
            let before = pool.stations[i];
            let after = next.stations[i];
            assert(before.published =~= after.sent + (match after.phase {
                SenderPhase::Sending(blob) => seq![blob],
                _ => Seq::<B>::empty(),
            }) + Seq::<B>::empty());
            assert forall|j: int| 0 <= j < n implies #[trigger] next.station_inv(j) by {
                assert(pool.station_inv(j));
            }
        },
        Step::Sent(i) => {
            assert(pool.station_inv(i));
            let before = pool.stations[i];
            let after = next.stations[i];
            assert(before.published =~= after.sent + Seq::<B>::empty() + Seq::<B>::empty());
            assert forall|j: int| 0 <= j < n implies #[trigger] next.station_inv(j) by {
                assert(pool.station_inv(j));
            }
        },
        Step::Publish(blob) => {
            match pool.coord {
                CoordPhase::Holding(i) => {
                    assert(pool.station_inv(i));
                    let before = pool.stations[i];
                    let after = next.stations[i];
                    assert(after.published =~= after.sent + Seq::<B>::empty() + seq![blob]);
                },
                _ => {},
            }
            assert forall|j: int| 0 <= j < n implies #[trigger] next.station_inv(j) by {
                assert(pool.station_inv(j));
            }
        },
        _ => {
            assert forall|j: int| 0 <= j < n implies #[trigger] next.station_inv(j) by {
                assert(pool.station_inv(j));
            }
        },
    }
}

/// However the steps interleave, the pool stays in order.
pub proof fn pool_stays_in_order<B>(size: nat, steps: Seq<Step<B>>)
    requires
        Pool::<B>::start(size).possible(steps),
    ensures
        Pool::<B>::start(size).run(steps).inv(),
        Pool::<B>::start(size).run(steps).stations.len() == size,
    decreases steps.len(),
{
    if steps.len() == 0 {
        start_inv::<B>(size);
    } else {
        pool_stays_in_order(size, steps.drop_last());
        step_inv(Pool::<B>::start(size).run(steps.drop_last()), steps.last());
    }
}

/// What a slot demands of those who use it is always met: a coordinator finds the slot of an
/// idle sender empty and open, and a woken sender finds a batch or a closed slot.
pub proof fn slot_demands_are_met<B>(size: nat, steps: Seq<Step<B>>)
    requires
        Pool::<B>::start(size).possible(steps),
    ensures
        Pool::<B>::start(size).run(steps).coord matches CoordPhase::Holding(i) ==> {
            &&& 0 <= i < size
            &&& Pool::<B>::start(size).run(steps).stations[i].slot.blob is None
            &&& !Pool::<B>::start(size).run(steps).stations[i].slot.closed
        },
        forall|i: int|
            0 <= i < size && (#[trigger] Pool::<B>::start(size).run(
                steps,
            ).stations[i]).phase is Woken ==> {
                let slot = Pool::<B>::start(size).run(steps).stations[i].slot;
                slot.blob is Some || slot.closed
            },
{
    pool_stays_in_order(size, steps);
    let pool = Pool::<B>::start(size).run(steps);
    assert forall|i: int| 0 <= i < size implies pool.station_inv(i) by {}
    match pool.coord {
        CoordPhase::Holding(i) => {
            assert(pool.station_inv(i));
        },
        _ => {},
    }
    assert forall|i: int|
        0 <= i < size && (#[trigger] pool.stations[i]).phase is Woken implies pool.stations[i].slot.blob is Some
        || pool.stations[i].slot.closed by {
        assert(pool.station_inv(i));
    }
}

/// Distinct numbers below `n` without `missing` are fewer than `n`.
proof fn fewer_than_all(s: Seq<int>, n: nat, missing: int)
    requires
        s.no_duplicates(),
        forall|j: int| 0 <= j < s.len() ==> 0 <= #[trigger] s[j] < n,
        0 <= missing < n,
        !s.contains(missing),
    ensures
        s.len() < n,
{
    let all = vstd::set_lib::set_int_range(0, n as int);
    vstd::set_lib::lemma_int_range(0, n as int);
    s.unique_seq_to_set();
    let rest = all.remove(missing);
    assert forall|x: int| s.to_set().contains(x) implies rest.contains(x) by {
        let j = choose|j: int| 0 <= j < s.len() && s[j] == x;
        assert(0 <= s[j] < n);
    }
    vstd::set_lib::lemma_len_subset(s.to_set(), rest);
}

/// The queue of idle senders has room for a sender that is about to announce itself, so
/// announcing never blocks.
pub proof fn announcing_never_blocks<B>(size: nat, steps: Seq<Step<B>>, i: int)
    requires
        Pool::<B>::start(size).possible(steps),
        0 <= i < size,
        Pool::<B>::start(size).run(steps).stations[i].phase is Announcing,
    ensures
        Pool::<B>::start(size).run(steps).enabled(Step::Announce(i)),
{
    pool_stays_in_order(size, steps);
    let pool = Pool::<B>::start(size).run(steps);
    assert(pool.station_inv(i));
    fewer_than_all(pool.idle, size, i);
}

/// No batch is lost, doubled or reordered on its way through a sender: what was sent is the
/// beginning of what was handed to the sender, at most one batch behind; and a sender that has
/// stopped has sent all of it.
pub proof fn no_batch_is_lost<B>(size: nat, steps: Seq<Step<B>>, i: int)
    requires
        Pool::<B>::start(size).possible(steps),
        0 <= i < size,
    ensures
        ({
            let station = Pool::<B>::start(size).run(steps).stations[i];
            &&& station.sent.is_prefix_of(station.published)
            &&& station.published.len() <= station.sent.len() + 1
            &&& station.phase is Done ==> station.sent == station.published
        }),
{
    pool_stays_in_order(size, steps);
    let pool = Pool::<B>::start(size).run(steps);
    assert(pool.station_inv(i));
    let station = pool.stations[i];
    if station.phase is Done {
        assert(station.published =~= station.sent);
    }
    assert(station.sent.is_prefix_of(station.published));
}

/// The batches that a run hands to senders, in order.
pub open spec fn handed_out<B>(steps: Seq<Step<B>>) -> Seq<B>
    decreases steps.len(),
{
    if steps.len() == 0 {
        Seq::empty()
    } else {
        match steps.last() {
            Step::Publish(blob) => handed_out(steps.drop_last()).push(blob),
            _ => handed_out(steps.drop_last()),
        }
    }
}

/// A pool of one sends the batches in the order in which they were made.
pub proof fn single_sender_keeps_order<B>(steps: Seq<Step<B>>)
    requires
        Pool::<B>::start(1).possible(steps),
    ensures
        Pool::<B>::start(1).run(steps).stations[0].published == handed_out(steps),
        Pool::<B>::start(1).run(steps).stations[0].sent.is_prefix_of(handed_out(steps)),
    decreases steps.len(),
{
    if steps.len() > 0 {
        single_sender_keeps_order(steps.drop_last());
        pool_stays_in_order(1, steps.drop_last());
    }
    no_batch_is_lost(1, steps, 0);
}

/// All batches that the senders were given, whichever was given which.
pub open spec fn all_published<B>(stations: Seq<Station<B>>) -> Multiset<B>
    decreases stations.len(),
{
    if stations.len() == 0 {
        Multiset::empty()
    } else {
        all_published(stations.drop_last()).add(stations.last().published.to_multiset())
    }
}

/// All batches that the senders have sent, whichever sent which.
pub open spec fn all_sent<B>(stations: Seq<Station<B>>) -> Multiset<B>
    decreases stations.len(),
{
    if stations.len() == 0 {
        Multiset::empty()
    } else {
        all_sent(stations.drop_last()).add(stations.last().sent.to_multiset())
    }
}

/// Only what the senders were given counts.
proof fn same_published<B>(a: Seq<Station<B>>, b: Seq<Station<B>>)
    requires
        a.len() == b.len(),
        forall|i: int| 0 <= i < a.len() ==> (#[trigger] a[i]).published == b[i].published,
    ensures
        all_published(a) == all_published(b),
    decreases a.len(),
{
    if a.len() > 0 {
        assert(a[a.len() - 1].published == b[a.len() - 1].published);
        assert forall|i: int| 0 <= i < a.drop_last().len() implies (
        #[trigger] a.drop_last()[i]).published == b.drop_last()[i].published by {
            assert(a[i].published == b[i].published);
        }
        same_published(a.drop_last(), b.drop_last());
    }
}

/// One more batch for one of the senders is one more batch in all.
proof fn published_push<B>(stations: Seq<Station<B>>, i: int, station: Station<B>, blob: B)
    requires
        0 <= i < stations.len(),
        station.published == stations[i].published.push(blob),
    ensures
        all_published(stations.update(i, station)) == all_published(stations).insert(blob),
    decreases stations.len(),
{
    let after = stations.update(i, station);
    stations[i].published.to_multiset_ensures();
    if i == stations.len() - 1 {
        assert(after.drop_last() =~= stations.drop_last());
    } else {
        assert(after.drop_last() =~= stations.drop_last().update(i, station));
        published_push(stations.drop_last(), i, station, blob);
    }
    assert(all_published(after) =~= all_published(stations).insert(blob));
}

/// Where every sender has sent all that it was given, all that was given has been sent.
proof fn sent_is_published<B>(stations: Seq<Station<B>>)
    requires
        forall|i: int|
            0 <= i < stations.len() ==> (#[trigger] stations[i]).sent == stations[i].published,
    ensures
        all_sent(stations) == all_published(stations),
    decreases stations.len(),
{
    if stations.len() > 0 {
        assert(stations[stations.len() - 1].sent == stations[stations.len() - 1].published);
        let front = stations.drop_last();
        assert forall|i: int| 0 <= i < front.len() implies (#[trigger] front[i]).sent
            == front[i].published by {
            assert(stations[i].sent == stations[i].published);
        }
        sent_is_published(front);
    }
}

/// A pool at its start has been given nothing.
proof fn nothing_published<B>(stations: Seq<Station<B>>)
    requires
        forall|i: int|
            0 <= i < stations.len() ==> (#[trigger] stations[i]).published == Seq::<B>::empty(),
    ensures
        all_published(stations) == Multiset::<B>::empty(),
    decreases stations.len(),
{
    if stations.len() > 0 {
        assert(stations[stations.len() - 1].published == Seq::<B>::empty());
        let front = stations.drop_last();
        assert forall|i: int| 0 <= i < front.len() implies (#[trigger] front[i]).published
            == Seq::<B>::empty() by {
            assert(stations[i].published == Seq::<B>::empty());
        }
        nothing_published(front);
        Seq::<B>::empty().to_multiset_ensures();
        assert(Seq::<B>::empty().to_multiset() =~= Multiset::<B>::empty());
        assert(all_published(stations) =~= Multiset::<B>::empty());
    }
}

/// What a coordinator hands out is what its senders are given, each batch to one of them.
pub proof fn each_batch_has_one_sender<B>(size: nat, steps: Seq<Step<B>>)
    requires
        Pool::<B>::start(size).possible(steps),
    ensures
        all_published(Pool::<B>::start(size).run(steps).stations)
            == handed_out(steps).to_multiset(),
    decreases steps.len(),
{
    let start = Pool::<B>::start(size);
    if steps.len() == 0 {
        nothing_published(start.stations);
        Seq::<B>::empty().to_multiset_ensures();
        assert(handed_out(steps).to_multiset() =~= Multiset::<B>::empty());
    } else {
        let front = steps.drop_last();
        each_batch_has_one_sender(size, front);
        pool_stays_in_order(size, front);
        let before = start.run(front);
        let after = start.run(steps);
        match steps.last() {
            Step::Publish(blob) => {
                match before.coord {
                    CoordPhase::Holding(i) => {
                        published_push(before.stations, i, after.stations[i], blob);
                        assert(after.stations =~= before.stations.update(i, after.stations[i]));
                    },
                    _ => {},
                }
                handed_out(front).to_multiset_ensures();
            },
            _ => {
                same_published(before.stations, after.stations);
            },
        }
    }
}

/// Once every sender has stopped, all batches that were handed out have been sent, each of them
/// exactly once.
pub proof fn stopped_pool_has_sent_all<B>(size: nat, steps: Seq<Step<B>>)
    requires
        Pool::<B>::start(size).possible(steps),
        forall|i: int|
            0 <= i < size ==> (#[trigger] Pool::<B>::start(size).run(
                steps,
            ).stations[i]).phase is Done,
    ensures
        all_sent(Pool::<B>::start(size).run(steps).stations) == handed_out(steps).to_multiset(),
        size == 1 ==> Pool::<B>::start(size).run(steps).stations[0].sent == handed_out(steps),
{
    let pool = Pool::<B>::start(size).run(steps);
    pool_stays_in_order(size, steps);
    each_batch_has_one_sender(size, steps);
    assert forall|i: int| 0 <= i < pool.stations.len() implies (#[trigger] pool.stations[i]).sent
        == pool.stations[i].published by {
        no_batch_is_lost(size, steps, i);
    }
    sent_is_published(pool.stations);
    if size == 1 {
        single_sender_keeps_order(steps);
        assert(pool.stations[0].sent == pool.stations[0].published);
    }
}

/// Shutting down loses nothing. Where every item can be encoded, and the batches that a
/// coordinator collected until its queue was closed are what it handed out, then by the time
/// every sender has stopped, every item received has been sent, in exactly one batch; and a pool
/// of one has sent them in the order in which they were received.
pub proof fn everything_is_delivered<T>(
    target: usize,
    feeds: Seq<Feed<T>>,
    size: nat,
    steps: Seq<Step<Seq<T>>>,
)
    requires
        0 < target,
        Collected::<T>::start().valid_run(target, feeds),
        forall|i: int| 0 <= i < feeds.len() ==> (#[trigger] feeds[i]).encodable(),
        Pool::<Seq<T>>::start(size).possible(steps),
        handed_out(steps) == Collected::<T>::start().run(target, feeds.push(Feed::Closed)).sent,
        forall|i: int|
            0 <= i < size ==> (#[trigger] Pool::<Seq<T>>::start(size).run(
                steps,
            ).stations[i]).phase is Done,
    ensures
        all_sent(Pool::<Seq<T>>::start(size).run(steps).stations)
            == handed_out(steps).to_multiset(),
        handed_out(steps).flatten() == all_values(feeds),
        size == 1 ==> Pool::<Seq<T>>::start(size).run(steps).stations[0].sent.flatten()
            == all_values(feeds),
{
    stopped_pool_has_sent_all(size, steps);
    let start = Collected::<T>::start();
    let all = feeds.push(Feed::Closed);
    assert(all.drop_last() =~= feeds);
    assert(all.last() == Feed::<T>::Closed);
    assert(start.valid_run(target, all));
    assert forall|i: int| 0 <= i < all.len() implies (#[trigger] all[i]).encodable() by {
        if i < feeds.len() {
            assert(feeds[i].encodable());
        }
    }
    no_item_is_lost(target, all);
    closing_flushes(target, feeds);
    let sent = start.run(target, all).sent;
    assert(sent.flatten() + Seq::<T>::empty() =~= sent.flatten());
    assert(all_values(feeds) + Seq::<T>::empty() =~= all_values(feeds));
}

/// A sender that is sending, however long that takes, is given nothing else.
pub proof fn busy_sender_is_left_alone<B>(size: nat, steps: Seq<Step<B>>, i: int)
    requires
        Pool::<B>::start(size).possible(steps),
        0 <= i < size,
        Pool::<B>::start(size).run(steps).stations[i].phase is Sending,
    ensures
        !Pool::<B>::start(size).run(steps).idle.contains(i),
        Pool::<B>::start(size).run(steps).coord != CoordPhase::Holding(i),
        Pool::<B>::start(size).run(steps).stations[i].slot.blob is None,
{
    pool_stays_in_order(size, steps);
    assert(Pool::<B>::start(size).run(steps).station_inv(i));
}

/// While every sender is sending, a coordinator with another batch can only wait: nobody is
/// idle, so there is no slot to put it into.
pub proof fn full_pool_pushes_back<B>(size: nat, steps: Seq<Step<B>>, blob: B)
    requires
        Pool::<B>::start(size).possible(steps),
        forall|i: int|
            0 <= i < size ==> (#[trigger] Pool::<B>::start(size).run(
                steps,
            ).stations[i]).phase is Sending,
    ensures
        !Pool::<B>::start(size).run(steps).enabled(Step::Claim),
        !Pool::<B>::start(size).run(steps).enabled(Step::Publish(blob)),
{
    pool_stays_in_order(size, steps);
    let pool = Pool::<B>::start(size).run(steps);
    if pool.idle.len() > 0 {
        let i = pool.idle[0];
        assert(pool.idle.contains(i));
        assert(pool.station_inv(i));
        assert(pool.stations[i].phase is Sending);
    }
    match pool.coord {
        CoordPhase::Holding(i) => {
            assert(pool.station_inv(i));
            assert(pool.stations[i].phase is Sending);
        },
        _ => {},
    }
}

/// One more step at the end of a run.
proof fn run_push<B>(pool: Pool<B>, steps: Seq<Step<B>>, step: Step<B>)
    ensures
        pool.run(steps.push(step)) == pool.run(steps).step(step),
        pool.possible(steps.push(step)) <==> pool.possible(steps) && pool.run(steps).enabled(step),
{
    assert(steps.push(step).drop_last() =~= steps);
}

/// Every one of the first senders announces itself and is given a batch, one after the other.
pub open spec fn keep_busy<B>(blobs: Seq<B>) -> Seq<Step<B>>
    decreases blobs.len(),
{
    if blobs.len() == 0 {
        Seq::empty()
    } else {
        let i = blobs.len() - 1;
        keep_busy(blobs.drop_last()).push(Step::Announce(i)).push(Step::Claim).push(
            Step::Publish(blobs.last()),
        ).push(Step::Notify).push(Step::Wake(i)).push(Step::Take(i))
    }
}

/// The first senders are sending, and the others have yet to announce themselves.
proof fn keeping_busy<B>(size: nat, blobs: Seq<B>)
    requires
        blobs.len() <= size,
    ensures
        Pool::<B>::start(size).possible(keep_busy(blobs)),
        ({
            let pool = Pool::<B>::start(size).run(keep_busy(blobs));
            &&& pool.stations.len() == size
            &&& pool.coord is Collecting
            &&& pool.idle == Seq::<int>::empty()
            &&& forall|j: int|
                0 <= j < size ==> (#[trigger] pool.stations[j]).phase == (if j < blobs.len() {
                    SenderPhase::Sending(blobs[j])
                } else {
                    SenderPhase::Announcing
                })
        }),
    decreases blobs.len(),
{
    let start = Pool::<B>::start(size);
    if blobs.len() == 0 {
        assert(start.idle =~= Seq::<int>::empty());
    } else {
        let front = blobs.drop_last();
        keeping_busy(size, front);
        let i = blobs.len() - 1;
        let s0 = keep_busy(front);
        let s1 = s0.push(Step::Announce(i));
        let s2 = s1.push(Step::Claim);
        let s3 = s2.push(Step::Publish(blobs.last()));
        let s4 = s3.push(Step::Notify);
        let s5 = s4.push(Step::Wake(i));
        let s6 = s5.push(Step::Take(i));
        assert(keep_busy(blobs) == s6);
        run_push(start, s0, Step::Announce(i));
        run_push(start, s1, Step::Claim);
        run_push(start, s2, Step::Publish(blobs.last()));
        run_push(start, s3, Step::Notify);
        run_push(start, s4, Step::Wake(i));
        run_push(start, s5, Step::Take(i));
        assert(start.run(s1).idle[0] == i);
        assert(start.run(s6).idle =~= Seq::<int>::empty());
        let before = start.run(s0);
        let after = start.run(s6);
        assert forall|j: int| 0 <= j < size implies (#[trigger] after.stations[j]).phase == (if j
            < blobs.len() {
            SenderPhase::Sending(blobs[j])
        } else {
            SenderPhase::Announcing
        }) by {
            assert(before.stations[j].phase == (if j < front.len() {
                SenderPhase::Sending(front[j])
            } else {
                SenderPhase::<B>::Announcing
            }));
        }
    }
}

/// Senders do not wait for each other: with as many batches as there are senders, all of them
/// can be sending at once.
pub proof fn senders_work_at_once<B>(blobs: Seq<B>)
    ensures
        exists|steps: Seq<Step<B>>| #[trigger]
            Pool::<B>::start(blobs.len()).possible(steps) && forall|i: int|
                0 <= i < blobs.len() ==> (#[trigger] Pool::<B>::start(blobs.len()).run(
                    steps,
                ).stations[i]).phase == SenderPhase::Sending(blobs[i]),
{
    keeping_busy(blobs.len(), blobs);
    assert(Pool::<B>::start(blobs.len()).possible(keep_busy(blobs)));
}

/// How many steps a sender is from having stopped.
pub open spec fn steps_left<B>(phase: SenderPhase<B>) -> nat {
    match phase {
        SenderPhase::Announcing => 5,
        SenderPhase::Waiting => 4,
        SenderPhase::Woken => 3,
        SenderPhase::Sending(_) => 2,
        SenderPhase::Checking => 1,
        SenderPhase::Done => 0,
    }
}

/// The step that a sender takes next.
pub open spec fn own_step<B>(phase: SenderPhase<B>, i: int) -> Step<B> {
    match phase {
        SenderPhase::Announcing => Step::Announce(i),
        SenderPhase::Waiting => Step::Wake(i),
        SenderPhase::Woken => Step::Take(i),
        SenderPhase::Sending(_) => Step::Sent(i),
        _ => Step::Check(i),
    }
}

/// Once the coordinator has stopped, every sender that has not stopped can take a step, and the
/// step brings it closer to having stopped and leaves the others as they are: the pool winds
/// down, and nobody waits for ever.
pub proof fn stopped_pool_winds_down<B>(size: nat, steps: Seq<Step<B>>, i: int)
    requires
        Pool::<B>::start(size).possible(steps),
        0 <= i < size,
        Pool::<B>::start(size).run(steps).coord is Stopped,
        !(Pool::<B>::start(size).run(steps).stations[i].phase is Done),
    ensures
        ({
            let pool = Pool::<B>::start(size).run(steps);
            let step = own_step(pool.stations[i].phase, i);
            &&& pool.enabled(step)
            &&& pool.step(step).coord is Stopped
            &&& steps_left(pool.step(step).stations[i].phase) < steps_left(
                pool.stations[i].phase,
            )
            &&& forall|j: int|
                0 <= j < size && j != i ==> #[trigger] pool.step(step).stations[j]
                    == pool.stations[j]
        }),
{
    pool_stays_in_order(size, steps);
    let pool = Pool::<B>::start(size).run(steps);
    assert(pool.station_inv(i));
    if pool.stations[i].phase is Announcing {
        announcing_never_blocks(size, steps, i);
    }
}

/// How many steps all senders together are from having stopped, at most.
pub open spec fn all_steps_left<B>(stations: Seq<Station<B>>) -> nat
    decreases stations.len(),
{
    if stations.len() == 0 {
        0
    } else {
        all_steps_left(stations.drop_last()) + steps_left(stations.last().phase)
    }
}

/// What one sender gains, all gain together.
proof fn steps_left_update<B>(stations: Seq<Station<B>>, i: int, station: Station<B>)
    requires
        0 <= i < stations.len(),
    ensures
        all_steps_left(stations.update(i, station)) == all_steps_left(stations) - steps_left(
            stations[i].phase,
        ) + steps_left(station.phase),
    decreases stations.len(),
{
    let after = stations.update(i, station);
    if i == stations.len() - 1 {
        assert(after.drop_last() =~= stations.drop_last());
    } else {
        assert(after.drop_last() =~= stations.drop_last().update(i, station));
        steps_left_update(stations.drop_last(), i, station);
    }
}

/// No sender is more than five steps from having stopped.
proof fn five_steps_each<B>(stations: Seq<Station<B>>)
    ensures
        all_steps_left(stations) <= 5 * stations.len(),
    decreases stations.len(),
{
    if stations.len() > 0 {
        five_steps_each(stations.drop_last());
    }
}

/// Once the coordinator has stopped, every step brings the pool closer to having stopped.
proof fn stopped_step<B>(pool: Pool<B>, step: Step<B>)
    requires
        pool.inv(),
        pool.enabled(step),
        pool.coord is Stopped,
    ensures
        pool.step(step).coord is Stopped,
        all_steps_left(pool.step(step).stations) < all_steps_left(pool.stations),
{
    let next = pool.step(step);
    let i = match step {
        Step::Announce(i) => i,
        Step::Wake(i) => i,
        Step::Take(i) => i,
        Step::Sent(i) => i,
        Step::Check(i) => i,
        _ => 0,
    };
    assert(pool.station_inv(i));
    steps_left_update(pool.stations, i, next.stations[i]);
    assert(next.stations =~= pool.stations.update(i, next.stations[i]));
}

/// Once the coordinator has stopped, it stays so, and the senders together take at most five
/// steps for each of them, in whatever order: shutting down ends.
pub proof fn shutdown_ends<B>(size: nat, steps: Seq<Step<B>>, more: Seq<Step<B>>)
    requires
        Pool::<B>::start(size).possible(steps + more),
        Pool::<B>::start(size).run(steps).coord is Stopped,
    ensures
        Pool::<B>::start(size).run(steps + more).coord is Stopped,
        more.len() + all_steps_left(Pool::<B>::start(size).run(steps + more).stations) <= 5 * size,
    decreases more.len(),
{
    let start = Pool::<B>::start(size);
    if more.len() == 0 {
        assert(steps + more =~= steps);
        pool_stays_in_order(size, steps);
        five_steps_each(start.run(steps).stations);
    } else {
        let all = steps + more;
        assert(all.drop_last() =~= steps + more.drop_last());
        shutdown_ends(size, steps, more.drop_last());
        pool_stays_in_order(size, all.drop_last());
        stopped_step(start.run(all.drop_last()), all.last());
    }
}

} // verus!
