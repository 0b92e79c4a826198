//! Collecting queued items into batches: when a batch is sent, dropped, or the last one.
use vstd::prelude::*;

verus! {

/// What the queue or the timer reported to a coordinator.
#[derive(Clone, Copy, Debug, PartialEq, Eq, Structural)]
pub enum CollectEvent {
    /// `read` items arrived, and all of them could be encoded or not.
    Received { read: usize, encoded: bool },
    /// The collect timeout ran out.
    Elapsed,
    /// The queue is closed and empty.
    Closed,
}

/// What a coordinator does next.
#[derive(Clone, Copy, Debug, PartialEq, Eq, Structural)]
pub enum Next {
    /// Wait for up to `limit` more items, on a fresh timer or on the running one.
    Receive { limit: usize, restart_timer: bool },
    /// Send the batch and start another one.
    Send,
    /// Forget the batch and start another one.
    DropBatch,
    /// Close the sender slots and stop.
    Shutdown,
}

/// The decision of a coordinator that holds `count` items of at most `target`: what it then
/// holds of the batch, and what it does.
pub open spec fn collect_next(target: usize, count: usize, event: CollectEvent) -> (usize, Next) {
    match event {
        CollectEvent::Received { read, encoded } => {
            let now = (count + read) as usize;
            if !encoded {
                (0, Next::DropBatch)
            } else if now == target {
                (now, Next::Send)
            } else {
                (now, Next::Receive { limit: (target - now) as usize, restart_timer: false })
            }
        },
        CollectEvent::Elapsed => if count > 0 {
            (count, Next::Send)
        } else {
            (count, Next::Receive { limit: (target - count) as usize, restart_timer: true })
        },
        CollectEvent::Closed => if count > 0 {
            (count, Next::Send)
        } else {
            (count, Next::Shutdown)
        },
    }
}

/// Counts the items of one batch against its target.
pub struct Collector {
    collect_target: usize,
    count: usize,
}

impl Collector {
    /// The number of items that fill the batch.
    pub closed spec fn target(&self) -> usize {
        self.collect_target
    }

    /// The number of items collected.
    pub closed spec fn count(&self) -> usize {
        self.count
    }

    /// The batch can be filled and is not overfull.
    pub open spec fn wf(&self) -> bool {
        0 < self.target() && self.count() <= self.target()
    }

    /// An empty batch.
    pub fn new(collect_target: usize) -> (r: Self)
        requires
            collect_target > 0,
        ensures
            r.wf(),
            r.target() == collect_target,
            r.count() == 0,
    {
        Collector { collect_target, count: 0 }
    }

    /// How many items were collected.
    pub fn len(&self) -> (r: usize)
        ensures
            r == self.count(),
    {
        self.count
    }

    /// How many items may still be received.
    pub fn limit(&self) -> (r: usize)
        requires
            self.wf(),
        ensures
            r == self.target() - self.count(),
    {
        self.collect_target - self.count
    }

    /// Takes an event into account and decides. A queue never hands out more items than it was
    /// asked for, nor reports an arrival of none.
    pub fn step(&mut self, event: CollectEvent) -> (r: Next)
        requires
            old(self).wf(),
            event matches CollectEvent::Received { read, .. } ==> 0 < read <= old(self).target()
                - old(self).count(),
        ensures
            final(self).wf(),
            final(self).target() == old(self).target(),
            (final(self).count(), r) == collect_next(
                old(self).target(),
                old(self).count(),
                event,
            ),
    {
        match event {
            CollectEvent::Received { read, encoded } => {
                if !encoded {
                    self.count = 0;
                    return Next::DropBatch;
                }
                self.count = self.count + read;
                if self.count == self.collect_target {
                    Next::Send
                } else {
                    Next::Receive {
                        limit: self.collect_target - self.count,
                        restart_timer: false,
                    }
                }
            },
            CollectEvent::Elapsed => {
                if self.count > 0 {
                    Next::Send
                } else {
                    Next::Receive { limit: self.collect_target - self.count, restart_timer: true }
                }
            },
            CollectEvent::Closed => {
                if self.count > 0 {
                    Next::Send
                } else {
                    Next::Shutdown
                }
            },
        }
    }
}

/// Items that can be encoded stay in the batch, and it is sent exactly when they fill it. Until
/// then, as many more are asked for as are missing, on the running timer.
pub proof fn batch_waits_until_it_is_full(target: usize, count: usize, read: usize)
    requires
        0 < read,
        count + read <= target,
    ensures
        ({
            let (held, next) = collect_next(
                target,
                count,
                CollectEvent::Received { read, encoded: true },
            );
            &&& held == count + read
            &&& next is Send <==> count + read == target
            &&& count + read < target ==> next == (Next::Receive {
                limit: (target - (count + read)) as usize,
                restart_timer: false,
            })
        }),
{
}

/// Each decision has its reason and no other. A batch is dropped for an item that cannot be
/// encoded; the coordinator stops on a closed queue with nothing held; it sends what it holds when
/// that fills the batch, the time is up or the queue is closed; and otherwise it waits for what is
/// missing, on a fresh timer only if the time was up.
pub proof fn decisions_have_reasons(target: usize, count: usize, event: CollectEvent)
    requires
        0 < target,
        count <= target,
        event matches CollectEvent::Received { read, .. } ==> 0 < read <= target - count,
    ensures
        ({
            let (held, next) = collect_next(target, count, event);
            &&& next is DropBatch <==> (event matches CollectEvent::Received { encoded, .. }
                && !encoded)
            &&& next is Shutdown <==> event is Closed && count == 0
            &&& next is Send <==> held > 0 && (event is Elapsed || event is Closed || held
                == target)
            &&& next matches Next::Receive { limit, restart_timer } ==> {
                &&& limit > 0
                &&& held + limit == target
                &&& restart_timer <==> event is Elapsed
            }
            &&& next is DropBatch ==> held == 0
            &&& !(next is DropBatch) ==> held == count + (match event {
                CollectEvent::Received { read, .. } => read as int,
                _ => 0,
            })
        }),
{
}

/// What a coordinator is fed, item by item. An item that cannot be encoded is `None`.
pub enum Feed<T> {
    Items(Seq<Option<T>>),
    Elapsed,
    Closed,
}

/// All items can be encoded.
pub open spec fn all_some<T>(items: Seq<Option<T>>) -> bool {
    forall|i: int| 0 <= i < items.len() ==> (#[trigger] items[i]) is Some
}

/// The items themselves.
pub open spec fn some_values<T>(items: Seq<Option<T>>) -> Seq<T> {
    items.map_values(|item: Option<T>| item->0)
}

impl<T> Feed<T> {
    /// The event that a coordinator counts.
    pub open spec fn event(self) -> CollectEvent {
        match self {
            Feed::Items(items) => CollectEvent::Received {
                read: items.len() as usize,
                encoded: all_some(items),
            },
            Feed::Elapsed => CollectEvent::Elapsed,
            Feed::Closed => CollectEvent::Closed,
        }
    }

    /// A queue hands out at least one item and at most as many as were asked for.
    pub open spec fn valid(self, target: usize, held: nat) -> bool {
        self matches Feed::Items(items) ==> 0 < items.len() <= target - held
    }

    /// Every item of it can be encoded.
    pub open spec fn encodable(self) -> bool {
        self matches Feed::Items(items) ==> all_some(items)
    }

    /// Its items.
    pub open spec fn values(self) -> Seq<T> {
        match self {
            Feed::Items(items) => some_values(items),
            _ => Seq::empty(),
        }
    }
}

/// A batch in the making: what is held, and the batches sent so far.
pub struct Collected<T> {
    pub pending: Seq<T>,
    pub sent: Seq<Seq<T>>,
}

impl<T> Collected<T> {
    /// Nothing held, nothing sent.
    pub open spec fn start() -> Self {
        Collected { pending: Seq::empty(), sent: Seq::empty() }
    }

    /// One step of a coordinator on the items themselves.
    pub open spec fn step(self, target: usize, feed: Feed<T>) -> Self {
        let held = self.pending + feed.values();
        match collect_next(target, self.pending.len() as usize, feed.event()).1 {
            Next::Receive { .. } => Collected { pending: held, sent: self.sent },
            Next::Send => Collected { pending: Seq::empty(), sent: self.sent.push(held) },
            Next::DropBatch => Collected { pending: Seq::empty(), sent: self.sent },
            Next::Shutdown => self,
        }
    }

    /// All steps of a run.
    pub open spec fn run(self, target: usize, feeds: Seq<Feed<T>>) -> Self
        decreases feeds.len(),
    {
        if feeds.len() == 0 {
            self
        } else {
            self.run(target, feeds.drop_last()).step(target, feeds.last())
        }
    }

    /// Every feed of a run is one that a queue can give.
    pub open spec fn valid_run(self, target: usize, feeds: Seq<Feed<T>>) -> bool
        decreases feeds.len(),
    {
        feeds.len() > 0 ==> {
            &&& self.valid_run(target, feeds.drop_last())
            &&& feeds.last().valid(
                target,
                self.run(target, feeds.drop_last()).pending.len(),
            )
        }
    }
}

/// The values of all feeds, in order.
pub open spec fn all_values<T>(feeds: Seq<Feed<T>>) -> Seq<T>
    decreases feeds.len(),
{
    if feeds.len() == 0 {
        Seq::empty()
    } else {
        all_values(feeds.drop_last()) + feeds.last().values()
    }
}

/// A batch never grows beyond its target, and every batch sent holds at least one item and at
/// most the target.
pub proof fn batches_are_bounded<T>(target: usize, feeds: Seq<Feed<T>>)
    requires
        0 < target,
        Collected::<T>::start().valid_run(target, feeds),
    ensures
        Collected::<T>::start().run(target, feeds).pending.len() < target,
        forall|i: int|
            0 <= i < Collected::<T>::start().run(target, feeds).sent.len() ==> 0 < (
            #[trigger] Collected::<T>::start().run(target, feeds).sent[i]).len() <= target,
    decreases feeds.len(),
{
    if feeds.len() > 0 {
        batches_are_bounded(target, feeds.drop_last());
        let before = Collected::<T>::start().run(target, feeds.drop_last());
        let after = Collected::<T>::start().run(target, feeds);
        assert(after == before.step(target, feeds.last()));
        assert forall|i: int| 0 <= i < after.sent.len() implies 0 < (
        #[trigger] after.sent[i]).len() <= target by {
            if i < before.sent.len() {
                assert(after.sent[i] == before.sent[i]);
            }
        }
    }
}

/// A batch that is ended by an arrival of items is full: only the timeout and the closed queue end
/// one before that. Nothing that was sent is changed by a later step, which sends one batch at
/// most.
pub proof fn only_full_batches_are_sent_early<T>(
    target: usize,
    feeds: Seq<Feed<T>>,
    feed: Feed<T>,
)
    requires
        0 < target,
        Collected::<T>::start().valid_run(target, feeds.push(feed)),
    ensures
        ({
            let before = Collected::<T>::start().run(target, feeds);
            let after = Collected::<T>::start().run(target, feeds.push(feed));
            &&& before.sent.is_prefix_of(after.sent)
            &&& after.sent.len() <= before.sent.len() + 1
            &&& feed is Items && after.sent.len() > before.sent.len() ==> after.sent.last().len()
                == target
            &&& feed is Items && feed.encodable() && before.pending.len() + feed.values().len()
                < target ==> after.sent == before.sent && after.pending == before.pending
                + feed.values()
        }),
{
    let all = feeds.push(feed);
    assert(all.drop_last() =~= feeds);
    batches_are_bounded(target, feeds);
    let before = Collected::<T>::start().run(target, feeds);
    let after = Collected::<T>::start().run(target, all);
    assert(after == before.step(target, feed));
}

/// Where neither the timeout nor the closed queue ends a batch, every batch sent holds exactly
/// the target.
pub proof fn uninterrupted_batches_are_full<T>(target: usize, feeds: Seq<Feed<T>>)
    requires
        0 < target,
        Collected::<T>::start().valid_run(target, feeds),
        forall|i: int| 0 <= i < feeds.len() ==> (#[trigger] feeds[i]) is Items,
    ensures
        forall|i: int|
            0 <= i < Collected::<T>::start().run(target, feeds).sent.len() ==> (
            #[trigger] Collected::<T>::start().run(target, feeds).sent[i]).len() == target,
    decreases feeds.len(),
{
    if feeds.len() > 0 {
        let front = feeds.drop_last();
        let feed = feeds.last();
        assert(feeds[feeds.len() - 1] is Items);
        assert forall|i: int| 0 <= i < front.len() implies (#[trigger] front[i]) is Items by {
            assert(feeds[i] is Items);
        }
        uninterrupted_batches_are_full(target, front);
        assert(front.push(feed) =~= feeds);
        only_full_batches_are_sent_early(target, front, feed);
        let before = Collected::<T>::start().run(target, front);
        let after = Collected::<T>::start().run(target, feeds);
        assert forall|i: int| 0 <= i < after.sent.len() implies (#[trigger] after.sent[i]).len()
            == target by {
            if i < before.sent.len() {
                assert(after.sent[i] == before.sent[i]);
            }
        }
    }
}

/// Where every item can be encoded, nothing is lost, doubled or reordered: the batches sent,
/// one after the other, and then what is held, are the items received.
pub proof fn no_item_is_lost<T>(target: usize, feeds: Seq<Feed<T>>)
    requires
        0 < target,
        Collected::<T>::start().valid_run(target, feeds),
        forall|i: int| 0 <= i < feeds.len() ==> (#[trigger] feeds[i]).encodable(),
    ensures
        Collected::<T>::start().run(target, feeds).sent.flatten() + Collected::<T>::start().run(
            target,
            feeds,
        ).pending == all_values(feeds),
    decreases feeds.len(),
{
    let empty = Seq::<Seq<T>>::empty();
    if feeds.len() == 0 {
        assert(empty.flatten() =~= Seq::<T>::empty());
        assert(Collected::<T>::start().sent =~= empty);
        assert(empty.flatten() + Seq::<T>::empty() =~= Seq::<T>::empty());
    } else {
        let front = feeds.drop_last();
        assert forall|i: int| 0 <= i < front.len() implies (#[trigger] front[i]).encodable() by {
            assert(feeds[i].encodable());
        }
        no_item_is_lost(target, front);
        let before = Collected::<T>::start().run(target, front);
        let after = Collected::<T>::start().run(target, feeds);
        let feed = feeds.last();
        assert(feeds[feeds.len() - 1].encodable());
        let held = before.pending + feed.values();
        assert(after == before.step(target, feed));
        batches_are_bounded(target, front);
        if after.sent.len() > before.sent.len() {
            before.sent.lemma_flatten_push(held);
            assert(after.sent.flatten() + after.pending =~= before.sent.flatten() + held);
        } else {
            assert(after.pending =~= held);
        }
        assert(before.sent.flatten() + held =~= before.sent.flatten() + before.pending
            + feed.values());
    }
}

/// A closed queue flushes: after it nothing is held, so what was held has been sent.
pub proof fn closing_flushes<T>(target: usize, feeds: Seq<Feed<T>>)
    requires
        0 < target,
        Collected::<T>::start().valid_run(target, feeds),
    ensures
        Collected::<T>::start().run(target, feeds.push(Feed::Closed)).pending
            == Seq::<T>::empty(),
        Collected::<T>::start().run(target, feeds).pending.len() > 0 ==> Collected::<
            T,
        >::start().run(target, feeds.push(Feed::Closed)).sent == Collected::<T>::start().run(
            target,
            feeds,
        ).sent.push(Collected::<T>::start().run(target, feeds).pending),
{
    batches_are_bounded(target, feeds);
    let all = feeds.push(Feed::Closed);
    assert(all.drop_last() =~= feeds);
    let before = Collected::<T>::start().run(target, feeds);
    assert(before.pending + Seq::<T>::empty() =~= before.pending);
    assert(Collected::<T>::start().run(target, all) == before.step(target, Feed::Closed));
    if before.pending.len() == 0 {
        assert(before.pending =~= Seq::<T>::empty());
    }
}

/// When the collect timeout runs out, what is there is sent, and if there is nothing, nothing
/// is.
pub proof fn timeout_sends_what_is_there<T>(target: usize, feeds: Seq<Feed<T>>)
    requires
        0 < target,
        Collected::<T>::start().valid_run(target, feeds),
    ensures
        ({
            let before = Collected::<T>::start().run(target, feeds);
            let after = Collected::<T>::start().run(target, feeds.push(Feed::Elapsed));
            &&& after.pending == Seq::<T>::empty()
            &&& after.sent == (if before.pending.len() > 0 {
                before.sent.push(before.pending)
            } else {
                before.sent
            })
        }),
{
    batches_are_bounded(target, feeds);
    let all = feeds.push(Feed::Elapsed);
    assert(all.drop_last() =~= feeds);
    let before = Collected::<T>::start().run(target, feeds);
    assert(before.pending + Seq::<T>::empty() =~= before.pending);
    assert(Collected::<T>::start().run(target, all) == before.step(target, Feed::Elapsed));
    if before.pending.len() == 0 {
        assert(before.pending =~= Seq::<T>::empty());
    }
}

/// An item that cannot be encoded costs the batch it would have been in and nothing else:
/// what was sent before stays sent, and the coordinator goes on as if it had just started.
pub proof fn dropping_keeps_the_rest<T>(
    target: usize,
    feeds: Seq<Feed<T>>,
    bad: Seq<Option<T>>,
    later: Seq<Feed<T>>,
)
    requires
        !all_some(bad),
    ensures
        Collected::<T>::start().run(target, feeds.push(Feed::Items(bad))).pending == Seq::<
            T,
        >::empty(),
        Collected::<T>::start().run(target, feeds.push(Feed::Items(bad)) + later).sent
            == Collected::<T>::start().run(target, feeds).sent + Collected::<T>::start().run(
            target,
            later,
        ).sent,
        Collected::<T>::start().run(target, feeds.push(Feed::Items(bad)) + later).pending
            == Collected::<T>::start().run(target, later).pending,
    decreases later.len(),
{
    let first = feeds.push(Feed::Items(bad));
    assert(first.drop_last() =~= feeds);
    let start = Collected::<T>::start();
    let base = start.run(target, feeds);
    assert(start.run(target, first) == base.step(target, Feed::Items(bad)));
    if later.len() == 0 {
        assert(first + later =~= first);
        assert(base.sent + start.sent =~= base.sent);
    } else {
        let whole = first + later;
        assert(whole.drop_last() =~= first + later.drop_last());
        dropping_keeps_the_rest(target, feeds, bad, later.drop_last());
        let x = start.run(target, whole.drop_last());
        let y = start.run(target, later.drop_last());
        assert(start.run(target, whole) == x.step(target, later.last()));
        assert(start.run(target, later) == y.step(target, later.last()));
        let held = y.pending + later.last().values();
        assert(base.sent + y.sent.push(held) =~= (base.sent + y.sent).push(held));
    }
}

} // verus!
