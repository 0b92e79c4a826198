//! The sender pool: how a coordinator hands batches to concurrent senders, and how the pool
//! shuts down.
use vstd::prelude::*;

verus! {

/// What a coordinator and one sender share.
pub struct SenderSlotState<B> {
    /// Set by the coordinator, taken by the sender.
    pub blob: Option<B>,
    /// Set by the coordinator when it stops.
    pub closed: bool,
}

/// What a sender does once it has been woken.
pub enum Wake<B> {
    /// Send the batch.
    Send(B),
    /// Stop.
    Exit,
}

impl<B> SenderSlotState<B> {
    /// The slot with a batch in it.
    pub open spec fn published(self, blob: B) -> Self {
        SenderSlotState { blob: Some(blob), closed: self.closed }
    }

    /// The slot without a batch in it.
    pub open spec fn taken(self) -> Self {
        SenderSlotState { blob: None, closed: self.closed }
    }

    /// The slot after the coordinator has stopped.
    pub open spec fn shut(self) -> Self {
        SenderSlotState { blob: self.blob, closed: true }
    }

    /// An empty slot.
    pub fn new() -> (r: Self)
        ensures
            r.blob is None,
            !r.closed,
    {
        SenderSlotState { blob: None, closed: false }
    }

    /// Puts a batch into a slot whose sender is idle.
    pub fn publish(&mut self, blob: B)
        requires
            old(self).blob is None,
            !old(self).closed,
        ensures
            *final(self) == old(self).published(blob),
    {
        self.blob = Some(blob);
    }

    /// Tells the sender to stop. A batch that is still in the slot stays there.
    pub fn close(&mut self)
        ensures
            *final(self) == old(self).shut(),
    {
        self.closed = true;
    }

    /// What a woken sender finds: a batch, or that it is to stop. A batch comes first.
    pub fn take(&mut self) -> (r: Wake<B>)
        requires
            old(self).blob is Some || old(self).closed,
        ensures
            *final(self) == old(self).taken(),
            match old(self).blob {
                Some(blob) => r == Wake::<B>::Send(blob),
                None => r == Wake::<B>::Exit,
            },
    {
        match self.blob.take() {
            Some(blob) => Wake::Send(blob),
            None => Wake::Exit,
        }
    }

    /// Whether a sender stops after it has sent its batch.
    pub fn stops_after_send(&self) -> (r: bool)
        ensures
            r == self.closed,
    {
        self.closed
    }
}

/// Putting a batch in, taking one out and closing change the slot in that respect alone: closing
/// keeps the batch, and what is put in is what is taken out.
pub proof fn slot_operations_are_independent<B>(slot: SenderSlotState<B>, blob: B)
    ensures
        slot.published(blob).blob == Some(blob),
        slot.published(blob).closed == slot.closed,
        slot.taken().blob is None,
        slot.taken().closed == slot.closed,
        slot.shut().closed,
        slot.shut().blob == slot.blob,
        slot.published(blob).shut() == slot.shut().published(blob),
        slot.blob is None ==> slot.published(blob).taken() == slot,
{
}

/// One pass over the senders, each polled unless it is done.
pub struct PollRound {
    done: Vec<bool>,
    cursor: usize,
    pending: bool,
}

impl PollRound {
    /// Which senders are done.
    pub closed spec fn done(&self) -> Seq<bool> {
        self.done@
    }

    /// Where the pass stands: all before it have been dealt with.
    pub closed spec fn cursor(&self) -> int {
        self.cursor as int
    }

    /// The pass knows whether a sender before the cursor is not done.
    pub closed spec fn wf(&self) -> bool {
        &&& self.cursor <= self.done@.len()
        &&& self.pending <==> exists|j: int| 0 <= j < self.cursor && !#[trigger] self.done@[j]
    }

    /// Senders none of which is done.
    pub fn new(senders: usize) -> (r: Self)
        ensures
            r.wf(),
            r.done() == Seq::new(senders as nat, |i: int| false),
            r.cursor() == 0,
    {
        let mut done: Vec<bool> = Vec::new();
        let mut i: usize = 0;
        while i < senders
            invariant
                i <= senders,
                done@ =~= Seq::new(i as nat, |k: int| false),
            decreases senders - i,
        {
            done.push(false);
            i = i + 1;
        }
        PollRound { done, cursor: 0, pending: false }
    }

    /// Starts another pass.
    pub fn begin(&mut self)
        ensures
            final(self).wf(),
            final(self).done() == old(self).done(),
            final(self).cursor() == 0,
    {
        self.cursor = 0;
        self.pending = false;
    }

    /// The next sender to poll: the first one from the cursor on that is not done.
    pub fn next(&mut self) -> (r: Option<usize>)
        requires
            old(self).wf(),
        ensures
            final(self).wf(),
            final(self).done() == old(self).done(),
            match r {
                Some(i) => {
                    &&& i == final(self).cursor()
                    &&& old(self).cursor() <= i < final(self).done().len()
                    &&& !final(self).done()[i as int]
                    &&& forall|j: int|
                        old(self).cursor() <= j < i ==> #[trigger] final(self).done()[j]
                },
                None => {
                    &&& final(self).cursor() == final(self).done().len()
                    &&& forall|j: int|
                        old(self).cursor() <= j < final(self).done().len()
                            ==> #[trigger] final(self).done()[j]
                },
            },
    {
        while self.cursor < self.done.len() && self.done[self.cursor]
            invariant
                self.wf(),
                self.done@ == old(self).done@,
                old(self).cursor <= self.cursor,
                forall|j: int| old(self).cursor <= j < self.cursor ==> #[trigger] self.done@[j],
            decreases self.done@.len() - self.cursor,
        {
            self.cursor = self.cursor + 1;
        }
        if self.cursor < self.done.len() {
            Some(self.cursor)
        } else {
            None
        }
    }

    /// Takes note of how polling the sender at the cursor went.
    pub fn record(&mut self, ready: bool)
        requires
            old(self).wf(),
            old(self).cursor() < old(self).done().len(),
            !old(self).done()[old(self).cursor()],
        ensures
            final(self).wf(),
            final(self).cursor() == old(self).cursor() + 1,
            final(self).done() == old(self).done().update(old(self).cursor(), ready),
    {
        let ghost before = self.done@;
        let i: usize = self.cursor;
        assert(i < self.done.len());
        self.done.set(i, ready);
        if !ready {
            self.pending = true;
        }
        self.cursor = i + 1;
        proof {
            assert forall|j: int| 0 <= j < i implies #[trigger] self.done@[j] == before[j] by {}
            if !ready {
                assert(!self.done@[i as int]);
            }
            if exists|j: int| 0 <= j < i && !#[trigger] before[j] {
                let j = choose|j: int| 0 <= j < i && !#[trigger] before[j];
                assert(!self.done@[j]);
            }
            if exists|j: int| 0 <= j < i + 1 && !#[trigger] self.done@[j] {
                let j = choose|j: int| 0 <= j < i + 1 && !#[trigger] self.done@[j];
                if j < i {
                    assert(!before[j]);
                }
            }
        }
    }

    /// At the end of a pass: whether every sender is done.
    pub fn finished(&self) -> (r: bool)
        requires
            self.wf(),
            self.cursor() == self.done().len(),
        ensures
            r <==> forall|j: int| 0 <= j < self.done().len() ==> #[trigger] self.done()[j],
    {
        proof {
            if self.pending {
                let j = choose|j: int| 0 <= j < self.cursor && !#[trigger] self.done@[j];
                assert(!self.done()[j]);
            }
        }
        !self.pending
    }
}

} // verus!
