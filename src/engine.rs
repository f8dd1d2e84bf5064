use crate::registry::ChannelRegistry;
use crate::waiter::{slots_below, lemma_slots_below_len, MultiplexedWaiter};
use vstd::prelude::*;

verus! {

/// What a non-blocking read from a channel gave.
#[derive(Debug, PartialEq, Eq)]
pub enum ReadOutcome<M> {
    /// The next message of the channel.
    Message(M),
    /// Nothing yet, and the channel is still open: a spurious wake-up.
    Empty,
    /// The channel is closed and empty: no message will ever come.
    Closed,
}

/// What the engine did with one read, and what its caller has to do.
#[derive(Debug, PartialEq, Eq)]
pub enum Step<M> {
    /// Hand the message to the handler of this slot.
    Deliver(usize, M),
    /// This slot was found closed and empty and has been retired.
    Retired(usize),
    /// Nothing was read; wait again.
    Idle,
}

/// The decisions of a drain session: which slots are still live, and what
/// each read from a slot means.
#[verifier::reject_recursive_types(M)]
pub struct DrainEngine<M> {
    slots: usize,
    live: usize,
    active: Ghost<Set<usize>>,
    delivered: Ghost<Seq<Seq<M>>>,
}

impl<M> DrainEngine<M> {
    /// The number of slots of the session.
    pub closed spec fn slot_count(&self) -> nat {
        self.slots as nat
    }

    /// The live count: how many slots are not retired yet.
    pub closed spec fn live(&self) -> nat {
        self.live as nat
    }

    /// The slots not retired yet.
    pub closed spec fn active(&self) -> Set<usize> {
        self.active@
    }

    /// For each slot, the messages handed to its handler so far, in order.
    pub closed spec fn delivered(&self) -> Seq<Seq<M>> {
        self.delivered@
    }

    /// The slots that have been observed closed and empty, and so retired.
    pub open spec fn retired(&self) -> Set<usize> {
        Set::new(|i: usize| i < self.slot_count() && !self.active().contains(i))
    }

    pub open spec fn wf(&self) -> bool {
        &&& self.active().finite()
        &&& self.live() == self.active().len()
        &&& forall|i: usize| self.active().contains(i) ==> i < self.slot_count()
        &&& self.delivered().len() == self.slot_count()
    }

    /// The engine is done: no slot is live.
    pub open spec fn done(&self) -> bool {
        self.live() == 0
    }

    /// A fresh session over `slots` slots: all live, nothing delivered.
    pub fn new(slots: usize) -> (e: Self)
        ensures
            e.wf(),
            e.slot_count() == slots,
            e.live() == slots,
            e.active() == slots_below(slots as nat),
            e.delivered() == Seq::new(slots as nat, |i: int| Seq::<M>::empty()),
    {
        proof {
            lemma_slots_below_len(slots as nat);
        }
        DrainEngine {
            slots,
            live: slots,
            active: Ghost(slots_below(slots as nat)),
            delivered: Ghost(Seq::new(slots as nat, |i: int| Seq::<M>::empty())),
        }
    }

    /// Whether the session is done, so that no wait may follow.
    pub fn is_done(&self) -> (r: bool)
        ensures
            r == self.done(),
    {
        self.live == 0
    }

    /// The live count.
    pub fn live_count(&self) -> (r: usize)
        ensures
            r == self.live(),
    {
        self.live
    }

    /// The number of slots of the session.
    pub fn slots(&self) -> (r: usize)
        ensures
            r == self.slot_count(),
    {
        self.slots
    }

    /// How one read from a live slot changes the session: a message is
    /// delivered to that slot and to no other, after those before it; a
    /// closed and empty channel retires its slot and decrements the live count
    /// by one; an empty read changes nothing.
    pub open spec fn reads(
        before: Self,
        after: Self,
        index: usize,
        outcome: ReadOutcome<M>,
        step: Step<M>,
    ) -> bool {
        &&& after.slot_count() == before.slot_count()
        &&& match outcome {
            ReadOutcome::Message(m) => {
                &&& step == Step::Deliver(index, m)
                &&& after.active() == before.active()
                &&& after.live() == before.live()
                &&& after.delivered() == before.delivered().update(
                    index as int,
                    before.delivered()[index as int].push(m),
                )
            },
            ReadOutcome::Empty => {
                &&& step == Step::<M>::Idle
                &&& after.active() == before.active()
                &&& after.live() == before.live()
                &&& after.delivered() == before.delivered()
            },
            ReadOutcome::Closed => {
                &&& step == Step::<M>::Retired(index)
                &&& after.active() == before.active().remove(index)
                &&& after.live() + 1 == before.live()
                &&& after.delivered() == before.delivered()
            },
        }
    }

    /// Takes what a read from the live slot `index` gave and decides.
    pub fn on_read(&mut self, index: usize, outcome: ReadOutcome<M>) -> (step: Step<M>)
        requires
            old(self).wf(),
            old(self).active().contains(index),
        ensures
            final(self).wf(),
            Self::reads(*old(self), *final(self), index, outcome, step),
    {
        match outcome {
            ReadOutcome::Message(m) => {
                proof {
                    let log = self.delivered@;
                    self.delivered@ = log.update(index as int, log[index as int].push(m));
                }
                Step::Deliver(index, m)
            },
            ReadOutcome::Empty => Step::Idle,
            ReadOutcome::Closed => {
                proof {
                    self.active@ = self.active@.remove(index);
                }
                self.live = self.live - 1;
                Step::Retired(index)
            },
        }
    }

    /// The waiter considers exactly the live slots, and the registry holds
    /// one receiver per slot.
    pub open spec fn bound_to(&self, waiter: MultiplexedWaiter, registry: ChannelRegistry<M>) -> bool {
        &&& waiter.wf()
        &&& waiter.active() == self.active()
        &&& waiter.slot_count() == self.slot_count()
        &&& registry@.len() == self.slot_count()
    }

    /// One iteration of the drain loop: waits for a ready live slot, reads
    /// from it without blocking, and decides. A slot found closed and empty is
    /// retired from the waiter as well; the caller hands a delivered message to
    /// the slot's handler.
    pub fn step(&mut self, waiter: &mut MultiplexedWaiter, registry: &ChannelRegistry<M>) -> (step: Step<M>)
        requires
            old(self).wf(),
            !old(self).done(),
            old(self).bound_to(*old(waiter), *registry),
        ensures
            final(self).wf(),
            final(self).bound_to(*final(waiter), *registry),
            exists|index: usize, outcome: ReadOutcome<M>|
                old(self).active().contains(index)
                && #[trigger] Self::reads(*old(self), *final(self), index, outcome, step),
    {
        let index = waiter.wait_one();
        let outcome = registry.read(index);
        let ghost read = outcome;
        let step = self.on_read(index, outcome);
        if let Step::Retired(i) = &step {
            waiter.retire(*i);
        }
        assert(Self::reads(*old(self), *self, index, read, step));
        step
    }
}

/// The engine is done exactly when every slot has been observed closed and
/// empty and retired.
pub proof fn lemma_done_iff_all_retired<M>(e: DrainEngine<M>)
    requires
        e.wf(),
    ensures
        e.done() <==> forall|i: usize| i < e.slot_count() ==> #[trigger] e.retired().contains(i),
{
    if e.done() {
        assert(e.active() =~= Set::<usize>::empty()) by {
            if exists|i: usize| e.active().contains(i) {
                let i = choose|i: usize| e.active().contains(i);
                vstd::set_lib::lemma_set_empty_equivalency_len(e.active());
            }
        }
    }
    if forall|i: usize| i < e.slot_count() ==> #[trigger] e.retired().contains(i) {
        assert(e.active() =~= Set::<usize>::empty()) by {
            assert forall|i: usize| !e.active().contains(i) by {
                if e.active().contains(i) {
                    assert(e.retired().contains(i));
                }
            }
        }
    }
}

/// A session without slots is done from the start, with nothing delivered.
pub proof fn lemma_no_slots_done<M>(e: DrainEngine<M>)
    requires
        e.wf(),
        e.slot_count() == 0,
    ensures
        e.done(),
        e.delivered().len() == 0,
{
    assert(e.active() =~= Set::<usize>::empty());
}

/// Once done, no slot is live, so no read is taken and nothing more is
/// delivered.
pub proof fn lemma_done_takes_no_read<M>(e: DrainEngine<M>, index: usize)
    requires
        e.wf(),
        e.done(),
    ensures
        !e.active().contains(index),
{
    if e.active().contains(index) {
        vstd::set_lib::lemma_set_empty_equivalency_len(e.active());
    }
}

/// Retiring one slot leaves every other slot as it was: still live if it was
/// live, with the messages it had.
pub proof fn lemma_retire_keeps_other_slots<M>(before: DrainEngine<M>, after: DrainEngine<M>, index: usize, other: usize)
    requires
        before.wf(),
        before.active().contains(index),
        DrainEngine::reads(before, after, index, ReadOutcome::Closed, Step::Retired(index)),
        other != index,
    ensures
        after.active().contains(other) == before.active().contains(other),
        after.retired().contains(other) == before.retired().contains(other),
        after.retired().contains(index),
        after.delivered() == before.delivered(),
{
}

/// What a non-blocking read gives from a channel that holds `buffered`, in
/// send order, and whose senders are all gone when `closed` holds.
pub open spec fn fifo_read<M>(buffered: Seq<M>, closed: bool) -> ReadOutcome<M> {
    if buffered.len() > 0 {
        ReadOutcome::Message(buffered[0])
    } else if closed {
        ReadOutcome::Closed
    } else {
        ReadOutcome::Empty
    }
}

/// What such a channel holds after that read.
pub open spec fn fifo_rest<M>(buffered: Seq<M>) -> Seq<M> {
    if buffered.len() > 0 {
        buffered.drop_first()
    } else {
        buffered
    }
}

/// One read from a first-in first-out channel loses no message, duplicates
/// none and keeps their order: what was delivered to the slot, followed by
/// what the channel still holds, stays what was sent to it. Other slots keep
/// their messages, and the slot is retired only when its channel is closed
/// and empty.
pub proof fn lemma_read_keeps_sent<M>(
    before: DrainEngine<M>,
    after: DrainEngine<M>,
    index: usize,
    buffered: Seq<M>,
    closed: bool,
    step: Step<M>,
    sent: Seq<M>,
)
    requires
        before.wf(),
        before.active().contains(index),
        DrainEngine::reads(before, after, index, fifo_read(buffered, closed), step),
        before.delivered()[index as int] + buffered == sent,
    ensures
        after.delivered()[index as int] + fifo_rest(buffered) == sent,
        forall|j: int| 0 <= j < after.delivered().len() && j != index ==>
            #[trigger] after.delivered()[j] == before.delivered()[j],
        after.retired().contains(index) ==> buffered.len() == 0 && closed,
{
    let d = before.delivered()[index as int];
    if buffered.len() > 0 {
        assert(d.push(buffered[0]) + buffered.drop_first() =~= d + buffered);
    }
}

/// Completeness and order at the end of a session: when every slot's
/// delivered messages followed by what its channel still holds are what was
/// sent to it, and a slot is retired only with its channel empty, a done
/// engine has delivered to each slot exactly what was sent to it, in order.
pub proof fn lemma_done_delivered_all_sent<M>(
    e: DrainEngine<M>,
    buffered: Seq<Seq<M>>,
    sent: Seq<Seq<M>>,
)
    requires
        e.wf(),
        e.done(),
        buffered.len() == e.slot_count(),
        sent.len() == e.slot_count(),
        forall|i: int| 0 <= i < e.slot_count() ==> e.delivered()[i] + #[trigger] buffered[i] == sent[i],
        forall|i: usize| #[trigger] e.retired().contains(i) ==> buffered[i as int].len() == 0,
    ensures
        e.delivered() == sent,
{
    lemma_done_iff_all_retired(e);
    assert forall|i: int| 0 <= i < e.slot_count() implies e.delivered()[i] == sent[i] by {
        let k = i as usize;
        assert(e.retired().contains(k));
        assert(buffered[i] =~= Seq::<M>::empty());
        assert(e.delivered()[i] + buffered[i] =~= e.delivered()[i]);
    }
    assert(e.delivered() =~= sent);
}

} // verus!
