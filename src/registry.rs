use crate::engine::ReadOutcome;
use crossbeam::channel::{Receiver, TryRecvError};
use vstd::prelude::*;

verus! {

#[verifier::external_type_specification]
#[verifier::external_body]
#[verifier::reject_recursive_types(T)]
pub struct ExReceiver<T>(Receiver<T>);

/// Relies on crossbeam's `Receiver::try_recv`, which does not block: it gives
/// a message, or reports the channel empty, or reports it empty and
/// disconnected. What it gives depends on the other threads, so nothing is
/// promised of it.
#[verifier::external_body]
fn try_read<M>(r: &Receiver<M>) -> (outcome: ReadOutcome<M>) {
    match r.try_recv() {
        Ok(m) => ReadOutcome::Message(m),
        Err(TryRecvError::Empty) => ReadOutcome::Empty,
        Err(TryRecvError::Disconnected) => ReadOutcome::Closed,
    }
}

/// The ordered receivers of one drain session. A receiver's slot index is its
/// position, given once by `register` and never changed: the registry offers
/// no removal.
#[verifier::reject_recursive_types(M)]
pub struct ChannelRegistry<M> {
    receivers: Vec<Receiver<M>>,
}

impl<M> ChannelRegistry<M> {
    /// The receivers, by slot index.
    pub closed spec fn view(&self) -> Seq<Receiver<M>> {
        self.receivers@
    }

    pub fn new() -> (r: Self)
        ensures
            r@ == Seq::<Receiver<M>>::empty(),
    {
        ChannelRegistry { receivers: Vec::new() }
    }

    /// Appends a receiver and returns its slot index, the number of receivers
    /// registered before it.
    pub fn register(&mut self, receiver: Receiver<M>) -> (index: usize)
        requires
            old(self)@.len() < usize::MAX,
        ensures
            index == old(self)@.len(),
            final(self)@ == old(self)@.push(receiver),
    {
        let index = self.receivers.len();
        self.receivers.push(receiver);
        index
    }

    pub fn len(&self) -> (n: usize)
        ensures
            n == self@.len(),
    {
        self.receivers.len()
    }

    /// The receiver at a slot index.
    pub fn receiver(&self, index: usize) -> (r: &Receiver<M>)
        requires
            index < self@.len(),
        ensures
            *r == self@[index as int],
    {
        &self.receivers[index]
    }

    /// Reads from the receiver at a slot index without blocking.
    pub fn read(&self, index: usize) -> (outcome: ReadOutcome<M>)
        requires
            index < self@.len(),
    {
        try_read(&self.receivers[index])
    }
}

} // verus!
