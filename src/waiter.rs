use crate::registry::ChannelRegistry;
use crossbeam::channel::{Receiver, Select};
use vstd::prelude::*;

verus! {

#[verifier::external_type_specification]
#[verifier::external_body]
pub struct ExSelect<'a>(Select<'a>);

/// The indices of the operations that a `Select` currently holds: those added
/// and not removed.
pub uninterp spec fn select_ops(s: Select) -> Set<usize>;

/// How many operations were ever added to a `Select`; the next one gets this
/// number as its index.
pub uninterp spec fn select_added(s: Select) -> nat;

/// Relies on crossbeam's `Select::new`: an empty list of operations, with the
/// fair (randomized) choice among ready ones.
#[verifier::external_body]
fn select_new<'a>() -> (s: Select<'a>)
    ensures
        select_ops(s) == Set::<usize>::empty(),
        select_added(s) == 0,
{
    Select::new()
}

/// Relies on crossbeam's `Select::recv`: the new receive operation gets the
/// next index, and the indices of the others stay.
#[verifier::external_body]
fn select_add_recv<'a, M>(s: &mut Select<'a>, r: &'a Receiver<M>) -> (index: usize)
    ensures
        index == select_added(*old(s)),
        select_added(*final(s)) == select_added(*old(s)) + 1,
        select_ops(*final(s)) == select_ops(*old(s)).insert(index),
{
    s.recv(r)
}

/// Relies on crossbeam's `Select::remove`, which panics on an index that it
/// does not hold; the others keep their indices.
#[verifier::external_body]
fn select_remove(s: &mut Select, index: usize)
    requires
        select_ops(*old(s)).contains(index),
    ensures
        select_added(*final(s)) == select_added(*old(s)),
        select_ops(*final(s)) == select_ops(*old(s)).remove(index),
{
    s.remove(index)
}

/// Relies on crossbeam's `Select::ready`, which panics when it holds no
/// operation and otherwise blocks until one of those it holds is ready (or
/// wakes spuriously), and returns that operation's index.
#[verifier::external_body]
fn select_ready(s: &mut Select) -> (index: usize)
    requires
        select_ops(*old(s)).len() > 0,
    ensures
        select_added(*final(s)) == select_added(*old(s)),
        select_ops(*final(s)) == select_ops(*old(s)),
        select_ops(*old(s)).contains(index),
{
    s.ready()
}

/// The indices below `n`.
pub open spec fn slots_below(n: nat) -> Set<usize> {
    Set::new(|i: usize| i < n)
}

/// The indices below `n` are `n` many.
pub proof fn lemma_slots_below_len(n: nat)
    requires
        n <= usize::MAX + 1,
    ensures
        slots_below(n).finite(),
        slots_below(n).len() == n,
    decreases n,
{
    if n == 0 {
        assert(slots_below(n) =~= Set::<usize>::empty());
    } else {
        let k = (n - 1) as usize;
        lemma_slots_below_len((n - 1) as nat);
        assert(slots_below(n) =~= slots_below((n - 1) as nat).insert(k));
    }
}

/// A blocking wait over the receivers of a registry. Each receiver takes part
/// under its slot index until it is retired; a retired index is never chosen
/// again.
pub struct MultiplexedWaiter<'a> {
    sel: Select<'a>,
}

impl<'a> MultiplexedWaiter<'a> {
    /// The slot indices that a wait still considers.
    pub closed spec fn active(&self) -> Set<usize> {
        select_ops(self.sel)
    }

    /// The number of slots the waiter was built over.
    pub closed spec fn slot_count(&self) -> nat {
        select_added(self.sel)
    }

    pub open spec fn wf(&self) -> bool {
        &&& self.active().finite()
        &&& forall|i: usize| self.active().contains(i) ==> i < self.slot_count()
    }

    /// A waiter over every receiver of `registry`, each under its slot index.
    pub fn new<M>(registry: &'a ChannelRegistry<M>) -> (w: Self)
        ensures
            w.wf(),
            w.slot_count() == registry@.len(),
            w.active() == slots_below(registry@.len()),
    {
        let mut sel = select_new();
        let n = registry.len();
        let mut i: usize = 0;
        while i < n
            invariant
                n == registry@.len(),
                i <= n,
                select_added(sel) == i,
                select_ops(sel) == slots_below(i as nat),
            decreases n - i,
        {
            let index = select_add_recv(&mut sel, registry.receiver(i));
            assert(select_ops(sel) =~= slots_below((i + 1) as nat));
            i = i + 1;
        }
        proof {
            lemma_slots_below_len(n as nat);
        }
        MultiplexedWaiter { sel }
    }

    /// Blocks until one of the active slots is ready, and returns its index.
    /// Ready means that a read will not block: the channel holds a message or
    /// is closed; a spurious wake-up may also return.
    pub fn wait_one(&mut self) -> (index: usize)
        requires
            old(self).wf(),
            old(self).active().len() > 0,
        ensures
            final(self).wf(),
            final(self).active() == old(self).active(),
            final(self).slot_count() == old(self).slot_count(),
            old(self).active().contains(index),
    {
        select_ready(&mut self.sel)
    }

    /// Stops considering one active slot, for good. The other slots keep
    /// their indices.
    pub fn retire(&mut self, index: usize)
        requires
            old(self).wf(),
            old(self).active().contains(index),
        ensures
            final(self).wf(),
            final(self).active() == old(self).active().remove(index),
            final(self).slot_count() == old(self).slot_count(),
    {
        select_remove(&mut self.sel, index)
    }
}

} // verus!
