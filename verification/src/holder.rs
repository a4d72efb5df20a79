//! The navigation state holder.
//!
//! One holder owns the current [`NavigationSelection`]; the menu and the
//! content view read it through [`NavigationHolder::read`] and the route
//! handler replaces it through [`NavigationHolder::write`]. Observers are
//! registered once by handle; each `write` notifies every registered
//! observer exactly once, in registration order, before it returns: the
//! handles to invoke come back as the returned batch, and every delivery
//! is appended to the holder's notification log.

use vstd::prelude::*;

use crate::selection::NavigationSelection;

verus! {

/// Shared navigation state: the current selection, the registered observer
/// handles in registration order, and the log of all notifications
/// delivered so far.
pub struct NavigationHolder {
    selection: NavigationSelection,
    observers: Vec<u64>,
    notifications: Vec<u64>,
}

impl NavigationHolder {
    /// The demo name currently selected.
    pub closed spec fn current(self) -> Seq<char> {
        self.selection@
    }

    /// The registered observer handles, in registration order.
    pub closed spec fn observers(self) -> Seq<u64> {
        self.observers@
    }

    /// Every notification delivered so far, in delivery order.
    pub closed spec fn notifications(self) -> Seq<u64> {
        self.notifications@
    }

    /// How one `write` of `next` changes a holder: the selection becomes
    /// `next`, the observer list is untouched, and one notification per
    /// registered observer is appended to the log, in registration order.
    pub open spec fn write_step(pre: Self, post: Self, next: Seq<char>) -> bool {
        &&& post.current() == next
        &&& post.observers() == pre.observers()
        &&& post.notifications() == pre.notifications() + pre.observers()
    }

    /// A holder left exactly as it was: same selection, observers and log.
    pub open spec fn same_state(pre: Self, post: Self) -> bool {
        &&& post.current() == pre.current()
        &&& post.observers() == pre.observers()
        &&& post.notifications() == pre.notifications()
    }

    /// A fresh holder: empty selection, no observers, nothing delivered.
    pub fn new() -> (h: Self)
        ensures
            h.current() == Seq::<char>::empty(),
            h.observers() == Seq::<u64>::empty(),
            h.notifications() == Seq::<u64>::empty(),
    {
        NavigationHolder {
            selection: NavigationSelection::empty(),
            observers: Vec::new(),
            notifications: Vec::new(),
        }
    }

    /// Registers one more observer handle; later writes notify it too.
    pub fn subscribe(&mut self, observer: u64)
        ensures
            final(self).observers() == old(self).observers().push(observer),
            final(self).current() == old(self).current(),
            final(self).notifications() == old(self).notifications(),
    {
        self.observers.push(observer);
    }

    /// The last written selection (or the empty default).
    pub fn read(&self) -> (s: NavigationSelection)
        ensures
            s@ == self.current(),
    {
        self.selection.duplicate()
    }

    /// Replaces the selection with `next` and notifies every registered
    /// observer once, in registration order. The returned batch holds the
    /// handles to invoke, and the same handles are appended to the log.
    pub fn write(&mut self, next: &str) -> (batch: Vec<u64>)
        ensures
            Self::write_step(*old(self), *final(self), next@),
            batch@ == old(self).observers(),
    {
        self.selection = NavigationSelection::new(next);
        let mut batch: Vec<u64> = Vec::new();
        let mut i: usize = 0;
        while i < self.observers.len()
            invariant
                i <= self.observers.len(),
                self.observers@ == old(self).observers(),
                self.selection@ == next@,
                batch@ == old(self).observers().take(i as int),
                self.notifications@ == old(self).notifications() + old(self).observers().take(
                    i as int,
                ),
            decreases self.observers.len() - i,
        {
            let observer = self.observers[i];
            batch.push(observer);
            self.notifications.push(observer);
            proof {
                assert(old(self).observers().take(i + 1) == old(self).observers().take(
                    i as int,
                ).push(observer));
            }
            i = i + 1;
        }
        proof {
            assert(old(self).observers().take(self.observers@.len() as int) == old(
                self,
            ).observers());
        }
        batch
    }

    /// The registered observer handles, in registration order.
    pub fn observer_handles(&self) -> (r: &Vec<u64>)
        ensures
            r@ == self.observers(),
    {
        &self.observers
    }

    /// The notifications delivered so far, in delivery order.
    pub fn notification_log(&self) -> (r: &Vec<u64>)
        ensures
            r@ == self.notifications(),
    {
        &self.notifications
    }

    /// A write of `next` followed by a read yields exactly `next`: the
    /// write step pins the current selection, which is what `read` returns.
    pub proof fn lemma_write_then_read(pre: Self, post: Self, next: Seq<char>)
        requires
            Self::write_step(pre, post, next),
        ensures
            post.current() == next,
    {
    }

    /// Writing the same name twice is idempotent for the selection, while
    /// the observers are notified once per call, never deduplicated: the
    /// log grows by the full observer list on each of the two writes.
    pub proof fn lemma_write_twice(h0: Self, h1: Self, h2: Self, next: Seq<char>)
        requires
            Self::write_step(h0, h1, next),
            Self::write_step(h1, h2, next),
        ensures
            h2.current() == next,
            h2.observers() == h0.observers(),
            h2.notifications() == h0.notifications() + h0.observers() + h0.observers(),
            h2.notifications().len() == h0.notifications().len() + 2 * h0.observers().len(),
    {
    }
}

} // verus!
