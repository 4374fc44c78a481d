//! A queue of events between the part that reports and the part that shows.

use vstd::prelude::*;
use std::collections::VecDeque;

verus! {

/// Events in the order in which they were sent.
#[derive(Debug, PartialEq, Eq)]
pub struct SyncEvent<T> {
    queue: VecDeque<T>,
}

/// What a queue of events offers.
pub trait SyncTrait<T>: Sized {
    /// The events that were sent and not received yet, oldest first.
    spec fn pending(&self) -> Seq<T>;

    /// A queue without events.
    fn new() -> (r: Self)
        ensures
            r.pending() == Seq::<T>::empty(),
    ;

    /// Sends an event: it is queued behind all others.
    fn send(&mut self, data: T)
        ensures
            final(self).pending() == old(self).pending().push(data),
    ;

    /// Receives the oldest event, if there is one.
    fn recv(&mut self) -> (r: Option<T>)
        ensures
            old(self).pending().len() == 0 ==> r is None && final(self).pending() == old(self).pending(),
            old(self).pending().len() > 0 ==> r == Some(old(self).pending()[0]) && final(self).pending() == old(self).pending().skip(1),
    ;
}

impl<T> SyncTrait<T> for SyncEvent<T> {
    closed spec fn pending(&self) -> Seq<T> {
        self.queue@
    }

    fn new() -> (r: Self) {
        SyncEvent { queue: VecDeque::new() }
    }

    fn send(&mut self, data: T) {
        self.queue.push_back(data);
    }

    fn recv(&mut self) -> (r: Option<T>) {
        let got = self.queue.pop_front();
        assert(old(self).queue@.len() > 0 ==> self.queue@ =~= old(self).queue@.skip(1));
        got
    }
}

} // verus!
