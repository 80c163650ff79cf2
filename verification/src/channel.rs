//! Ordered event delivery between the protocol context and the presentation
//! context.
//!
//! The two contexts communicate over one-directional ordered queues: domain
//! events flow from the protocol side to the presentation side, action
//! intents flow back. A send never waits on the receiver, and events arrive
//! in send order; the queue is unbounded, so nothing is dropped.
use vstd::prelude::*;

verus! {

/// A first-in-first-out, unbounded event queue.
pub struct EventChannel<T> {
    items: Vec<T>,
}

impl<T> View for EventChannel<T> {
    type V = Seq<T>;

    closed spec fn view(&self) -> Seq<T> {
        self.items@
    }
}

impl<T> EventChannel<T> {
    /// An empty channel.
    pub fn new() -> (c: EventChannel<T>)
        ensures
            c@ == Seq::<T>::empty(),
    {
        EventChannel { items: Vec::new() }
    }

    /// Sends an event: it joins the back of the queue, and the producer never
    /// waits.
    pub fn send(&mut self, t: T)
        ensures
            final(self)@ == old(self)@.push(t),
    {
        self.items.push(t);
    }

    /// Receives the oldest queued event, if any; the rest keep their order.
    pub fn try_recv(&mut self) -> (r: Option<T>)
        ensures
            old(self)@.len() == 0 ==> (r is None && final(self)@ == old(self)@),
            old(self)@.len() > 0 ==> (r matches Some(t) && t == old(self)@[0] && final(self)@
                == old(self)@.drop_first()),
    {
        if self.items.len() == 0 {
            None
        } else {
            let t = self.items.remove(0);
            proof {
                assert(self.items@ =~= old(self).items@.drop_first());
            }
            Some(t)
        }
    }

    /// How many events wait in the queue.
    pub fn len(&self) -> (n: usize)
        ensures
            n == self@.len(),
    {
        self.items.len()
    }
}

} // verus!
