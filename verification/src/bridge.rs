//! The event bridge: a unidirectional FIFO channel from the network context
//! to the render context.
//!
//! The producer pushes events; the consumer drains at most one event per
//! poll. Delivery is at-most-once and in production order: the ghost
//! `history` records every event ever pushed, the ghost `delivered` records
//! the events handed out so far, and `delivered` is always a prefix of
//! `history`.

use vstd::prelude::*;

use crate::app::AppMessage;

verus! {

/// Single-producer/single-consumer ordered event channel.
pub struct EventBridge {
    events: Vec<AppMessage>,
    delivered: Ghost<Seq<AppMessage>>,
}

impl View for EventBridge {
    type V = Seq<AppMessage>;

    /// The events currently queued, oldest first.
    closed spec fn view(&self) -> Seq<AppMessage> {
        self.events@
    }
}

impl EventBridge {
    /// Every event ever pushed into the bridge, in production order.
    pub closed spec fn history(&self) -> Seq<AppMessage> {
        self.delivered@ + self.events@
    }

    /// The events already handed to the consumer, in delivery order.
    pub closed spec fn delivered(&self) -> Seq<AppMessage> {
        self.delivered@
    }

    /// A fresh bridge: nothing produced, nothing delivered.
    pub fn new() -> (b: EventBridge)
        ensures
            b@ == Seq::<AppMessage>::empty(),
            b.history() == Seq::<AppMessage>::empty(),
            b.delivered() == Seq::<AppMessage>::empty(),
    {
        let b = EventBridge { events: Vec::new(), delivered: Ghost(Seq::empty()) };
        proof {
            assert(b.history() =~= Seq::<AppMessage>::empty());
        }
        b
    }

    /// Produce one event: it is appended behind everything already queued.
    pub fn push(&mut self, msg: AppMessage)
        ensures
            final(self)@ == old(self)@.push(msg),
            final(self).history() == old(self).history().push(msg),
            final(self).delivered() == old(self).delivered(),
    {
        self.events.push(msg);
        proof {
            assert(self.history() =~= old(self).history().push(msg));
        }
    }

    /// Consume at most one event: the oldest queued event, if any. Never
    /// blocks; an empty bridge leaves everything unchanged.
    pub fn poll(&mut self) -> (r: Option<AppMessage>)
        ensures
            old(self)@.len() == 0 ==> {
                &&& r is None
                &&& final(self)@ == old(self)@
                &&& final(self).delivered() == old(self).delivered()
            },
            old(self)@.len() > 0 ==> {
                &&& r == Some(old(self)@[0])
                &&& final(self)@ == old(self)@.drop_first()
                &&& final(self).delivered() == old(self).delivered().push(old(self)@[0])
            },
            final(self).history() == old(self).history(),
    {
        if self.events.len() == 0 {
            None
        } else {
            let msg = self.events.remove(0);
            self.delivered = Ghost(self.delivered@.push(msg));
            proof {
                assert(self.events@ =~= old(self)@.drop_first());
                assert(self.history() =~= old(self).history());
            }
            Some(msg)
        }
    }

    /// How many events are queued right now.
    pub fn len(&self) -> (n: usize)
        ensures
            n == self@.len(),
    {
        self.events.len()
    }

    /// Delivery is in order and loses nothing: what the consumer has seen is
    /// exactly the first `delivered().len()` events ever produced, in the
    /// order they were produced.
    pub proof fn lemma_delivery_in_order(&self)
        ensures
            self.delivered() == self.history().take(self.delivered().len() as int),
            self.delivered().len() <= self.history().len(),
    {
        assert(self.delivered() =~= self.history().take(self.delivered().len() as int));
    }

    /// A `Connected` event produced before a `BrowseNodeResult` event is
    /// observed by the consumer strictly before it: the consumer acts on the
    /// browse result only after having seen the connection established.
    pub proof fn lemma_connected_observed_first(&self, i: int, j: int)
        requires
            0 <= i < j < self.delivered().len(),
            self.history()[i] is Connected,
            self.history()[j] is BrowseNodeResult,
        ensures
            self.delivered()[i] is Connected,
            self.delivered()[j] is BrowseNodeResult,
    {
        self.lemma_delivery_in_order();
    }
}

} // verus!
