//! The event queue: a strictly ordered buffer of pending events, appended
//! at the tail and drained oldest-first (FIFO), so that causally dependent
//! events are applied in the order they were produced.

use vstd::prelude::*;
use crate::event::Event;
use crate::model::EventModel;

verus! {

/// An ordered buffer of events awaiting application.
pub struct EventQueue {
    items: Vec<Event>,
}

impl View for EventQueue {
    type V = Seq<EventModel>;

    closed spec fn view(&self) -> Seq<EventModel> {
        self.items@.map_values(|e: Event| e@)
    }
}

impl EventQueue {
    /// An empty queue.
    pub fn new() -> (q: Self)
        ensures
            q@ == Seq::<EventModel>::empty(),
    {
        let q = EventQueue { items: Vec::new() };
        proof {
            assert(q@ =~= Seq::<EventModel>::empty());
        }
        q
    }

    /// How many events are pending.
    pub fn len(&self) -> (n: usize)
        ensures
            n == self@.len(),
    {
        self.items.len()
    }

    /// Appends `event` at the tail; always succeeds.
    pub fn enqueue(&mut self, event: Event)
        ensures
            final(self)@ == old(self)@.push(event@),
    {
        let ghost before = self.items@;
        self.items.push(event);
        proof {
            assert(self@ =~= old(self)@.push(self.items@[before.len() as int]@));
        }
    }

    /// Removes and returns the earliest-enqueued event still pending, or
    /// nothing if the queue is empty.
    pub fn dequeue_oldest(&mut self) -> (r: Option<Event>)
        ensures
            old(self)@.len() == 0 ==> r is None && final(self)@ == old(self)@,
            old(self)@.len() > 0 ==> (r matches Some(e) && e@ == old(self)@[0] && final(self)@
                == old(self)@.drop_first()),
    {
        if self.items.len() == 0 {
            None
        } else {
            let e = self.items.remove(0);
            proof {
                assert(self@ =~= old(self)@.drop_first());
            }
            Some(e)
        }
    }
}

} // verus!
