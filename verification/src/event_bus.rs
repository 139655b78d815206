//! A first-in first-out queue of application events.
use vstd::prelude::*;
use std::collections::VecDeque;
use crate::state::AppEvent;

verus! {

broadcast use vstd::std_specs::vecdeque::group_vec_dequeue_axioms;

pub struct EventBus {
    pub events: VecDeque<AppEvent>,
}

impl View for EventBus {
    type V = Seq<AppEvent>;

    open spec fn view(&self) -> Seq<AppEvent> {
        self.events@
    }
}

impl Default for EventBus {
    fn default() -> (r: EventBus)
        ensures
            r@ == Seq::<AppEvent>::empty(),
    {
        EventBus { events: VecDeque::new() }
    }
}

impl EventBus {
    /// Queues an event at the back.
    pub fn publish(&mut self, event: AppEvent)
        ensures
            final(self)@ == old(self)@.push(event),
    {
        self.events.push_back(event);
    }

    /// Takes the event at the front, if any.
    pub fn get(&mut self) -> (r: Option<AppEvent>)
        ensures
            old(self)@.len() == 0 ==> r is None && *final(self) == *old(self),
            old(self)@.len() > 0 ==> r == Some(old(self)@[0]) && final(self)@ == old(self)@.drop_first(),
    {
        if self.events.len() == 0 {
            None
        } else {
            self.events.pop_front()
        }
    }

    /// Whether `event` is queued.
    pub fn contains(&self, event: AppEvent) -> (r: bool)
        ensures
            r == self@.contains(event),
    {
        let mut i: usize = 0;
        while i < self.events.len()
            invariant
                i <= self@.len(),
                forall|j: int| 0 <= j < i ==> self@[j] != event,
            decreases self@.len() - i,
        {
            if self.events[i] == event {
                assert(self@[i as int] == event);
                return true;
            }
            i = i + 1;
        }
        false
    }

    /// Queues an event at the back unless an equal event is already queued.
    pub fn publish_if_needed(&mut self, event: AppEvent)
        ensures
            final(self)@ == if old(self)@.contains(event) {
                old(self)@
            } else {
                old(self)@.push(event)
            },
    {
        if !self.contains(event) {
            self.events.push_back(event);
        }
    }
}

} // verus!
