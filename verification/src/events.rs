//! The queue through which components report events to the host.
use std::collections::VecDeque;
use vstd::prelude::*;
use crate::template::value::EventHook;

verus! {

/// The events that the components of one tree have raised, oldest first.
pub struct EventSink {
    events: VecDeque<String>,
}

impl View for EventSink {
    type V = Seq<Seq<char>>;

    closed spec fn view(&self) -> Seq<Seq<char>> {
        Seq::new(self.events@.len(), |i: int| self.events@[i]@)
    }
}

impl EventSink {
    /// A sink without events.
    pub fn new() -> (sink: Self)
        ensures
            sink@ == Seq::<Seq<char>>::empty(),
    {
        let sink = EventSink { events: VecDeque::new() };
        assert(sink@ =~= Seq::<Seq<char>>::empty());
        sink
    }

    /// Retrieves the next event raised by a component, or returns None.
    pub fn next(&mut self) -> (event: Option<String>)
        ensures
            match event {
                Some(name) => old(self)@.len() > 0 && name@ == old(self)@[0] && final(self)@
                    == old(self)@.drop_first(),
                None => old(self)@.len() == 0 && final(self)@ == old(self)@,
            },
    {
        let event = self.events.pop_front();
        proof {
            if event is Some {
                assert(self@ =~= old(self)@.drop_first());
            } else {
                assert(self@ =~= old(self)@);
            }
        }
        event
    }

    /// Raises an event: the name of a direct hook is added behind the events that wait.
    /// A script hook adds nothing, scripts are not run by the sink.
    pub fn raise(&mut self, event: &EventHook)
        ensures
            final(self)@ == match event {
                EventHook::Direct(name) => old(self)@.push(name@),
                EventHook::Script(_) => old(self)@,
            },
    {
        match event {
            EventHook::Direct(value) => {
                self.events.push_back(value.clone());
                assert(self@ =~= old(self)@.push(value@));
            },
            EventHook::Script(_script) => {
                assert(self@ =~= old(self)@);
            },
        }
    }
}

} // verus!
