//! Which event listeners fire: listeners are numbered in the order they were
//! registered, each for one event name.

use vstd::prelude::*;
use crate::text::push_str;

verus! {

/// The event names that listeners were registered for, listener `i` at index `i`.
#[derive(Debug, Default)]
pub struct ListenerTable {
    events: Vec<String>,
}

/// The listeners, in registration order, that were registered for `event`.
pub open spec fn listeners_of(events: Seq<Seq<char>>, event: Seq<char>) -> Seq<usize>
    decreases events.len(),
{
    if events.len() == 0 {
        Seq::empty()
    } else {
        let rest = listeners_of(events.drop_last(), event);
        if events.last() == event {
            rest.push((events.len() - 1) as usize)
        } else {
            rest
        }
    }
}

impl ListenerTable {
    /// The event name of each registered listener, by listener number.
    pub closed spec fn events_view(&self) -> Seq<Seq<char>> {
        self.events@.map_values(|e: String| e@)
    }

    /// A table without listeners.
    pub fn new() -> (t: ListenerTable)
        ensures
            t.events_view() == Seq::<Seq<char>>::empty(),
    {
        let t = ListenerTable { events: Vec::new() };
        assert(t.events_view() =~= Seq::<Seq<char>>::empty());
        t
    }

    /// Registers a listener for `event`; returns its number.
    pub fn on(&mut self, event: &str) -> (id: usize)
        requires
            old(self).events_view().len() < usize::MAX,
        ensures
            id == old(self).events_view().len(),
            final(self).events_view() == old(self).events_view().push(event@),
    {
        let id = self.events.len();
        let mut name: Vec<char> = Vec::new();
        push_str(&mut name, event);
        self.events.push(crate::text::string_from_chars(name.as_slice()));
        assert(self.events_view() =~= old(self).events_view().push(event@));
        id
    }

    /// The listeners that an emission of `event` calls, in registration order.
    pub fn listeners_for(&self, event: &str) -> (ids: Vec<usize>)
        ensures
            ids@ == listeners_of(self.events_view(), event@),
    {
        let wanted = event.to_owned();
        let mut ids: Vec<usize> = Vec::new();
        let mut i: usize = 0;
        while i < self.events.len()
            invariant
                i <= self.events@.len(),
                wanted@ == event@,
                ids@ == listeners_of(self.events_view().take(i as int), event@),
            decreases self.events.len() - i,
        {
            proof {
                assert(self.events_view().take(i + 1).drop_last() =~= self.events_view().take(i as int));
                assert(self.events_view().take(i + 1).last() == self.events@[i as int]@);
            }
            if self.events[i] == wanted {
                ids.push(i);
            }
            i += 1;
        }
        assert(self.events_view().take(i as int) =~= self.events_view());
        ids
    }
}

} // verus!

