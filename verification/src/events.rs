//! Events sent from the host to the script: the table of callback slots that
//! scripts register per event type, and the queue of events that wait for
//! the script to collect them.
use vstd::prelude::*;

verus! {

/// What an event queue holds: the callback slot of each registered event
/// type, and the pending events (slot, data), oldest first.
pub struct EventsModel {
    pub callbacks: Map<Seq<char>, u8>,
    pub pending: Seq<(u8, Seq<char>)>,
}

/// Callback slots per event type and the events waiting to be collected.
pub struct EventQueue {
    callbacks: Vec<(String, u8)>,
    pending: Vec<(u8, String)>,
    known: Ghost<Map<Seq<char>, u8>>,
}

/// What a queued event means: its callback slot and its data.
pub open spec fn event_view(e: (u8, String)) -> (u8, Seq<char>) {
    (e.0, e.1@)
}

/// The model after `register_callback(callback_type, index)`.
pub open spec fn register_model(q: EventsModel, callback_type: Seq<char>, index: u8) -> EventsModel {
    EventsModel { callbacks: q.callbacks.insert(callback_type, index), pending: q.pending }
}

/// The model after sending an event of a registered type.
pub open spec fn send_model(q: EventsModel, event_type: Seq<char>, data: Seq<char>) -> EventsModel {
    EventsModel { callbacks: q.callbacks, pending: q.pending.push((q.callbacks[event_type], data)) }
}

/// The model after the pending events were collected.
pub open spec fn take_model(q: EventsModel) -> EventsModel {
    EventsModel { callbacks: q.callbacks, pending: Seq::empty() }
}

impl View for EventQueue {
    type V = EventsModel;

    closed spec fn view(&self) -> EventsModel {
        EventsModel {
            callbacks: self.known@,
            pending: self.pending@.map_values(|e: (u8, String)| event_view(e)),
        }
    }
}

impl EventQueue {
    /// The table is well formed: every event type occurs once, and the
    /// table and its model agree.
    pub closed spec fn wf(&self) -> bool {
        &&& forall|i: int, j: int|
            0 <= i < self.callbacks@.len() && 0 <= j < self.callbacks@.len() && i != j
                ==> #[trigger] self.callbacks@[i].0@ != #[trigger] self.callbacks@[j].0@
        &&& forall|i: int|
            0 <= i < self.callbacks@.len() ==> self.known@.contains_key(
                #[trigger] self.callbacks@[i].0@,
            ) && self.known@[self.callbacks@[i].0@] == self.callbacks@[i].1
        &&& forall|k: Seq<char>| #[trigger]
            self.known@.contains_key(k) ==> exists|i: int|
                0 <= i < self.callbacks@.len() && #[trigger] self.callbacks@[i].0@ == k
    }

    /// An empty queue with no registered event types.
    pub fn new() -> (r: Self)
        ensures
            r.wf(),
            r@.callbacks == Map::<Seq<char>, u8>::empty(),
            r@.pending == Seq::<(u8, Seq<char>)>::empty(),
    {
        let r = EventQueue {
            callbacks: Vec::new(),
            pending: Vec::new(),
            known: Ghost(Map::empty()),
        };
        assert(r@.pending =~= Seq::<(u8, Seq<char>)>::empty());
        r
    }

    /// Where in the table `name` is registered, if it is.
    fn find(&self, name: &String) -> (r: Option<usize>)
        requires
            self.wf(),
        ensures
            match r {
                Some(i) => i < self.callbacks@.len() && self.callbacks@[i as int].0@ == name@,
                None => !self@.callbacks.contains_key(name@),
            },
    {
        let n = self.callbacks.len();
        for i in 0..n
            invariant
                n == self.callbacks@.len(),
                self.wf(),
                forall|j: int| 0 <= j < i ==> self.callbacks@[j].0@ != name@,
        {
            if self.callbacks[i].0 == *name {
                return Some(i);
            }
        }
        None
    }

    /// The callback slot registered for `event_type`, if any.
    pub fn callback_index(&self, event_type: &String) -> (r: Option<u8>)
        requires
            self.wf(),
        ensures
            match r {
                Some(idx) => self@.callbacks.contains_key(event_type@) && self@.callbacks[event_type@]
                    == idx,
                None => !self@.callbacks.contains_key(event_type@),
            },
    {
        match self.find(event_type) {
            Some(i) => Some(self.callbacks[i].1),
            None => None,
        }
    }

    /// The registered event types and their slots, each type once.
    pub fn callback_list(&self) -> (r: Vec<(String, u8)>)
        requires
            self.wf(),
        ensures
            forall|i: int|
                0 <= i < r@.len() ==> self@.callbacks.contains_key(#[trigger] r@[i].0@)
                    && self@.callbacks[r@[i].0@] == r@[i].1,
            forall|k: Seq<char>| #[trigger]
                self@.callbacks.contains_key(k) ==> exists|i: int|
                    0 <= i < r@.len() && #[trigger] r@[i].0@ == k,
            forall|i: int, j: int|
                0 <= i < r@.len() && 0 <= j < r@.len() && i != j ==> #[trigger] r@[i].0@
                    != #[trigger] r@[j].0@,
    {
        let mut r: Vec<(String, u8)> = Vec::new();
        let n = self.callbacks.len();
        for i in 0..n
            invariant
                n == self.callbacks@.len(),
                r@.len() == i,
                forall|j: int|
                    #![trigger r@[j]]
                    0 <= j < i ==> r@[j].0@ == self.callbacks@[j].0@ && r@[j].1
                        == self.callbacks@[j].1,
        {
            r.push((self.callbacks[i].0.clone(), self.callbacks[i].1));
            assert(r@[i as int].0@ == self.callbacks@[i as int].0@);
        }
        assert forall|k: Seq<char>| #[trigger]
            self@.callbacks.contains_key(k) implies exists|i: int|
            0 <= i < r@.len() && #[trigger] r@[i].0@ == k by {
            let i = choose|i: int| 0 <= i < self.callbacks@.len() && #[trigger] self.callbacks@[i].0@ == k;
            assert(r@[i].0@ == k);
        }
        assert forall|i: int, j: int|
            0 <= i < r@.len() && 0 <= j < r@.len() && i != j implies #[trigger] r@[i].0@
            != #[trigger] r@[j].0@ by {
            assert(self.callbacks@[i].0@ != self.callbacks@[j].0@);
        }
        assert forall|i: int|
            0 <= i < r@.len() implies self@.callbacks.contains_key(#[trigger] r@[i].0@)
            && self@.callbacks[r@[i].0@] == r@[i].1 by {
            assert(r@[i].0@ == self.callbacks@[i].0@);
        }
        r
    }

    /// Registers `index` as the callback slot of `callback_type`, replacing
    /// any earlier slot of that type.
    pub fn register_callback(&mut self, callback_type: String, index: u8)
        requires
            old(self).wf(),
        ensures
            final(self).wf(),
            final(self)@ == register_model(old(self)@, callback_type@, index),
    {
        let ghost name = callback_type@;
        let ghost old_known = self.known@;
        match self.find(&callback_type) {
            Some(i) => {
                self.callbacks.set(i, (callback_type, index));
                self.known = Ghost(old_known.insert(name, index));
                assert forall|k: Seq<char>| #[trigger]
                    self.known@.contains_key(k) implies exists|j: int|
                    0 <= j < self.callbacks@.len() && #[trigger] self.callbacks@[j].0@ == k by {
                    if k != name {
                        let j = choose|j: int|
                            0 <= j < old(self).callbacks@.len() && #[trigger] old(
                                self,
                            ).callbacks@[j].0@ == k;
                        assert(self.callbacks@[j] == old(self).callbacks@[j]);
                    } else {
                        assert(self.callbacks@[i as int].0@ == k);
                    }
                }
            },
            None => {
                self.callbacks.push((callback_type, index));
                self.known = Ghost(old_known.insert(name, index));
                let ghost last = self.callbacks@.len() - 1;
                assert forall|k: Seq<char>| #[trigger]
                    self.known@.contains_key(k) implies exists|j: int|
                    0 <= j < self.callbacks@.len() && #[trigger] self.callbacks@[j].0@ == k by {
                    if k != name {
                        let j = choose|j: int|
                            0 <= j < old(self).callbacks@.len() && #[trigger] old(
                                self,
                            ).callbacks@[j].0@ == k;
                        assert(self.callbacks@[j] == old(self).callbacks@[j]);
                    } else {
                        assert(self.callbacks@[last].0@ == k);
                    }
                }
                assert forall|a: int, b: int|
                    0 <= a < self.callbacks@.len() && 0 <= b < self.callbacks@.len() && a != b
                        implies #[trigger] self.callbacks@[a].0@ != #[trigger] self.callbacks@[b].0@ by {
                    if a == last {
                        assert(old(self).known@.contains_key(self.callbacks@[b].0@));
                    } else if b == last {
                        assert(old(self).known@.contains_key(self.callbacks@[a].0@));
                    }
                }
            },
        }
        assert(self@.pending =~= old(self)@.pending);
        assert(self@.callbacks =~= old(self)@.callbacks.insert(name, index));
    }

    /// Hands out the pending events, oldest first, and empties the queue.
    pub fn take_events(&mut self) -> (r: Vec<(u8, String)>)
        requires
            old(self).wf(),
        ensures
            final(self).wf(),
            r@.map_values(|e: (u8, String)| event_view(e)) == old(self)@.pending,
            final(self)@ == take_model(old(self)@),
    {
        let mut r: Vec<(u8, String)> = Vec::new();
        std::mem::swap(&mut r, &mut self.pending);
        assert(self.callbacks@ == old(self).callbacks@);
        assert(self.known@ == old(self).known@);
        assert(self@.pending =~= Seq::<(u8, Seq<char>)>::empty());
        r
    }
}

/// Queues an event of type `event_type` with `data` for the script, under
/// the callback slot registered for that type.
///
/// The type must be registered: `callback_index` tells whether it is.
pub fn real_send_event(queue: &mut EventQueue, event_type: String, data: String)
    requires
        old(queue).wf(),
        old(queue)@.callbacks.contains_key(event_type@),
    ensures
        final(queue).wf(),
        final(queue)@ == send_model(old(queue)@, event_type@, data@),
{
    let id = match queue.callback_index(&event_type) {
        Some(id) => id,
        None => 0,
    };
    queue.pending.push((id, data));
    assert(queue.callbacks@ == old(queue).callbacks@);
    assert(queue.known@ == old(queue).known@);
    assert(queue@.pending =~= old(queue)@.pending.push((old(queue)@.callbacks[event_type@], data@)));
}

} // verus!
