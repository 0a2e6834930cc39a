//! A bounded broadcast: every event goes to every listener, and a listener that falls behind
//! loses the oldest events instead of holding the publisher up.
//!
//! The bus keeps the latest events, at most `capacity` of them, and for each listener the
//! number of events it has still to receive, which are always the latest ones. Publishing
//! never waits and never fails, whether there are listeners or not.

use std::collections::VecDeque;
use vstd::prelude::*;

verus! {

/// A listener: its number, and how many of the latest events it has still to receive.
#[derive(Clone, Copy, Debug, PartialEq, Eq, Structural)]
pub struct Listener {
    pub id: u64,
    pub pending: usize,
}

/// A bounded broadcast of events of type `T`.
pub struct Bus<T> {
    events: VecDeque<T>,
    capacity: usize,
    listeners: Vec<Listener>,
}

/// What a [`Bus`] stands for.
pub struct BusView<T> {
    /// The latest events, oldest first.
    pub events: Seq<T>,
    /// The most events that are kept.
    pub capacity: nat,
    /// The listeners, in the order in which they were registered.
    pub listeners: Seq<Listener>,
}

/// The smaller of two numbers.
pub open spec fn min_int(a: int, b: int) -> int {
    if a <= b {
        a
    } else {
        b
    }
}

/// The index of the listener `id`, if it is registered.
pub open spec fn listener_index(listeners: Seq<Listener>, id: u64) -> Option<int> {
    if exists|i: int| 0 <= i < listeners.len() && (#[trigger] listeners[i]).id == id {
        Some(choose|i: int| 0 <= i < listeners.len() && (#[trigger] listeners[i]).id == id)
    } else {
        None
    }
}

/// No two listeners have the same number.
pub open spec fn distinct_ids(listeners: Seq<Listener>) -> bool {
    forall|i: int, j: int|
        0 <= i < j < listeners.len() ==> (#[trigger] listeners[i]).id != (#[trigger] listeners[j]).id
}

impl<T> BusView<T> {
    /// The bus keeps within its capacity, no listener expects more events than are kept, and
    /// no two listeners have the same number.
    pub open spec fn wf(self) -> bool {
        &&& 1 <= self.capacity <= usize::MAX
        &&& self.events.len() <= self.capacity
        &&& distinct_ids(self.listeners)
        &&& forall|i: int|
            0 <= i < self.listeners.len() ==> (#[trigger] self.listeners[i]).pending
                <= self.events.len()
    }

    /// The events that the listener at index `i` has still to receive, oldest first.
    pub open spec fn pending_of(self, i: int) -> Seq<T> {
        self.events.skip(self.events.len() - self.listeners[i].pending)
    }

    /// The bus after `event` was published: it is the latest event, the oldest one has made
    /// room for it if the bus was full, and every listener has one more event to receive,
    /// up to the capacity.
    pub open spec fn after_publish(self, event: T) -> BusView<T> {
        BusView {
            events: if self.events.len() >= self.capacity {
                self.events.drop_first().push(event)
            } else {
                self.events.push(event)
            },
            listeners: self.listeners.map_values(
                |l: Listener|
                    Listener {
                        pending: min_int(l.pending + 1, self.capacity as int) as usize,
                        ..l
                    },
            ),
            ..self
        }
    }

    /// The bus after the listener at index `i` received its next event.
    pub open spec fn after_receive(self, i: int) -> BusView<T> {
        if self.listeners[i].pending > 0 {
            BusView {
                listeners: self.listeners.update(
                    i,
                    Listener { pending: (self.listeners[i].pending - 1) as usize, ..self.listeners[i] },
                ),
                ..self
            }
        } else {
            self
        }
    }
}

impl<T> View for Bus<T> {
    type V = BusView<T>;

    closed spec fn view(&self) -> BusView<T> {
        BusView {
            events: self.events@,
            capacity: self.capacity as nat,
            listeners: self.listeners@,
        }
    }
}

impl<T> Bus<T> {
    #[verifier::type_invariant]
    spec fn well_formed(self) -> bool {
        self@.wf()
    }

    /// A bus without listeners that keeps the latest `capacity` events, and at least one.
    pub fn new(capacity: usize) -> (bus: Self)
        ensures
            bus@.wf(),
            bus@.events.len() == 0,
            bus@.listeners.len() == 0,
            bus@.capacity == (if capacity == 0 {
                1
            } else {
                capacity as int
            }),
    {
        Bus {
            events: VecDeque::new(),
            capacity: if capacity == 0 {
                1
            } else {
                capacity
            },
            listeners: Vec::new(),
        }
    }

    /// The bus is always well formed.
    pub fn capacity(&self) -> (n: usize)
        ensures
            n == self@.capacity,
            self@.wf(),
    {
        proof {
            use_type_invariant(self);
        }
        self.capacity
    }

    /// The number of listeners.
    pub fn listener_count(&self) -> (n: usize)
        ensures
            n == self@.listeners.len(),
    {
        self.listeners.len()
    }

    /// The index of the listener `id`.
    fn find(&self, id: u64) -> (r: Option<usize>)
        ensures
            self@.wf(),
            match r {
                Some(i) => i < self@.listeners.len() && self@.listeners[i as int].id == id
                    && listener_index(self@.listeners, id) == Some(i as int),
                None => listener_index(self@.listeners, id) is None,
            },
    {
        proof {
            use_type_invariant(self);
        }
        let mut i: usize = 0;
        while i < self.listeners.len()
            invariant
                i <= self.listeners.len(),
                self@.wf(),
                distinct_ids(self.listeners@),
                forall|j: int| 0 <= j < i ==> (#[trigger] self.listeners@[j]).id != id,
            decreases self.listeners.len() - i,
        {
            if self.listeners[i].id == id {
                let ghost found = choose|j: int|
                    0 <= j < self.listeners@.len() && (#[trigger] self.listeners@[j]).id == id;
                assert(found == i) by {
                    if found < i {
                        assert(self.listeners@[found].id != self.listeners@[i as int].id);
                    } else if i < found {
                        assert(self.listeners@[i as int].id != self.listeners@[found].id);
                    }
                }
                return Some(i);
            }
            i = i + 1;
        }
        None
    }

    /// Registers the listener `id`, which receives the events published from now on. A
    /// number that is already registered is refused, and nothing changes.
    pub fn subscribe(&mut self, id: u64) -> (added: bool)
        ensures
            added == (listener_index(old(self)@.listeners, id) is None),
            final(self)@ == (if added {
                BusView {
                    listeners: old(self)@.listeners.push(Listener { id, pending: 0 }),
                    ..old(self)@
                }
            } else {
                old(self)@
            }),
    {
        match self.find(id) {
            Some(_) => false,
            None => {
                let mut listeners: Vec<Listener> = Vec::new();
                std::mem::swap(&mut self.listeners, &mut listeners);
                listeners.push(Listener { id, pending: 0 });
                proof {
                    let before = old(self)@.listeners;
                    assert forall|i: int, j: int| 0 <= i < j < listeners@.len() implies (
                    #[trigger] listeners@[i]).id != (#[trigger] listeners@[j]).id by {
                        if j == before.len() {
                            assert(before[i].id != id);
                        } else {
                            assert(before[i].id != before[j].id);
                        }
                    }
                }
                self.listeners = listeners;
                true
            },
        }
    }

    /// Removes the listener `id`, if it is registered. The other listeners keep their order
    /// and what they have still to receive.
    pub fn unsubscribe(&mut self, id: u64) -> (removed: bool)
        ensures
            removed == (listener_index(old(self)@.listeners, id) is Some),
            final(self)@ == (match listener_index(old(self)@.listeners, id) {
                Some(i) => BusView { listeners: old(self)@.listeners.remove(i), ..old(self)@ },
                None => old(self)@,
            }),
    {
        match self.find(id) {
            Some(i) => {
                let mut listeners: Vec<Listener> = Vec::new();
                std::mem::swap(&mut self.listeners, &mut listeners);
                listeners.remove(i);
                proof {
                    let before = old(self)@.listeners;
                    assert forall|a: int, b: int| 0 <= a < b < listeners@.len() implies (
                    #[trigger] listeners@[a]).id != (#[trigger] listeners@[b]).id by {
                        let a0 = if a < i {
                            a
                        } else {
                            a + 1
                        };
                        let b0 = if b < i {
                            b
                        } else {
                            b + 1
                        };
                        assert(before[a0].id != before[b0].id);
                    }
                    assert forall|a: int| 0 <= a < listeners@.len() implies (
                    #[trigger] listeners@[a]).pending <= self.events@.len() by {
                        let a0 = if a < i {
                            a
                        } else {
                            a + 1
                        };
                        assert(before[a0].pending <= self.events@.len());
                    }
                }
                self.listeners = listeners;
                true
            },
            None => false,
        }
    }

    /// Publishes an event to all listeners. This never waits: a listener that already has as
    /// many events to receive as the bus keeps loses the oldest of them.
    pub fn publish(&mut self, event: T)
        ensures
            final(self)@ == old(self)@.after_publish(event),
    {
        proof {
            use_type_invariant(&*self);
        }
        let capacity: usize = self.capacity;
        let mut listeners: Vec<Listener> = Vec::new();
        std::mem::swap(&mut self.listeners, &mut listeners);
        let mut events: VecDeque<T> = VecDeque::new();
        std::mem::swap(&mut self.events, &mut events);
        let ghost before = listeners@;
        let ghost old_events = events@;
        if events.len() >= capacity {
            let dropped = events.pop_front();
            assert(events@ =~= old_events.drop_first());
        }
        events.push_back(event);
        let ghost bump = |l: Listener|
            Listener { pending: min_int(l.pending + 1, capacity as int) as usize, ..l };
        let n: usize = listeners.len();
        let mut i: usize = 0;
        while i < n
            invariant
                i <= n,
                n == before.len(),
                listeners@.len() == n,
                capacity >= 1,
                forall|l: Listener|
                    #[trigger] bump(l) == (Listener {
                        pending: min_int(l.pending + 1, capacity as int) as usize,
                        ..l
                    }),
                forall|j: int| 0 <= j < i ==> (#[trigger] listeners@[j]) == bump(before[j]),
                forall|j: int| i <= j < n ==> (#[trigger] listeners@[j]) == before[j],
            decreases n - i,
        {
            let l: Listener = listeners[i];
            let pending: usize = if l.pending >= capacity {
                capacity
            } else {
                l.pending + 1
            };
            listeners.set(i, Listener { id: l.id, pending });
            i = i + 1;
        }
        proof {
            assert(listeners@ =~= before.map_values(bump));
            assert forall|a: int, b: int| 0 <= a < b < listeners@.len() implies (
            #[trigger] listeners@[a]).id != (#[trigger] listeners@[b]).id by {
                assert(before[a].id != before[b].id);
            }
            assert forall|a: int| 0 <= a < listeners@.len() implies (
            #[trigger] listeners@[a]).pending <= events@.len() by {
                assert(before[a].pending <= old_events.len());
            }
        }
        self.events = events;
        self.listeners = listeners;
    }

    /// Hands the listener `id` the oldest event that it has still to receive. `None` means
    /// that it has received everything, or that no such listener is registered.
    pub fn receive(&mut self, id: u64) -> (r: Option<&T>)
        ensures
            match listener_index(old(self)@.listeners, id) {
                Some(i) => {
                    &&& final(self)@ == old(self)@.after_receive(i)
                    &&& if old(self)@.listeners[i].pending > 0 {
                        r matches Some(e) && *e == old(self)@.pending_of(i)[0]
                    } else {
                        r is None
                    }
                },
                None => r is None && final(self)@ == old(self)@,
            },
    {
        match self.find(id) {
            Some(i) => {
                let l: Listener = self.listeners[i];
                if l.pending == 0 {
                    return None;
                }
                let mut listeners: Vec<Listener> = Vec::new();
                std::mem::swap(&mut self.listeners, &mut listeners);
                listeners.set(i, Listener { id: l.id, pending: l.pending - 1 });
                proof {
                    let before = old(self)@.listeners;
                    assert forall|a: int, b: int| 0 <= a < b < listeners@.len() implies (
                    #[trigger] listeners@[a]).id != (#[trigger] listeners@[b]).id by {
                        assert(before[a].id != before[b].id);
                    }
                    assert forall|a: int| 0 <= a < listeners@.len() implies (
                    #[trigger] listeners@[a]).pending <= self.events@.len() by {
                        assert(before[a].pending <= self.events@.len());
                    }
                }
                self.listeners = listeners;
                let at: usize = self.events.len() - l.pending;
                Some(&self.events[at])
            },
            None => None,
        }
    }
}

/// Every registered listener gets every event: right after an event was published, it is the
/// latest of the events that each listener has still to receive. This holds with slow
/// listeners and with none.
pub proof fn lemma_published_event_reaches_all<T>(bus: BusView<T>, event: T, i: int)
    requires
        bus.wf(),
        0 <= i < bus.listeners.len(),
    ensures
        bus.after_publish(event).wf(),
        bus.after_publish(event).listeners.len() == bus.listeners.len(),
        bus.after_publish(event).listeners[i].id == bus.listeners[i].id,
        bus.after_publish(event).pending_of(i).len() >= 1,
        bus.after_publish(event).pending_of(i).last() == event,
{
    lemma_publish_keeps_order(bus, event, i);
}

/// A listener receives events in the order in which they were published, and a slow listener
/// loses the oldest: after an event was published, what a listener has still to receive is
/// what it had to receive before, followed by the new event, less the oldest event if that
/// makes more than the bus keeps.
pub proof fn lemma_publish_keeps_order<T>(bus: BusView<T>, event: T, i: int)
    requires
        bus.wf(),
        0 <= i < bus.listeners.len(),
    ensures
        bus.after_publish(event).wf(),
        bus.after_publish(event).pending_of(i) == (if bus.listeners[i].pending < bus.capacity {
            bus.pending_of(i).push(event)
        } else {
            bus.pending_of(i).drop_first().push(event)
        }),
{
    let after = bus.after_publish(event);
    assert(after.listeners[i].pending == min_int(
        bus.listeners[i].pending + 1,
        bus.capacity as int,
    ));
    assert(after.wf()) by {
        assert forall|a: int, b: int| 0 <= a < b < after.listeners.len() implies (
        #[trigger] after.listeners[a]).id != (#[trigger] after.listeners[b]).id by {
            assert(bus.listeners[a].id != bus.listeners[b].id);
        }
        assert forall|a: int| 0 <= a < after.listeners.len() implies (
        #[trigger] after.listeners[a]).pending <= after.events.len() by {
            assert(bus.listeners[a].pending <= bus.events.len());
        }
    }
    if bus.listeners[i].pending < bus.capacity {
        assert(after.pending_of(i) =~= bus.pending_of(i).push(event));
    } else {
        assert(after.pending_of(i) =~= bus.pending_of(i).drop_first().push(event));
    }
}

/// Receiving takes the oldest pending event and leaves the rest, in order.
pub proof fn lemma_receive_takes_oldest<T>(bus: BusView<T>, i: int)
    requires
        bus.wf(),
        0 <= i < bus.listeners.len(),
        bus.listeners[i].pending > 0,
    ensures
        bus.after_receive(i).pending_of(i) == bus.pending_of(i).drop_first(),
        forall|j: int|
            0 <= j < bus.listeners.len() && j != i ==> bus.after_receive(i).pending_of(j)
                == bus.pending_of(j),
{
    assert(bus.after_receive(i).pending_of(i) =~= bus.pending_of(i).drop_first());
}

} // verus!
