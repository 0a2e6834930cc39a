//! The connections to one server, among which its commands are spread.

use crate::connection::{
    Connection, ConnectionEvent, ConnectionState, ConnectionView, InFlight, Submission,
};
use vstd::prelude::*;

verus! {

/// The connections to one server.
#[derive(Debug)]
pub struct Pool {
    connections: Vec<Connection>,
    cursor: usize,
}

/// What a [`Pool`] stands for.
pub struct PoolView {
    /// The connections.
    pub connections: Seq<ConnectionView>,
    /// The connection that is tried first for the next command.
    pub cursor: nat,
}

/// The index that is `k` steps after `cursor` in a round through `n` indices.
pub open spec fn round(cursor: int, k: int, n: int) -> int {
    (cursor + k) % n
}

/// The views of a run of connections.
pub open spec fn connection_views(connections: Seq<Connection>) -> Seq<ConnectionView> {
    Seq::new(connections.len(), |i: int| connections[i]@)
}

/// Whether the connection would dispatch a command now.
pub open spec fn is_free(c: ConnectionView) -> bool {
    c.submission() == Submission::Dispatched
}

impl PoolView {
    /// The index of the connection that is tried as the `k`-th: the round begins at the
    /// cursor and goes once through all connections.
    pub open spec fn nth(self, k: int) -> int {
        round(self.cursor as int, k, self.connections.len() as int)
    }

    /// The place in the round of the first connection that would dispatch a command, if
    /// there is one.
    pub open spec fn first_free(self) -> Option<int> {
        if exists|k: int| 0 <= k < self.connections.len() && is_free(self.connections[self.nth(k)]) {
            Some(choose|k: int| self.is_first_free(k))
        } else {
            None
        }
    }

    /// The `k`-th connection of the round would dispatch a command, and none before it would.
    pub open spec fn is_first_free(self, k: int) -> bool {
        &&& 0 <= k < self.connections.len()
        &&& is_free(self.connections[self.nth(k)])
        &&& forall|j: int| 0 <= j < k ==> !is_free(#[trigger] self.connections[self.nth(j)])
    }
}

impl View for Pool {
    type V = PoolView;

    closed spec fn view(&self) -> PoolView {
        PoolView { connections: connection_views(self.connections@), cursor: self.cursor as nat }
    }
}

impl Pool {
    #[verifier::type_invariant]
    spec fn cursor_within(self) -> bool {
        self.cursor < self.connections@.len() || (self.cursor == 0 && self.connections@.len() == 0)
    }

    /// A pool of the given connections.
    pub fn new(connections: Vec<Connection>) -> (p: Self)
        ensures
            p@ == (PoolView { connections: connection_views(connections@), cursor: 0 }),
    {
        Pool { connections, cursor: 0 }
    }

    /// The number of connections.
    pub fn len(&self) -> (n: usize)
        ensures
            n == self@.connections.len(),
    {
        self.connections.len()
    }

    /// The connection at index `i`, if there is one.
    pub fn get(&self, i: usize) -> (r: Option<&Connection>)
        ensures
            match r {
                Some(c) => i < self@.connections.len() && c@ == self@.connections[i as int],
                None => i >= self@.connections.len(),
            },
    {
        if i < self.connections.len() {
            Some(&self.connections[i])
        } else {
            None
        }
    }

    /// Picks the connection for the next command: the first one, going round from the
    /// cursor, that would dispatch it. `None` means that every connection is busy or down, so
    /// that the command has to wait.
    pub fn pick(&self) -> (r: Option<usize>)
        ensures
            match r {
                Some(i) => exists|k: int| self@.is_first_free(k) && i == self@.nth(k),
                None => forall|i: int|
                    0 <= i < self@.connections.len() ==> !is_free(#[trigger] self@.connections[i]),
            },
    {
        proof {
            use_type_invariant(self);
        }
        let n: usize = self.connections.len();
        if n == 0 {
            return None;
        }
        let ghost view = self@;
        let mut k: usize = 0;
        let mut i: usize = self.cursor;
        proof {
            vstd::arithmetic::div_mod::lemma_small_mod(self.cursor as nat, n as nat);
        }
        while k < n
            invariant
                k <= n,
                n == self.connections.len(),
                n > 0,
                view == self@,
                view.cursor < n,
                i < n,
                i == view.nth(k as int) || k == n,
                forall|j: int| 0 <= j < k ==> !is_free(#[trigger] view.connections[view.nth(j)]),
            decreases n - k,
        {
            if self.connections[i].can_dispatch() {
                assert(view.is_first_free(k as int));
                return Some(i);
            }
            let ghost before = i;
            i = if i + 1 == n {
                0
            } else {
                i + 1
            };
            k = k + 1;
            proof {
                if k < n {
                    lemma_next_in_round(view.cursor as int, k as int - 1, n as int);
                }
            }
        }
        proof {
            assert forall|x: int| 0 <= x < view.connections.len() implies !is_free(
                #[trigger] view.connections[x],
            ) by {
                lemma_round_reaches(view.cursor as int, x, n as int);
                let j = choose|j: int|
                    0 <= j < n && #[trigger] round(view.cursor as int, j, n as int) == x;
                assert(!is_free(view.connections[view.nth(j)]));
            }
        }
        None
    }

    /// Hands command `id` to a connection picked as [`Pool::pick`] does, and moves the cursor
    /// behind that connection, so that the next command begins its round at the next one.
    /// The result names the connection; without one, nothing has changed.
    pub fn submit(&mut self, id: u64, blocking: bool) -> (r: Option<usize>)
        ensures
            final(self)@.connections.len() == old(self)@.connections.len(),
            match r {
                Some(i) => {
                    &&& exists|k: int| old(self)@.is_first_free(k) && i == old(self)@.nth(k)
                    &&& final(self)@.connections == old(self)@.connections.update(
                        i as int,
                        old(self)@.connections[i as int].after_submit(id, blocking),
                    )
                    &&& final(self)@.cursor == (if i + 1 == old(self)@.connections.len() {
                        0
                    } else {
                        i + 1
                    })
                },
                None => {
                    &&& final(self)@ == old(self)@
                    &&& forall|i: int|
                        0 <= i < old(self)@.connections.len() ==> !is_free(
                            #[trigger] old(self)@.connections[i],
                        )
                },
            },
    {
        proof {
            use_type_invariant(&*self);
        }
        match self.pick() {
            Some(i) => {
                let n: usize = self.connections.len();
                let mut connections: Vec<Connection> = Vec::new();
                let ghost before = self.connections@;
                self.cursor = 0;
                std::mem::swap(&mut self.connections, &mut connections);
                let outcome = connections[i].submit(id, blocking);
                assert(connection_views(connections@) =~= connection_views(before).update(
                    i as int,
                    connection_views(before)[i as int].after_submit(id, blocking),
                ));
                self.connections = connections;
                self.cursor = if i + 1 == n {
                    0
                } else {
                    i + 1
                };
                Some(i)
            },
            None => None,
        }
    }

    /// Takes a reply off the connection at index `i`; see [`Connection::on_reply`]. Without
    /// such a connection nothing happens.
    pub fn on_reply(&mut self, i: usize) -> (r: Option<InFlight>)
        ensures
            if i < old(self)@.connections.len() {
                &&& r == old(self)@.connections[i as int].awaited()
                &&& final(self)@ == (PoolView {
                    connections: old(self)@.connections.update(
                        i as int,
                        old(self)@.connections[i as int].after_reply(),
                    ),
                    ..old(self)@
                })
            } else {
                r is None && final(self)@ == old(self)@
            },
    {
        proof {
            use_type_invariant(&*self);
        }
        if i >= self.connections.len() {
            return None;
        }
        let cursor: usize = self.cursor;
        let mut connections: Vec<Connection> = Vec::new();
        let ghost before = self.connections@;
        self.cursor = 0;
        std::mem::swap(&mut self.connections, &mut connections);
        let r = connections[i].on_reply();
        assert(connection_views(connections@) =~= connection_views(before).update(
            i as int,
            connection_views(before)[i as int].after_reply(),
        ));
        self.connections = connections;
        self.cursor = cursor;
        r
    }

    /// Applies an event to the connection at index `i` and returns the commands that it
    /// fails; see [`Connection::on_event`]. Without such a connection nothing happens.
    pub fn on_event(&mut self, i: usize, event: ConnectionEvent) -> (failed: Vec<InFlight>)
        ensures
            if i < old(self)@.connections.len() {
                &&& failed@ == old(self)@.connections[i as int].failed_by(event)
                &&& final(self)@ == (PoolView {
                    connections: old(self)@.connections.update(
                        i as int,
                        old(self)@.connections[i as int].after_event(event),
                    ),
                    ..old(self)@
                })
            } else {
                failed@.len() == 0 && final(self)@ == old(self)@
            },
    {
        proof {
            use_type_invariant(&*self);
        }
        if i >= self.connections.len() {
            return Vec::new();
        }
        let cursor: usize = self.cursor;
        let mut connections: Vec<Connection> = Vec::new();
        let ghost before = self.connections@;
        self.cursor = 0;
        std::mem::swap(&mut self.connections, &mut connections);
        let failed = connections[i].on_event(event);
        assert(connection_views(connections@) =~= connection_views(before).update(
            i as int,
            connection_views(before)[i as int].after_event(event),
        ));
        self.connections = connections;
        self.cursor = cursor;
        failed
    }

    /// Picks the connection on which to interrupt the command that blocks the connection at
    /// index `blocked`: the first other connection that is ready. A blocked connection takes
    /// no further command, so the interruption has to travel on another one.
    pub fn pick_for_unblock(&self, blocked: usize) -> (r: Option<usize>)
        ensures
            match r {
                Some(i) => {
                    &&& i < self@.connections.len()
                    &&& i != blocked
                    &&& self@.connections[i as int].state == ConnectionState::Ready
                    &&& forall|j: int|
                        0 <= j < i && j != blocked ==> (#[trigger] self@.connections[j]).state
                            != ConnectionState::Ready
                },
                None => forall|j: int|
                    0 <= j < self@.connections.len() && j != blocked ==> (
                    #[trigger] self@.connections[j]).state != ConnectionState::Ready,
            },
    {
        let mut i: usize = 0;
        while i < self.connections.len()
            invariant
                i <= self.connections.len(),
                forall|j: int|
                    0 <= j < i && j != blocked ==> (#[trigger] self@.connections[j]).state
                        != ConnectionState::Ready,
            decreases self.connections.len() - i,
        {
            if i != blocked && self.connections[i].state() == ConnectionState::Ready {
                return Some(i);
            }
            i = i + 1;
        }
        None
    }
}

/// Going one step further in the round is going to the next index, and from the last to
/// the first.
proof fn lemma_next_in_round(cursor: int, k: int, n: int)
    requires
        0 <= cursor < n,
        0 <= k,
    ensures
        (cursor + k + 1) % n == (if (cursor + k) % n + 1 == n {
            0
        } else {
            (cursor + k) % n + 1
        }),
{
    assert((cursor + k + 1) % n == (if (cursor + k) % n + 1 == n {
        0
    } else {
        (cursor + k) % n + 1
    })) by (nonlinear_arith)
        requires
            0 <= cursor < n,
            0 <= k,
    ;
}

/// The round reaches every index.
proof fn lemma_round_reaches(cursor: int, x: int, n: int)
    requires
        0 <= cursor < n,
        0 <= x < n,
    ensures
        exists|j: int| 0 <= j < n && #[trigger] round(cursor, j, n) == x,
{
    let j = if x >= cursor {
        x - cursor
    } else {
        x - cursor + n
    };
    assert((cursor + j) % n == x) by (nonlinear_arith)
        requires
            0 <= x < n,
            cursor + j == x || cursor + j == x + n,
    ;
    assert(0 <= j < n && round(cursor, j, n) == x);
}

} // verus!
