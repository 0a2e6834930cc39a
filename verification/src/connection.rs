//! One connection: its lifecycle and the commands it has in flight.
//!
//! A connection answers commands in the order in which they were sent, so the commands in
//! flight form a queue: a command joins at the back when it is dispatched, and every reply
//! belongs to the command at the front. The queue is bounded; a command that finds it full
//! has to wait until a reply makes room.

use crate::topology::{Server, ServerView};
use std::collections::VecDeque;
use vstd::prelude::*;

verus! {

/// The states of a connection.
#[derive(Clone, Copy, Debug, PartialEq, Eq, Structural)]
pub enum ConnectionState {
    /// No transport. The connection can be asked to connect.
    Disconnected,
    /// The transport is being set up.
    Connecting,
    /// The protocol version is being agreed on, credentials are checked, and subscriptions
    /// and tracking are set up again.
    Handshaking,
    /// Commands are accepted.
    Ready,
    /// A command that blocks the server has been sent; no further command may follow it.
    Blocked,
    /// No new commands are accepted; those in flight may finish.
    Draining,
    /// Shut down for good.
    Closed,
}

/// The versions of the wire protocol.
#[derive(Clone, Copy, Debug, PartialEq, Eq, Structural)]
pub enum RespVersion {
    RESP2,
    RESP3,
}

/// What can happen to a connection.
#[derive(Clone, Copy, Debug, PartialEq, Eq, Structural)]
pub enum ConnectionEvent {
    /// The connection is asked to connect, for the first time or again.
    Connect,
    /// The transport is established.
    TransportUp,
    /// The transport could not be established.
    TransportFailed,
    /// The handshake succeeded, subscriptions included.
    HandshakeDone,
    /// The handshake failed.
    HandshakeFailed,
    /// The blocked command was interrupted or timed out.
    Unblocked,
    /// A graceful shutdown begins.
    Drain,
    /// The time granted to the commands in flight has run out.
    Drained,
    /// The transport failed.
    Failed,
    /// The connection is shut down, on request or because reconnecting was given up.
    Shutdown,
}

/// The state that follows `state` on `event`. Events that make no sense in a state leave it
/// as it is.
pub open spec fn next_state(state: ConnectionState, event: ConnectionEvent) -> ConnectionState {
    match (state, event) {
        (ConnectionState::Closed, _) => ConnectionState::Closed,
        (_, ConnectionEvent::Shutdown) => ConnectionState::Closed,
        (_, ConnectionEvent::Failed) => ConnectionState::Disconnected,
        (ConnectionState::Disconnected, ConnectionEvent::Connect) => ConnectionState::Connecting,
        (ConnectionState::Connecting, ConnectionEvent::TransportUp) => ConnectionState::Handshaking,
        (ConnectionState::Connecting, ConnectionEvent::TransportFailed) => ConnectionState::Disconnected,
        (ConnectionState::Handshaking, ConnectionEvent::HandshakeDone) => ConnectionState::Ready,
        (ConnectionState::Handshaking, ConnectionEvent::HandshakeFailed) => ConnectionState::Disconnected,
        (ConnectionState::Blocked, ConnectionEvent::Unblocked) => ConnectionState::Ready,
        (ConnectionState::Ready, ConnectionEvent::Drain) => ConnectionState::Draining,
        (ConnectionState::Blocked, ConnectionEvent::Drain) => ConnectionState::Draining,
        (ConnectionState::Draining, ConnectionEvent::Drained) => ConnectionState::Disconnected,
        (s, _) => s,
    }
}

/// Whether a connection in this state has lost the commands it had in flight.
pub open spec fn is_down(state: ConnectionState) -> bool {
    state == ConnectionState::Disconnected || state == ConnectionState::Closed
}

/// Computes the state that follows `state` on `event`.
pub fn step_state(state: ConnectionState, event: ConnectionEvent) -> (next: ConnectionState)
    ensures
        next == next_state(state, event),
{
    match (state, event) {
        (ConnectionState::Closed, _) => ConnectionState::Closed,
        (_, ConnectionEvent::Shutdown) => ConnectionState::Closed,
        (_, ConnectionEvent::Failed) => ConnectionState::Disconnected,
        (ConnectionState::Disconnected, ConnectionEvent::Connect) => ConnectionState::Connecting,
        (ConnectionState::Connecting, ConnectionEvent::TransportUp) => ConnectionState::Handshaking,
        (ConnectionState::Connecting, ConnectionEvent::TransportFailed) => ConnectionState::Disconnected,
        (ConnectionState::Handshaking, ConnectionEvent::HandshakeDone) => ConnectionState::Ready,
        (ConnectionState::Handshaking, ConnectionEvent::HandshakeFailed) => ConnectionState::Disconnected,
        (ConnectionState::Blocked, ConnectionEvent::Unblocked) => ConnectionState::Ready,
        (ConnectionState::Ready, ConnectionEvent::Drain) => ConnectionState::Draining,
        (ConnectionState::Blocked, ConnectionEvent::Drain) => ConnectionState::Draining,
        (ConnectionState::Draining, ConnectionEvent::Drained) => ConnectionState::Disconnected,
        (s, _) => s,
    }
}

/// A command in flight.
#[derive(Clone, Copy, Debug, PartialEq, Eq, Structural)]
pub struct InFlight {
    /// The command's number.
    pub id: u64,
    /// Whether the caller has stopped waiting: the reply is still taken off the connection,
    /// and then dropped.
    pub abandoned: bool,
}

/// What became of a command handed to a connection.
#[derive(Clone, Copy, Debug, PartialEq, Eq, Structural)]
pub enum Submission {
    /// The command was sent and awaits its reply.
    Dispatched,
    /// As many commands are in flight as the connection allows: the command has to wait for
    /// a reply to make room.
    Suspended,
    /// The connection takes no commands in its present state.
    NotReady,
}

/// What a [`Connection`] stands for.
pub struct ConnectionView {
    pub server: ServerView,
    pub version: RespVersion,
    pub state: ConnectionState,
    pub queue: Seq<InFlight>,
    pub limit: nat,
}

impl ConnectionView {
    /// What becomes of a command handed to the connection.
    pub open spec fn submission(self) -> Submission {
        if self.state != ConnectionState::Ready {
            Submission::NotReady
        } else if self.queue.len() >= self.limit {
            Submission::Suspended
        } else {
            Submission::Dispatched
        }
    }

    /// The connection after command `id` was handed to it: if it was dispatched, it stands
    /// at the back of the queue, and a blocking command leaves the connection blocked.
    pub open spec fn after_submit(self, id: u64, blocking: bool) -> ConnectionView {
        if self.submission() == Submission::Dispatched {
            ConnectionView {
                state: if blocking {
                    ConnectionState::Blocked
                } else {
                    ConnectionState::Ready
                },
                queue: self.queue.push(InFlight { id, abandoned: false }),
                ..self
            }
        } else {
            self
        }
    }

    /// The command that the next reply belongs to: the one at the front of the queue.
    pub open spec fn awaited(self) -> Option<InFlight> {
        if self.queue.len() > 0 {
            Some(self.queue[0])
        } else {
            None
        }
    }

    /// The connection after a reply arrived: the command at the front has left the queue. A
    /// blocked connection whose queue is empty again is ready, and a draining one is done.
    pub open spec fn after_reply(self) -> ConnectionView {
        if self.queue.len() == 0 {
            self
        } else {
            let rest = self.queue.drop_first();
            ConnectionView {
                state: if rest.len() > 0 {
                    self.state
                } else if self.state == ConnectionState::Blocked {
                    ConnectionState::Ready
                } else if self.state == ConnectionState::Draining {
                    ConnectionState::Disconnected
                } else {
                    self.state
                },
                queue: rest,
                ..self
            }
        }
    }

    /// The connection after an event: in its next state, and without commands in flight
    /// where that state is a disconnected one.
    pub open spec fn after_event(self, event: ConnectionEvent) -> ConnectionView {
        let state = next_state(self.state, event);
        ConnectionView {
            state,
            queue: if is_down(state) {
                Seq::empty()
            } else {
                self.queue
            },
            ..self
        }
    }

    /// The commands that an event fails: all that are in flight when the connection goes
    /// down.
    pub open spec fn failed_by(self, event: ConnectionEvent) -> Seq<InFlight> {
        if is_down(next_state(self.state, event)) {
            self.queue
        } else {
            Seq::empty()
        }
    }

    /// The connection after the caller of command `id` stopped waiting.
    pub open spec fn after_abandon(self, id: u64) -> ConnectionView {
        ConnectionView {
            queue: self.queue.map_values(
                |c: InFlight|
                    if c.id == id {
                        InFlight { id, abandoned: true }
                    } else {
                        c
                    },
            ),
            ..self
        }
    }
}

/// A connection to one server.
#[derive(Debug)]
pub struct Connection {
    server: Server,
    version: RespVersion,
    state: ConnectionState,
    queue: VecDeque<InFlight>,
    limit: usize,
}

impl View for Connection {
    type V = ConnectionView;

    closed spec fn view(&self) -> ConnectionView {
        ConnectionView {
            server: self.server@,
            version: self.version,
            state: self.state,
            queue: self.queue@,
            limit: self.limit as nat,
        }
    }
}

impl Connection {
    #[verifier::type_invariant]
    spec fn within_limit(self) -> bool {
        self.queue@.len() <= self.limit
    }

    /// A connection to `server` that is not connected yet, speaks `version` of the protocol
    /// and lets at most `limit` commands be in flight.
    pub fn new(server: Server, version: RespVersion, limit: usize) -> (c: Self)
        ensures
            c@ == (ConnectionView {
                server: server@,
                version,
                state: ConnectionState::Disconnected,
                queue: Seq::empty(),
                limit: limit as nat,
            }),
    {
        Connection {
            server,
            version,
            state: ConnectionState::Disconnected,
            queue: VecDeque::new(),
            limit,
        }
    }

    /// The server at the other end.
    pub fn server(&self) -> (s: &Server)
        ensures
            s@ == self@.server,
    {
        &self.server
    }

    /// The version of the protocol that the connection speaks.
    pub fn version(&self) -> (v: RespVersion)
        ensures
            v == self@.version,
    {
        self.version
    }

    /// The present state.
    pub fn state(&self) -> (s: ConnectionState)
        ensures
            s == self@.state,
    {
        self.state
    }

    /// The number of commands in flight. It never exceeds the limit.
    pub fn in_flight(&self) -> (n: usize)
        ensures
            n == self@.queue.len(),
            n <= self@.limit,
    {
        proof {
            use_type_invariant(self);
        }
        self.queue.len()
    }

    /// Whether a command handed to the connection now would be dispatched.
    pub fn can_dispatch(&self) -> (r: bool)
        ensures
            r == (self@.submission() == Submission::Dispatched),
    {
        self.state == ConnectionState::Ready && self.queue.len() < self.limit
    }

    /// Hands command `id` to the connection. It is dispatched if the connection is ready and
    /// has room; `blocking` says that the command blocks the server until it is answered.
    pub fn submit(&mut self, id: u64, blocking: bool) -> (r: Submission)
        ensures
            r == old(self)@.submission(),
            final(self)@ == old(self)@.after_submit(id, blocking),
    {
        proof {
            use_type_invariant(&*self);
        }
        if self.state != ConnectionState::Ready {
            return Submission::NotReady;
        }
        if self.queue.len() >= self.limit {
            return Submission::Suspended;
        }
        let mut queue: VecDeque<InFlight> = VecDeque::new();
        std::mem::swap(&mut self.queue, &mut queue);
        queue.push_back(InFlight { id, abandoned: false });
        self.queue = queue;
        if blocking {
            self.state = ConnectionState::Blocked;
        }
        Submission::Dispatched
    }

    /// Takes a reply off the connection. It belongs to the command at the front of the queue,
    /// which is returned; `None` means that nothing was awaited.
    pub fn on_reply(&mut self) -> (r: Option<InFlight>)
        ensures
            r == old(self)@.awaited(),
            final(self)@ == old(self)@.after_reply(),
    {
        proof {
            use_type_invariant(&*self);
        }
        let mut queue: VecDeque<InFlight> = VecDeque::new();
        std::mem::swap(&mut self.queue, &mut queue);
        let front = queue.pop_front();
        proof {
            if front.is_some() {
                assert(queue@ =~= old(self).queue@.drop_first());
            }
        }
        self.queue = queue;
        if front.is_some() && self.queue.len() == 0 {
            if self.state == ConnectionState::Blocked {
                self.state = ConnectionState::Ready;
            } else if self.state == ConnectionState::Draining {
                self.state = ConnectionState::Disconnected;
            }
        }
        front
    }

    /// Applies an event and returns the commands that it fails: when the connection goes
    /// down, every command in flight, in the order in which they were sent.
    pub fn on_event(&mut self, event: ConnectionEvent) -> (failed: Vec<InFlight>)
        ensures
            failed@ == old(self)@.failed_by(event),
            final(self)@ == old(self)@.after_event(event),
    {
        proof {
            use_type_invariant(&*self);
        }
        self.state = step_state(self.state, event);
        let mut failed: Vec<InFlight> = Vec::new();
        if self.state == ConnectionState::Disconnected || self.state == ConnectionState::Closed {
            let mut queue: VecDeque<InFlight> = VecDeque::new();
            std::mem::swap(&mut self.queue, &mut queue);
            let ghost all = queue@;
            while queue.len() > 0
                invariant
                    all == failed@ + queue@,
                decreases queue@.len(),
            {
                match queue.pop_front() {
                    Some(c) => {
                        failed.push(c);
                    },
                    None => {},
                }
                assert(all =~= failed@ + queue@);
            }
            assert(all =~= failed@);
        }
        failed
    }

    /// Records that the caller of command `id` has stopped waiting. The command keeps its
    /// place in the queue, so that its reply is still taken for it.
    pub fn abandon(&mut self, id: u64)
        ensures
            final(self)@ == old(self)@.after_abandon(id),
    {
        proof {
            use_type_invariant(&*self);
        }
        let ghost before = self.queue@;
        let ghost mark = |c: InFlight|
            if c.id == id {
                InFlight { id, abandoned: true }
            } else {
                c
            };
        let mut queue: VecDeque<InFlight> = VecDeque::new();
        std::mem::swap(&mut self.queue, &mut queue);
        let n: usize = queue.len();
        let mut i: usize = 0;
        while i < n
            invariant
                i <= n,
                n == before.len(),
                forall|c: InFlight|
                    #[trigger] mark(c) == if c.id == id {
                        InFlight { id, abandoned: true }
                    } else {
                        c
                    },
                queue@ == before.skip(i as int) + before.take(i as int).map_values(mark),
            decreases n - i,
        {
            assert(queue@[0] == before.skip(i as int)[0]);
            match queue.pop_front() {
                Some(c) => {
                    let d = if c.id == id {
                        InFlight { id, abandoned: true }
                    } else {
                        c
                    };
                    queue.push_back(d);
                    assert(d == mark(before[i as int]));
                },
                None => {},
            }
            assert(queue@ =~= before.skip(i + 1) + before.take(i + 1).map_values(mark));
            i = i + 1;
        }
        assert(queue@ =~= before.map_values(mark));
        self.queue = queue;
    }
}

/// One step in the life of a connection's queue.
pub enum QueueStep {
    /// Command `id` is handed to the connection.
    Submit { id: u64, blocking: bool },
    /// A reply arrives.
    Reply,
}

/// What a run of steps has led to.
pub struct QueueTrace {
    /// The connection after the steps.
    pub connection: ConnectionView,
    /// The commands that were dispatched, in order.
    pub dispatched: Seq<u64>,
    /// The commands whose replies arrived, in order.
    pub answered: Seq<u64>,
}

/// The numbers of the commands in a queue.
pub open spec fn ids(queue: Seq<InFlight>) -> Seq<u64> {
    queue.map_values(|c: InFlight| c.id)
}

/// The trace of `steps` taken one after the other, starting at `start`.
pub open spec fn run(start: ConnectionView, steps: Seq<QueueStep>) -> QueueTrace
    decreases steps.len(),
{
    if steps.len() == 0 {
        QueueTrace { connection: start, dispatched: Seq::empty(), answered: Seq::empty() }
    } else {
        let before = run(start, steps.drop_last());
        match steps.last() {
            QueueStep::Submit { id, blocking } => QueueTrace {
                connection: before.connection.after_submit(id, blocking),
                dispatched: if before.connection.submission() == Submission::Dispatched {
                    before.dispatched.push(id)
                } else {
                    before.dispatched
                },
                answered: before.answered,
            },
            QueueStep::Reply => QueueTrace {
                connection: before.connection.after_reply(),
                dispatched: before.dispatched,
                answered: match before.connection.awaited() {
                    Some(c) => before.answered.push(c.id),
                    None => before.answered,
                },
            },
        }
    }
}

/// Replies arrive in the order of dispatch: whatever steps are taken, the commands answered
/// so far, followed by those still in flight, are the commands that were in flight at the
/// start followed by those dispatched since.
pub proof fn lemma_replies_in_dispatch_order(start: ConnectionView, steps: Seq<QueueStep>)
    ensures
        run(start, steps).answered + ids(run(start, steps).connection.queue) == ids(start.queue)
            + run(start, steps).dispatched,
    decreases steps.len(),
{
    if steps.len() == 0 {
        assert(Seq::<u64>::empty() + ids(start.queue) =~= ids(start.queue) + Seq::<u64>::empty());
    } else {
        lemma_replies_in_dispatch_order(start, steps.drop_last());
        let before = run(start, steps.drop_last());
        let after = run(start, steps);
        let q = before.connection.queue;
        match steps.last() {
            QueueStep::Submit { id, blocking } => {
                if before.connection.submission() == Submission::Dispatched {
                    assert(ids(after.connection.queue) =~= ids(q).push(id));
                    assert(after.answered + ids(q).push(id) =~= (before.answered + ids(q)).push(
                        id,
                    ));
                    assert(ids(start.queue) + before.dispatched.push(id) =~= (ids(start.queue)
                        + before.dispatched).push(id));
                }
            },
            QueueStep::Reply => {
                if q.len() > 0 {
                    assert(ids(after.connection.queue) =~= ids(q).drop_first());
                    assert(before.answered.push(q[0].id) + ids(q).drop_first() =~= before.answered
                        + ids(q));
                }
            },
        }
    }
}

/// On a connection that starts with nothing in flight, of two commands that were dispatched
/// the earlier one is answered first: when the later one has its reply, the earlier one had
/// its reply before, at the place at which it was dispatched.
pub proof fn lemma_earlier_command_answered_first(
    start: ConnectionView,
    steps: Seq<QueueStep>,
    a: int,
    b: int,
)
    requires
        start.queue.len() == 0,
        0 <= a < b < run(start, steps).answered.len(),
    ensures
        b < run(start, steps).dispatched.len(),
        run(start, steps).answered[a] == run(start, steps).dispatched[a],
        run(start, steps).answered[b] == run(start, steps).dispatched[b],
{
    lemma_replies_in_dispatch_order(start, steps);
    let t = run(start, steps);
    assert(ids(start.queue) =~= Seq::<u64>::empty());
    assert(ids(start.queue) + t.dispatched =~= t.dispatched);
    assert((t.answered + ids(t.connection.queue))[a] == t.answered[a]);
    assert((t.answered + ids(t.connection.queue))[b] == t.answered[b]);
}

/// Whatever steps are taken, no more commands are in flight than the limit allows.
pub proof fn lemma_in_flight_bounded(start: ConnectionView, steps: Seq<QueueStep>)
    requires
        start.queue.len() <= start.limit,
    ensures
        run(start, steps).connection.queue.len() <= start.limit,
        run(start, steps).connection.limit == start.limit,
    decreases steps.len(),
{
    if steps.len() > 0 {
        lemma_in_flight_bounded(start, steps.drop_last());
    }
}

/// A ready connection with as many commands in flight as it allows suspends the next one and
/// dispatches nothing; as soon as one reply has arrived, the next command is dispatched.
pub proof fn lemma_full_connection_suspends(c: ConnectionView, id: u64)
    requires
        c.state == ConnectionState::Ready,
        c.limit > 0,
        c.queue.len() == c.limit,
    ensures
        c.submission() == Submission::Suspended,
        c.after_submit(id, false) == c,
        c.after_reply().submission() == Submission::Dispatched,
        c.after_reply().after_submit(id, false).queue.last().id == id,
{
}

} // verus!
