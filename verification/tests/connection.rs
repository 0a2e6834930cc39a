use fred::connection::{
    step_state, Connection, ConnectionEvent, ConnectionState, InFlight, RespVersion, Submission,
};
use fred::connection::ConnectionEvent as E;
use fred::connection::ConnectionState as S;
use fred::pool::Pool;
use fred::topology::Server;

fn ready(limit: usize) -> Connection {
    let mut c = Connection::new(Server::new("h", 1), RespVersion::RESP3, limit);
    c.on_event(ConnectionEvent::Connect);
    c.on_event(ConnectionEvent::TransportUp);
    c.on_event(ConnectionEvent::HandshakeDone);
    assert_eq!(c.state(), ConnectionState::Ready);
    c
}

const STATES: [ConnectionState; 7] = [
    ConnectionState::Disconnected,
    ConnectionState::Connecting,
    ConnectionState::Handshaking,
    ConnectionState::Ready,
    ConnectionState::Blocked,
    ConnectionState::Draining,
    ConnectionState::Closed,
];

const EVENTS: [ConnectionEvent; 10] = [
    ConnectionEvent::Connect,
    ConnectionEvent::TransportUp,
    ConnectionEvent::TransportFailed,
    ConnectionEvent::HandshakeDone,
    ConnectionEvent::HandshakeFailed,
    ConnectionEvent::Unblocked,
    ConnectionEvent::Drain,
    ConnectionEvent::Drained,
    ConnectionEvent::Failed,
    ConnectionEvent::Shutdown,
];

#[test]
fn lifecycle_follows_the_happy_path() {
    assert_eq!(step_state(S::Disconnected, E::Connect), S::Connecting);
    assert_eq!(step_state(S::Connecting, E::TransportUp), S::Handshaking);
    assert_eq!(step_state(S::Handshaking, E::HandshakeDone), S::Ready);
    assert_eq!(step_state(S::Ready, E::Drain), S::Draining);
    assert_eq!(step_state(S::Draining, E::Drained), S::Disconnected);
    assert_eq!(step_state(S::Blocked, E::Unblocked), S::Ready);
    assert_eq!(step_state(S::Blocked, E::Drain), S::Draining);
}

#[test]
fn lifecycle_failures_lead_back_to_disconnected() {
    assert_eq!(step_state(S::Connecting, E::TransportFailed), S::Disconnected);
    assert_eq!(step_state(S::Handshaking, E::HandshakeFailed), S::Disconnected);
    for state in STATES {
        if state != S::Closed {
            assert_eq!(step_state(state, E::Failed), S::Disconnected);
        }
    }
}

#[test]
fn lifecycle_closed_is_final_and_reached_by_shutdown() {
    for state in STATES {
        assert_eq!(step_state(state, ConnectionEvent::Shutdown), ConnectionState::Closed);
    }
    for event in EVENTS {
        assert_eq!(step_state(ConnectionState::Closed, event), ConnectionState::Closed);
    }
}

#[test]
fn lifecycle_ready_only_after_handshake_or_unblock() {
    for state in STATES {
        for event in EVENTS {
            if step_state(state, event) == ConnectionState::Ready && state != ConnectionState::Ready {
                let by_handshake = state == ConnectionState::Handshaking && event == ConnectionEvent::HandshakeDone;
                let by_unblock = state == ConnectionState::Blocked && event == ConnectionEvent::Unblocked;
                assert!(by_handshake || by_unblock, "{:?} {:?}", state, event);
            }
        }
    }
}

#[test]
fn lifecycle_ignores_events_out_of_place() {
    assert_eq!(step_state(S::Disconnected, E::HandshakeDone), S::Disconnected);
    assert_eq!(step_state(S::Disconnected, E::TransportUp), S::Disconnected);
    assert_eq!(step_state(S::Connecting, E::HandshakeDone), S::Connecting);
    assert_eq!(step_state(S::Ready, E::Connect), S::Ready);
    assert_eq!(step_state(S::Ready, E::Unblocked), S::Ready);
    assert_eq!(step_state(S::Ready, E::Drained), S::Ready);
    assert_eq!(step_state(S::Draining, E::Drain), S::Draining);
}

#[test]
fn new_connection_takes_no_commands() {
    let mut c = Connection::new(Server::new("h", 1), RespVersion::RESP2, 4);
    assert_eq!(c.state(), ConnectionState::Disconnected);
    assert_eq!(c.server(), &Server::new("h", 1));
    assert_eq!(c.version(), RespVersion::RESP2);
    assert_eq!(c.in_flight(), 0);
    assert!(!c.can_dispatch());
    assert_eq!(c.submit(1, false), Submission::NotReady);
    assert_eq!(c.in_flight(), 0);
    assert_eq!(c.on_reply(), None);
}

#[test]
fn replies_come_in_the_order_of_dispatch() {
    let mut c = ready(8);
    for id in [10, 11, 12] {
        assert_eq!(c.submit(id, false), Submission::Dispatched);
    }
    assert_eq!(c.on_reply().map(|f| f.id), Some(10));
    assert_eq!(c.submit(13, false), Submission::Dispatched);
    assert_eq!(c.on_reply().map(|f| f.id), Some(11));
    assert_eq!(c.on_reply().map(|f| f.id), Some(12));
    assert_eq!(c.on_reply().map(|f| f.id), Some(13));
    assert_eq!(c.on_reply(), None);
    assert_eq!(c.state(), ConnectionState::Ready);
}

#[test]
fn the_command_beyond_the_limit_waits_for_a_reply() {
    let mut c = ready(3);
    for id in 0..3 {
        assert!(c.can_dispatch());
        assert_eq!(c.submit(id, false), Submission::Dispatched);
    }
    assert_eq!(c.in_flight(), 3);
    assert!(!c.can_dispatch());
    assert_eq!(c.submit(3, false), Submission::Suspended);
    assert_eq!(c.submit(3, false), Submission::Suspended);
    assert_eq!(c.in_flight(), 3);
    assert_eq!(c.on_reply(), Some(InFlight { id: 0, abandoned: false }));
    assert_eq!(c.submit(3, false), Submission::Dispatched);
    assert_eq!(c.submit(4, false), Submission::Suspended);
    assert_eq!(c.in_flight(), 3);
    assert_eq!(c.on_reply().map(|f| f.id), Some(1));
    assert_eq!(c.on_reply().map(|f| f.id), Some(2));
    assert_eq!(c.on_reply().map(|f| f.id), Some(3));
    assert_eq!(c.on_reply(), None);
}

#[test]
fn a_limit_of_zero_suspends_everything() {
    let mut c = ready(0);
    assert_eq!(c.submit(1, false), Submission::Suspended);
    assert_eq!(c.in_flight(), 0);
}

#[test]
fn a_blocking_command_blocks_until_it_is_answered() {
    let mut c = ready(8);
    assert_eq!(c.submit(1, false), Submission::Dispatched);
    assert_eq!(c.submit(2, true), Submission::Dispatched);
    assert_eq!(c.state(), ConnectionState::Blocked);
    assert_eq!(c.submit(3, false), Submission::NotReady);
    assert_eq!(c.on_reply().map(|f| f.id), Some(1));
    assert_eq!(c.state(), ConnectionState::Blocked);
    assert_eq!(c.on_reply().map(|f| f.id), Some(2));
    assert_eq!(c.state(), ConnectionState::Ready);
    assert_eq!(c.submit(3, false), Submission::Dispatched);
}

#[test]
fn a_blocked_connection_can_be_unblocked() {
    let mut c = ready(8);
    assert_eq!(c.submit(1, true), Submission::Dispatched);
    assert!(c.on_event(ConnectionEvent::Unblocked).is_empty());
    assert_eq!(c.state(), ConnectionState::Ready);
    assert_eq!(c.submit(2, false), Submission::Dispatched);
    assert_eq!(c.on_reply().map(|f| f.id), Some(1));
    assert_eq!(c.on_reply().map(|f| f.id), Some(2));
}

#[test]
fn an_abandoned_command_still_takes_its_reply() {
    let mut c = ready(8);
    for id in [1, 2, 3] {
        c.submit(id, false);
    }
    c.abandon(2);
    c.abandon(99);
    assert_eq!(c.in_flight(), 3);
    assert_eq!(c.on_reply(), Some(InFlight { id: 1, abandoned: false }));
    assert_eq!(c.on_reply(), Some(InFlight { id: 2, abandoned: true }));
    assert_eq!(c.on_reply(), Some(InFlight { id: 3, abandoned: false }));
}

#[test]
fn a_failure_fails_everything_in_flight() {
    let mut c = ready(8);
    for id in [1, 2, 3] {
        c.submit(id, false);
    }
    c.abandon(2);
    let failed = c.on_event(ConnectionEvent::Failed);
    assert_eq!(
        failed,
        vec![
            InFlight { id: 1, abandoned: false },
            InFlight { id: 2, abandoned: true },
            InFlight { id: 3, abandoned: false }
        ]
    );
    assert_eq!(c.state(), ConnectionState::Disconnected);
    assert_eq!(c.in_flight(), 0);
    assert_eq!(c.on_reply(), None);
    assert_eq!(c.submit(4, false), Submission::NotReady);
    assert!(c.on_event(ConnectionEvent::Connect).is_empty());
    assert_eq!(c.state(), ConnectionState::Connecting);
}

#[test]
fn draining_takes_no_commands_and_ends_when_empty() {
    let mut c = ready(8);
    c.submit(1, false);
    c.submit(2, false);
    assert!(c.on_event(ConnectionEvent::Drain).is_empty());
    assert_eq!(c.state(), ConnectionState::Draining);
    assert_eq!(c.submit(3, false), Submission::NotReady);
    assert_eq!(c.on_reply().map(|f| f.id), Some(1));
    assert_eq!(c.state(), ConnectionState::Draining);
    assert_eq!(c.on_reply().map(|f| f.id), Some(2));
    assert_eq!(c.state(), ConnectionState::Disconnected);
}

#[test]
fn draining_that_runs_out_of_time_fails_the_rest() {
    let mut c = ready(8);
    c.submit(1, false);
    c.on_event(ConnectionEvent::Drain);
    let failed = c.on_event(ConnectionEvent::Drained);
    assert_eq!(failed, vec![InFlight { id: 1, abandoned: false }]);
    assert_eq!(c.state(), ConnectionState::Disconnected);
}

#[test]
fn shutdown_closes_for_good() {
    let mut c = ready(8);
    c.submit(1, false);
    let failed = c.on_event(ConnectionEvent::Shutdown);
    assert_eq!(failed.len(), 1);
    assert_eq!(c.state(), ConnectionState::Closed);
    for event in EVENTS {
        assert!(c.on_event(event).is_empty());
        assert_eq!(c.state(), ConnectionState::Closed);
    }
}

#[test]
fn pool_goes_round_its_connections() {
    let mut pool = Pool::new(vec![ready(2), ready(2), ready(2)]);
    assert_eq!(pool.len(), 3);
    assert_eq!(pool.pick(), Some(0));
    assert_eq!(pool.submit(1, false), Some(0));
    assert_eq!(pool.pick(), Some(1));
    assert_eq!(pool.submit(2, false), Some(1));
    assert_eq!(pool.submit(3, false), Some(2));
    assert_eq!(pool.submit(4, false), Some(0));
    assert_eq!(pool.get(0).unwrap().in_flight(), 2);
    assert_eq!(pool.submit(5, false), Some(1));
    assert_eq!(pool.submit(6, false), Some(2));
    assert_eq!(pool.pick(), None);
    assert_eq!(pool.submit(7, false), None);
    assert_eq!(pool.on_reply(1).map(|f| f.id), Some(2));
    assert_eq!(pool.pick(), Some(1));
    assert_eq!(pool.submit(7, false), Some(1));
    assert_eq!(pool.on_reply(1).map(|f| f.id), Some(5));
    assert_eq!(pool.on_reply(1).map(|f| f.id), Some(7));
    assert_eq!(pool.on_reply(1), None);
}

#[test]
fn pool_passes_over_connections_that_are_down() {
    let mut pool = Pool::new(vec![ready(2), Connection::new(Server::new("h", 1), RespVersion::RESP2, 2), ready(2)]);
    assert_eq!(pool.submit(1, false), Some(0));
    assert_eq!(pool.submit(2, false), Some(2));
    assert_eq!(pool.submit(3, false), Some(0));
    let failed = pool.on_event(0, ConnectionEvent::Failed);
    assert_eq!(failed.iter().map(|f| f.id).collect::<Vec<u64>>(), vec![1, 3]);
    assert_eq!(pool.get(0).unwrap().state(), ConnectionState::Disconnected);
    assert_eq!(pool.submit(4, false), Some(2));
    assert_eq!(pool.submit(5, false), None);
    let mut empty = Pool::new(vec![]);
    assert_eq!(empty.pick(), None);
    assert_eq!(empty.len(), 0);
    assert!(empty.get(0).is_none());
    assert_eq!(empty.on_reply(0), None);
    assert!(empty.on_event(3, ConnectionEvent::Failed).is_empty());
    assert!(pool.get(3).is_none());
    assert_eq!(pool.on_reply(3), None);
}

#[test]
fn unblocking_travels_on_another_connection() {
    let mut pool = Pool::new(vec![ready(2), ready(2)]);
    assert_eq!(pool.submit(1, true), Some(0));
    assert_eq!(pool.get(0).unwrap().state(), ConnectionState::Blocked);
    assert_eq!(pool.pick_for_unblock(0), Some(1));
    assert_eq!(pool.pick_for_unblock(1), None);
    let lonely = Pool::new(vec![ready(2)]);
    assert_eq!(lonely.pick_for_unblock(0), None);
    assert_eq!(lonely.pick_for_unblock(5), Some(0));
}
