use fred::discovery::{read_master, read_slot_table, Discovery, DiscoveryStep, ResolveStep};
use fred::error::RedisErrorKind;
use fred::topology::{Server, SlotMap, SlotRange};
use fred::value::RedisValue;

fn range(start: u16, end: u16, host: &str, port: u16) -> SlotRange {
    SlotRange { start, end, primary: Server::new(host, port), replicas: Vec::new() }
}

fn three() -> SlotMap {
    SlotMap::from_ranges(vec![
        range(0, 5460, "a", 7000),
        SlotRange {
            start: 5461,
            end: 10922,
            primary: Server::new("b", 7001),
            replicas: vec![Server::new("r", 7004)],
        },
        range(10923, 16383, "c", 7002),
    ])
    .unwrap()
}

fn node(host: &str, port: i64) -> RedisValue {
    RedisValue::Array(vec![RedisValue::from(host), RedisValue::Integer(port), RedisValue::from("id")])
}

fn row(start: i64, end: i64, nodes: Vec<RedisValue>) -> RedisValue {
    let mut items = vec![RedisValue::Integer(start), RedisValue::Integer(end)];
    items.extend(nodes);
    RedisValue::Array(items)
}

#[test]
fn server_identity() {
    assert_eq!(Server::new("a", 1), Server::new("a", 1));
    assert_ne!(Server::new("a", 1), Server::new("a", 2));
    assert_ne!(Server::new("a", 1), Server::new("b", 1));
    assert_ne!(Server::new("a", 1), Server::new_named("a", 1, "main"));
    assert_eq!(Server::new_named("a", 1, "main"), Server::new_named("a", 1, "main"));
    assert_ne!(Server::new_named("a", 1, "main"), Server::new_named("a", 1, "other"));
    let s = Server::new_named("h", 9, "n");
    assert_eq!(s.clone(), s);
    assert_eq!(s.host, "h");
    assert_eq!(s.port, 9);
    assert_eq!(s.name, Some("n".to_string()));
}

#[test]
fn slot_map_gives_every_slot_one_owner() {
    let map = three();
    assert_eq!(map.get_server(0), Some(&Server::new("a", 7000)));
    assert_eq!(map.get_server(5460), Some(&Server::new("a", 7000)));
    assert_eq!(map.get_server(5461), Some(&Server::new("b", 7001)));
    assert_eq!(map.get_server(10922), Some(&Server::new("b", 7001)));
    assert_eq!(map.get_server(10923), Some(&Server::new("c", 7002)));
    assert_eq!(map.get_server(16383), Some(&Server::new("c", 7002)));
    assert_eq!(map.get_server(16384), None);
    assert_eq!(map.get_server(u16::MAX), None);
    for slot in 0..16384u16 {
        assert!(map.get_server(slot).is_some());
    }
    assert_eq!(map.ranges().len(), 3);
}

#[test]
fn slot_map_refuses_what_is_no_partition() {
    let kind = |ranges: Vec<SlotRange>| SlotMap::from_ranges(ranges).unwrap_err().kind();
    assert_eq!(kind(vec![]), RedisErrorKind::Protocol);
    assert_eq!(kind(vec![range(1, 16383, "a", 1)]), RedisErrorKind::Protocol);
    assert_eq!(kind(vec![range(0, 16382, "a", 1)]), RedisErrorKind::Protocol);
    assert_eq!(kind(vec![range(0, 16384, "a", 1)]), RedisErrorKind::Protocol);
    assert_eq!(kind(vec![range(0, 100, "a", 1), range(102, 16383, "b", 1)]), RedisErrorKind::Protocol);
    assert_eq!(kind(vec![range(0, 100, "a", 1), range(100, 16383, "b", 1)]), RedisErrorKind::Protocol);
    assert_eq!(kind(vec![range(101, 16383, "b", 1), range(0, 100, "a", 1)]), RedisErrorKind::Protocol);
    assert_eq!(
        kind(vec![range(0, 65535, "a", 1), range(0, 16383, "b", 1)]),
        RedisErrorKind::Protocol
    );
    assert_eq!(
        kind(vec![range(0, 10, "a", 1), range(11, 5, "b", 1), range(6, 16383, "c", 1)]),
        RedisErrorKind::Protocol
    );
    assert!(SlotMap::from_ranges(vec![range(0, 16383, "a", 1)]).is_ok());
    assert!(SlotMap::from_ranges(vec![range(0, 0, "a", 1), range(1, 16383, "b", 1)]).is_ok());
}

#[test]
fn slot_map_knows_primaries_and_replicas() {
    let map = three();
    assert!(map.knows(&Server::new("a", 7000)));
    assert!(map.knows(&Server::new("c", 7002)));
    assert!(map.knows(&Server::new("r", 7004)));
    assert!(!map.knows(&Server::new("a", 7001)));
    assert!(!map.knows(&Server::new("z", 7000)));
}

#[test]
fn with_owner_moves_the_range_of_the_slot() {
    let map = three();
    let moved = map.with_owner(6000, Server::new("n", 7009));
    assert_eq!(moved.get_server(6000), Some(&Server::new("n", 7009)));
    assert_eq!(moved.get_server(5461), Some(&Server::new("n", 7009)));
    assert_eq!(moved.get_server(10922), Some(&Server::new("n", 7009)));
    assert_eq!(moved.get_server(5460), Some(&Server::new("a", 7000)));
    assert_eq!(moved.get_server(10923), Some(&Server::new("c", 7002)));
    assert_eq!(moved.ranges()[1].replicas, vec![Server::new("r", 7004)]);
    assert_eq!(moved.ranges().len(), 3);
    assert_eq!(map.get_server(6000), Some(&Server::new("b", 7001)));
    let same = map.with_owner(16384, Server::new("n", 7009));
    assert_eq!(same.get_server(6000), Some(&Server::new("b", 7001)));
    assert!(!same.knows(&Server::new("n", 7009)));
    let clone = moved.clone();
    assert_eq!(clone.get_server(6000), Some(&Server::new("n", 7009)));
}

#[test]
fn slot_table_is_read_in_any_order() {
    let table = RedisValue::Array(vec![
        row(10923, 16383, vec![node("c", 7002)]),
        row(0, 5460, vec![node("a", 7000), node("ra", 7003)]),
        row(5461, 10922, vec![node("b", 7001)]),
    ]);
    let map = read_slot_table(&table).unwrap();
    assert_eq!(map.ranges().len(), 3);
    assert_eq!(map.ranges()[0].start, 0);
    assert_eq!(map.ranges()[0].replicas, vec![Server::new("ra", 7003)]);
    assert_eq!(map.get_server(5460), Some(&Server::new("a", 7000)));
    assert_eq!(map.get_server(5461), Some(&Server::new("b", 7001)));
    assert_eq!(map.get_server(16383), Some(&Server::new("c", 7002)));
}

#[test]
fn slot_table_refuses_malformed_answers() {
    let kind = |v: RedisValue| read_slot_table(&v).unwrap_err().kind();
    assert_eq!(kind(RedisValue::Null), RedisErrorKind::Protocol);
    assert_eq!(kind(RedisValue::Array(vec![])), RedisErrorKind::Protocol);
    assert_eq!(kind(RedisValue::Array(vec![RedisValue::Null])), RedisErrorKind::Protocol);
    assert_eq!(kind(RedisValue::Array(vec![row(0, 16383, vec![])])), RedisErrorKind::Protocol);
    assert_eq!(kind(RedisValue::Array(vec![row(0, 16382, vec![node("a", 1)])])), RedisErrorKind::Protocol);
    assert_eq!(kind(RedisValue::Array(vec![row(-1, 16383, vec![node("a", 1)])])), RedisErrorKind::Protocol);
    assert_eq!(kind(RedisValue::Array(vec![row(0, 16383, vec![node("a", 65536)])])), RedisErrorKind::Protocol);
    assert_eq!(kind(RedisValue::Array(vec![row(0, 16383, vec![node("a", -1)])])), RedisErrorKind::Protocol);
    let bad_host = RedisValue::Array(vec![RedisValue::from(&b"\xff"[..]), RedisValue::Integer(1)]);
    assert_eq!(kind(RedisValue::Array(vec![row(0, 16383, vec![bad_host])])), RedisErrorKind::Protocol);
    let bad_replica = RedisValue::Array(vec![RedisValue::from("h")]);
    assert_eq!(
        kind(RedisValue::Array(vec![row(0, 16383, vec![node("a", 1), bad_replica])])),
        RedisErrorKind::Protocol
    );
    let text_slot = RedisValue::Array(vec![RedisValue::from("0"), RedisValue::Integer(16383), node("a", 1)]);
    assert_eq!(kind(RedisValue::Array(vec![text_slot])), RedisErrorKind::Protocol);
    assert!(read_slot_table(&RedisValue::Array(vec![row(0, 16383, vec![node("a", 65535)])])).is_ok());
}

#[test]
fn discovery_tries_every_node_once_and_in_order() {
    let mut discovery = Discovery::new(vec![Server::new("a", 1), Server::new("b", 2)]);
    assert!(matches!(discovery.next(), DiscoveryStep::Ask(s) if s == Server::new("a", 1)));
    let garbage = RedisValue::from("nope");
    assert!(matches!(discovery.on_answer(Some(&garbage)), DiscoveryStep::Ask(s) if s == Server::new("b", 2)));
    assert!(matches!(discovery.on_answer(None), DiscoveryStep::Failed));
    assert!(matches!(discovery.next(), DiscoveryStep::Failed));
    let mut none = Discovery::new(vec![]);
    assert!(matches!(none.next(), DiscoveryStep::Failed));
}

#[test]
fn discovery_installs_the_first_good_table() {
    let mut discovery = Discovery::new(vec![Server::new("a", 1), Server::new("b", 2), Server::new("c", 3)]);
    assert!(matches!(discovery.next(), DiscoveryStep::Ask(_)));
    assert!(matches!(discovery.on_answer(None), DiscoveryStep::Ask(s) if s == Server::new("b", 2)));
    let table = RedisValue::Array(vec![row(0, 16383, vec![node("x", 9)])]);
    match discovery.on_answer(Some(&table)) {
        DiscoveryStep::Install(map) => assert_eq!(map.get_server(1), Some(&Server::new("x", 9))),
        other => panic!("expected a slot map, got {:?}", other),
    }
    assert!(matches!(discovery.next(), DiscoveryStep::Ask(s) if s == Server::new("c", 3)));
}

#[test]
fn the_master_of_a_sentinel_group_is_read_from_host_and_port() {
    let answer = RedisValue::Array(vec![RedisValue::from("10.0.0.5"), RedisValue::from("6380")]);
    assert_eq!(read_master(&answer, "main"), Some(Server::new_named("10.0.0.5", 6380, "main")));
    let numeric = RedisValue::Array(vec![RedisValue::from(&b"h"[..]), RedisValue::Integer(6381)]);
    assert_eq!(read_master(&numeric, "g"), Some(Server::new_named("h", 6381, "g")));
    for bad in [
        RedisValue::Null,
        RedisValue::Array(vec![]),
        RedisValue::Array(vec![RedisValue::from("h")]),
        RedisValue::Array(vec![RedisValue::from("h"), RedisValue::from("x")]),
        RedisValue::Array(vec![RedisValue::from("h"), RedisValue::from("65536")]),
        RedisValue::Array(vec![RedisValue::from("h"), RedisValue::Integer(-1)]),
        RedisValue::Array(vec![RedisValue::from("h"), RedisValue::Null]),
        RedisValue::Array(vec![RedisValue::Integer(1), RedisValue::Integer(1)]),
        RedisValue::Array(vec![RedisValue::from(&b"\xff"[..]), RedisValue::Integer(1)]),
        RedisValue::Array(vec![RedisValue::from("h"), RedisValue::Integer(1), RedisValue::Null]),
    ] {
        assert_eq!(read_master(&bad, "main"), None, "{:?}", bad);
    }
}

#[test]
fn sentinels_are_asked_in_turn_for_the_master() {
    let mut search = Discovery::new(vec![Server::new("s1", 26379), Server::new("s2", 26379)]);
    assert!(matches!(search.on_master_answer(None, "main"), ResolveStep::Ask(s) if s == Server::new("s1", 26379)));
    assert!(matches!(
        search.on_master_answer(Some(&RedisValue::Null), "main"),
        ResolveStep::Ask(s) if s == Server::new("s2", 26379)
    ));
    let answer = RedisValue::Array(vec![RedisValue::from("m"), RedisValue::from("6379")]);
    assert!(matches!(
        search.on_master_answer(Some(&answer), "main"),
        ResolveStep::Resolved(s) if s == Server::new_named("m", 6379, "main")
    ));
    assert!(matches!(search.on_master_answer(None, "main"), ResolveStep::Failed));
}
