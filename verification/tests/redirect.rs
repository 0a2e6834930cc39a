use fred::redirect::{parse_redirect, RedirectKind};
use fred::topology::Server;

#[test]
fn redirect_moved_and_ask() {
    let moved = parse_redirect(b"MOVED 3999 127.0.0.1:6381").unwrap();
    assert_eq!(moved.kind, RedirectKind::Moved);
    assert_eq!(moved.slot, 3999);
    assert_eq!(moved.server, Server::new("127.0.0.1", 6381));
    let ask = parse_redirect(b"ASK 16383 redis-7.example.com:30001").unwrap();
    assert_eq!(ask.kind, RedirectKind::Ask);
    assert_eq!(ask.slot, 16383);
    assert_eq!(ask.server, Server::new("redis-7.example.com", 30001));
    let v6 = parse_redirect(b"MOVED 0 ::1:6379").unwrap();
    assert_eq!(v6.slot, 0);
    assert_eq!(v6.server, Server::new("::1", 6379));
    let plus = parse_redirect(b"MOVED +12 h:+1").unwrap();
    assert_eq!((plus.slot, plus.server.port), (12, 1));
    let utf8 = parse_redirect("MOVED 1 hôte:1".as_bytes()).unwrap();
    assert_eq!(utf8.server.host, "hôte");
}

#[test]
fn redirect_refuses_everything_else() {
    for payload in [
        &b""[..],
        b"MOVED",
        b"MOVED 3999",
        b"MOVED 3999 ",
        b"MOVED  3999 127.0.0.1:6381",
        b"MOVED 3999 127.0.0.1:6381 ",
        b" MOVED 3999 127.0.0.1:6381",
        b"MOVED 3999 127.0.0.1:6381 extra",
        b"moved 3999 127.0.0.1:6381",
        b"MOVE 3999 127.0.0.1:6381",
        b"ERR 3999 127.0.0.1:6381",
        b"MOVED 16384 127.0.0.1:6381",
        b"MOVED -1 127.0.0.1:6381",
        b"MOVED x 127.0.0.1:6381",
        b"MOVED  127.0.0.1:6381",
        b"MOVED 3999 127.0.0.1",
        b"MOVED 3999 127.0.0.1:",
        b"MOVED 3999 :6381",
        b"MOVED 3999 127.0.0.1:65536",
        b"MOVED 3999 127.0.0.1:port",
        b"MOVED 3999 \xff:6381",
        b"ERR unknown command",
        b"CLUSTERDOWN The cluster is down",
    ] {
        assert!(parse_redirect(payload).is_none(), "{:?}", String::from_utf8_lossy(payload));
    }
}
