use nodemesh::config::{
    default_listen, default_log_level, default_port, default_socket, resolve_peers, LogConfig,
    PeerConfig,
};
use nodemesh::connection::{
    connection_step, ConnectionInput, ConnectionStep, KEEPALIVE_INTERVAL, READ_TIMEOUT,
};
use nodemesh::link::{read_hello, InboundPhase};
use nodemesh::message::AmpMessage;
use nodemesh::metrics::Metrics;
use nodemesh::peer::{PeerManager, SECOND};
use nodemesh::strmap::StrMap;

fn manager() -> PeerManager {
    PeerManager::new("mko".to_string(), "10.0.0.1".to_string())
}

#[test]
fn hello_names_the_node() {
    let m = manager();
    let hello = m.hello();
    assert_eq!(
        hello.to_wire(),
        "---\namp: 1\ntype: event\nfrom: mko.amp\ncommand: hello\nargs: {\"wg_ip\":\"10.0.0.1\"}\n---\n"
    );
    assert_eq!(read_hello(&hello.to_wire()).as_deref(), Some("mko"));
    assert_eq!(hello.args().unwrap()["wg_ip"], "10.0.0.1");
    assert!(read_hello("---\ncommand: ping\nfrom: mko.amp\n---\n").is_none());
    assert!(read_hello("---\ncommand: hello\n---\n").is_none());
    assert!(read_hello("---\ncommand: hello\nfrom: mko\n---\n").is_none());
    assert!(read_hello("junk").is_none());
}

#[test]
fn sending_needs_a_connection() {
    let mut m = manager();
    assert_eq!(m.send_to("gc").unwrap_err(), "unknown peer: gc");
    m.connected("gc", "10.0.0.2", 5 * SECOND, 7);
    assert_eq!(m.send_to("gc"), Ok(7));
    assert!(m.has_outbound("gc"));
    m.disconnected("gc");
    assert_eq!(m.send_to("gc").unwrap_err(), "peer gc not connected");
    assert!(!m.has_outbound("gc"));
    m.disconnected("nobody");
    assert_eq!(m.status(5 * SECOND).len(), 1);
    assert_eq!(PeerManager::sent("gc", true), Ok(()));
    assert_eq!(PeerManager::sent("gc", false).unwrap_err(), "send channel closed for gc");
}

#[test]
fn messages_are_routed_by_address() {
    let mut m = manager();
    m.connected("gc", "10.0.0.2", 0, 7);
    let to = |addr: &'static str| AmpMessage::command(vec![("to", addr.to_string())]);
    let route = m.route(&to("agent.markweb.gc.amp")).unwrap();
    assert_eq!(route.node, "gc");
    assert_eq!(route.channel, 7);
    assert_eq!(m.route(&to("gc.local")).unwrap_err(), "invalid address: gc.local");
    assert_eq!(m.route(&to("mmc.amp")).unwrap_err(), "unknown peer: mmc");
    assert_eq!(m.route(&AmpMessage::empty()).unwrap_err(), "message has no 'to' address");
}

#[test]
fn status_tells_when_a_peer_was_seen() {
    let mut m = manager();
    m.connected("gc", "10.0.0.2", 2 * SECOND, 7);
    let status = m.status(5 * SECOND + SECOND / 2);
    assert_eq!(status[0].name, "gc");
    assert_eq!(status[0].wg_ip, "10.0.0.2");
    assert!(status[0].connected);
    assert_eq!(status[0].last_seen_secs, Some(3));
    m.seen("gc", 6 * SECOND);
    assert_eq!(m.status(5 * SECOND)[0].last_seen_secs, Some(0));
    m.seen("nobody", 6 * SECOND);
    assert_eq!(m.status(0).len(), 1);
}

#[test]
fn inbound_peer_can_be_sent_to() {
    let mut m = manager();
    let mut conn = m.handle_inbound("10.0.0.9");
    let ping = "---\ncommand: ping\n---\n".to_string();
    assert!(matches!(
        conn.on_input(&mut m, ConnectionInput::Text(ping.clone()), 0, 3),
        ConnectionStep::Continue
    ));
    assert!(matches!(
        conn.on_input(&mut m, ConnectionInput::ReadError, 0, 3),
        ConnectionStep::Continue
    ));
    assert!(matches!(conn.phase, InboundPhase::AwaitHello));
    let hello = "---\ncommand: hello\nfrom: fakepeer.amp\n---\n".to_string();
    assert!(matches!(
        conn.on_input(&mut m, ConnectionInput::Text(hello), 9 * SECOND, 3),
        ConnectionStep::Continue
    ));
    assert!(matches!(conn.phase, InboundPhase::Both { .. }));
    assert_eq!(m.send_to("fakepeer"), Ok(3));
    let status = m.status(9 * SECOND);
    assert_eq!(status[0].wg_ip, "10.0.0.9");
    assert!(status[0].connected);
    match conn.on_input(&mut m, ConnectionInput::Text(ping), 9 * SECOND, 4) {
        ConnectionStep::Deliver(msg) => assert_eq!(msg.command_name(), Some("ping")),
        _ => unreachable!(),
    }
    match conn.on_input(&mut m, ConnectionInput::KeepaliveDue, 9 * SECOND, 4) {
        ConnectionStep::Write(s) => assert_eq!(s, "---\n---\n"),
        _ => unreachable!(),
    }
    assert!(matches!(
        conn.on_input(&mut m, ConnectionInput::Close, 9 * SECOND, 4),
        ConnectionStep::Stop
    ));
    assert!(!m.status(9 * SECOND)[0].connected);
    assert_eq!(m.send_to("fakepeer").unwrap_err(), "peer fakepeer not connected");
    assert!(matches!(
        conn.on_input(&mut m, ConnectionInput::KeepaliveDue, 9 * SECOND, 4),
        ConnectionStep::Stop
    ));
}

#[test]
fn connection_closed_before_hello_leaves_no_peer() {
    let mut m = manager();
    let mut conn = m.handle_inbound("10.0.0.9");
    assert!(matches!(
        conn.on_input(&mut m, ConnectionInput::StreamEnded, 0, 3),
        ConnectionStep::Stop
    ));
    assert!(m.status(0).is_empty());
}

#[test]
fn inbound_beside_outbound_only_reads() {
    let mut m = manager();
    m.connected("gc", "10.0.0.2", SECOND, 7);
    let mut conn = m.handle_inbound("10.0.0.2");
    let hello = "---\ncommand: hello\nfrom: gc.amp\n---\n".to_string();
    conn.on_input(&mut m, ConnectionInput::Text(hello), 4 * SECOND, 8);
    assert!(matches!(conn.phase, InboundPhase::ReadOnly { .. }));
    assert_eq!(m.send_to("gc"), Ok(7));
    assert_eq!(m.status(4 * SECOND)[0].last_seen_secs, Some(0));
    assert!(matches!(
        conn.on_input(&mut m, ConnectionInput::KeepaliveDue, 4 * SECOND, 8),
        ConnectionStep::Continue
    ));
    assert!(matches!(
        conn.on_input(&mut m, ConnectionInput::ReadTimeout, 4 * SECOND, 8),
        ConnectionStep::Stop
    ));
    assert_eq!(m.send_to("gc"), Ok(7));
}

#[test]
fn outbound_that_takes_over_keeps_its_channel() {
    let mut m = manager();
    let mut conn = m.handle_inbound("10.0.0.2");
    let hello = "---\ncommand: hello\nfrom: gc.amp\n---\n".to_string();
    conn.on_input(&mut m, ConnectionInput::Text(hello), 0, 1);
    assert_eq!(m.send_to("gc"), Ok(1));
    m.connected("gc", "10.0.0.2", SECOND, 2);
    conn.on_input(&mut m, ConnectionInput::Close, SECOND, 9);
    assert_eq!(m.send_to("gc"), Ok(2));
}

#[test]
fn outbound_connections_follow_the_configuration() {
    let mut m = manager();
    let mut configs: StrMap<PeerConfig> = StrMap::new();
    configs.insert("gc".to_string(), PeerConfig { wg_ip: "10.0.0.2".to_string(), port: 9800 });
    configs.insert("mmc".to_string(), PeerConfig { wg_ip: "10.0.0.3".to_string(), port: 1 });
    let resolved = resolve_peers(&configs);
    assert_eq!(resolved.len(), 2);
    assert_eq!(resolved.get("mmc").unwrap().port, 1);
    let mut conns = m.connect_to_peers(&resolved);
    assert_eq!(conns.len(), 2);
    assert_eq!(conns[0].url(), "ws://10.0.0.2:9800/mesh");
    assert_eq!(conns[1].url(), "ws://10.0.0.3:1/mesh");
    let waits: Vec<u64> = (0..8).map(|_| conns[0].next_wait()).collect();
    assert_eq!(waits, vec![1, 2, 4, 8, 16, 30, 30, 30]);
    let hello = conns[0].connected(&mut m, SECOND, 11);
    assert_eq!(hello.command_name(), Some("hello"));
    assert_eq!(m.send_to("gc"), Ok(11));
    assert_eq!(conns[0].next_wait(), 1);
    conns[0].disconnected(&mut m);
    assert_eq!(m.send_to("gc").unwrap_err(), "peer gc not connected");
}

#[test]
fn connection_steps() {
    let step = |input| connection_step(input);
    assert!(matches!(step(ConnectionInput::Text("---\n---\n".to_string())), ConnectionStep::Continue));
    assert!(matches!(step(ConnectionInput::Text("junk".to_string())), ConnectionStep::Continue));
    assert!(matches!(step(ConnectionInput::OtherFrame), ConnectionStep::Continue));
    match step(ConnectionInput::Text("---\na: 1\n---\nx\n".to_string())) {
        ConnectionStep::Deliver(m) => assert_eq!(m.body, "x\n"),
        _ => unreachable!(),
    }
    match step(ConnectionInput::Text("---\n---\nx\n".to_string())) {
        ConnectionStep::Deliver(m) => assert_eq!(m.body, "x\n"),
        _ => unreachable!(),
    }
    match step(ConnectionInput::Outgoing(AmpMessage::command(vec![("a", "1".to_string())]))) {
        ConnectionStep::Write(s) => assert_eq!(s, "---\na: 1\n---\n"),
        _ => unreachable!(),
    }
    for input in [
        ConnectionInput::Close,
        ConnectionInput::ReadError,
        ConnectionInput::StreamEnded,
        ConnectionInput::ReadTimeout,
        ConnectionInput::WriteFailed,
        ConnectionInput::InboxClosed,
    ] {
        assert!(matches!(step(input), ConnectionStep::Stop));
    }
    assert_eq!(READ_TIMEOUT, 45);
    assert_eq!(KEEPALIVE_INTERVAL, 15);
}

#[test]
fn defaults_of_the_configuration() {
    assert_eq!(default_listen(), "0.0.0.0:9800");
    assert_eq!(default_socket(), "/run/meshd/meshd.sock");
    assert_eq!(default_port(), 9800);
    assert_eq!(default_log_level(), "info");
    assert_eq!(LogConfig::default().level, "info");
}

#[test]
fn metrics_count() {
    let mut m = Metrics::new();
    m.inc_sent();
    m.inc_sent();
    m.inc_received();
    m.inc_dropped();
    let s = m.snapshot();
    assert_eq!((s.sent, s.received, s.dropped), (2, 1, 1));
    m.messages_sent = u64::MAX;
    m.inc_sent();
    assert_eq!(m.snapshot().sent, 0);
}
