use nodemesh::bridge::{
    callback_request, callback_result, forward_inbound, reply_of_route, reply_of_sfu, BridgeInput,
    BridgeState, BridgeStep, CallbackOutcome, InboundAction, SendAction, WsBridgeState,
};
use nodemesh::events::{forward_sfu_event, EventAction};
use nodemesh::message::AmpMessage;
use nodemesh::peer::{PeerManager, SECOND};
use nodemesh::relay::{MediaKind, RelayPacket};
use nodemesh::sfu::{SfuCommand, SfuEvent, SfuHandle};

fn manager() -> PeerManager {
    let mut m = PeerManager::new("cachyos".to_string(), "10.0.0.1".to_string());
    m.connected("mko", "10.0.0.2", 0, 5);
    m
}

fn bridge(sfu_enabled: bool) -> BridgeState {
    BridgeState {
        node_name: "cachyos".to_string(),
        sfu_enabled,
        start_time: SECOND,
        ws_bridge: false,
    }
}

#[test]
fn offers_for_this_node_go_to_its_sfu() {
    let raw = "---\ncommand: sdp-offer\nid: r1\nfrom: browser.cachyos.amp\nto: sfu.cachyos.amp\nroom: demo\nrole: publisher\n---\n{}\n";
    match bridge(true).handle_send(&manager(), raw, None) {
        SendAction::Sfu { msg_id, command } => {
            assert_eq!(msg_id, "r1");
            match command {
                SfuCommand::SdpOffer { request_id, from_addr, to_addr, sdp, room, role } => {
                    assert_eq!(request_id, "r1");
                    assert_eq!(from_addr, "browser.cachyos.amp");
                    assert_eq!(to_addr, "sfu.cachyos.amp");
                    assert_eq!(sdp, "{}\n");
                    assert_eq!(room.as_deref(), Some("demo"));
                    assert_eq!(role.as_deref(), Some("publisher"));
                }
                _ => unreachable!(),
            }
        }
        _ => unreachable!(),
    }
    match bridge(false).handle_send(&manager(), raw, None) {
        SendAction::Answer(reply) => {
            assert_eq!(reply.status, 502);
            assert_eq!(reply.body, "route failed: unknown peer: cachyos");
            assert!(reply.mesh_id.is_none());
        }
        _ => unreachable!(),
    }
}

#[test]
fn messages_go_to_their_peer() {
    let raw = "---\ncommand: sdp-offer\nto: sfu.mko.amp\n---\n";
    match bridge(true).handle_send(&manager(), raw, None) {
        SendAction::Peer { msg_id, route, msg } => {
            assert_eq!(msg_id, "none");
            assert_eq!(route.node, "mko");
            assert_eq!(route.channel, 5);
            assert_eq!(msg.to_wire(), raw);
        }
        _ => unreachable!(),
    }
    match bridge(true).handle_send(&manager(), "junk", None) {
        SendAction::Answer(reply) => {
            assert_eq!(reply.status, 400);
            assert_eq!(reply.body, "invalid AMP message");
        }
        _ => unreachable!(),
    }
}

#[test]
fn replies_tell_what_became_of_a_message() {
    let r = reply_of_sfu("r1".to_string(), Ok(()));
    assert_eq!((r.status, r.mesh_id.as_deref(), r.body.as_str()), (202, Some("r1"), "accepted (sfu)"));
    let r = reply_of_sfu("r1".to_string(), SfuHandle::sent(false));
    assert_eq!((r.status, r.mesh_id, r.body.as_str()), (500, None, "sfu error: SFU task gone"));
    let r = reply_of_route("r1".to_string(), Ok(()));
    assert_eq!((r.status, r.mesh_id.as_deref(), r.body.as_str()), (202, Some("r1"), "accepted"));
    let r = reply_of_route("r1".to_string(), PeerManager::sent("mko", false));
    assert_eq!(
        (r.status, r.mesh_id, r.body.as_str()),
        (502, None, "route failed: send channel closed for mko")
    );
    assert_eq!(SfuHandle::sent(true), Ok(()));
}

#[test]
fn status_of_the_daemon() {
    let mut b = bridge(true);
    let s = b.handle_status(&manager(), 4 * SECOND);
    assert_eq!(s.node, "cachyos");
    assert_eq!(s.uptime_secs, 3);
    assert_eq!(s.peers.len(), 1);
    assert!(s.sfu_enabled);
    assert!(!s.ws_bridge);
    assert!(b.attach());
    assert!(!b.attach());
    assert!(b.handle_status(&manager(), 0).ws_bridge);
    b.detach();
    assert!(!b.ws_bridge);
    assert_eq!(b.handle_status(&manager(), 0).uptime_secs, 0);
}

#[test]
fn web_socket_bridge_forwards_and_routes() {
    let ws = WsBridgeState { node_name: "cachyos".to_string(), sfu_enabled: true };
    let m = manager();
    let ping = AmpMessage::parse("---\ncommand: ping\nx-mesh-peer: liar\n---\n").unwrap();
    match ws.on_input(&m, BridgeInput::Inbound { peer: "testpeer".to_string(), msg: ping }, None) {
        BridgeStep::Write(s) => assert_eq!(s, "---\ncommand: ping\nx-mesh-peer: testpeer\n---\n"),
        _ => unreachable!(),
    }
    let empty = AmpMessage::empty();
    assert!(matches!(
        ws.on_input(&m, BridgeInput::Inbound { peer: "p".to_string(), msg: empty }, None),
        BridgeStep::Continue
    ));
    let raw = "---\ncommand: sdp-offer\nto: sfu.cachyos.amp\n---\n".to_string();
    match ws.on_input(&m, BridgeInput::Text(raw), None) {
        BridgeStep::Sfu(SfuCommand::SdpOffer { request_id, from_addr, .. }) => {
            assert_eq!(request_id, "unknown");
            assert_eq!(from_addr, "unknown");
        }
        _ => unreachable!(),
    }
    match ws.on_input(&m, BridgeInput::Text("---\nto: mko.amp\n---\n".to_string()), None) {
        BridgeStep::Peer { route, .. } => assert_eq!(route.channel, 5),
        _ => unreachable!(),
    }
    match ws.on_input(&m, BridgeInput::Text("---\na: b\n---\n".to_string()), None) {
        BridgeStep::Unroutable(e) => assert_eq!(e, "message has no 'to' address"),
        _ => unreachable!(),
    }
    assert!(matches!(ws.on_input(&m, BridgeInput::Text("junk".to_string()), None), BridgeStep::Invalid));
    assert!(matches!(ws.on_input(&m, BridgeInput::OtherFrame, None), BridgeStep::Continue));
    for input in [
        BridgeInput::InboxClosed,
        BridgeInput::Close,
        BridgeInput::ReadError,
        BridgeInput::StreamEnded,
        BridgeInput::WriteFailed,
    ] {
        assert!(matches!(ws.on_input(&m, input, None), BridgeStep::Stop));
    }
}

#[test]
fn relay_commands_for_this_node_go_to_its_sfu() {
    let ws = WsBridgeState { node_name: "cachyos".to_string(), sfu_enabled: true };
    let m = manager();
    let request = |command: &str| {
        format!("---\ncommand: {command}\nfrom-node: mko\nto: sfu.cachyos.amp\nroom: demo\n---\n")
    };
    match bridge(true).handle_send(&m, &request("relay-subscribe"), None) {
        SendAction::Sfu { msg_id, command: SfuCommand::RelaySubscribe { room, from_node } } => {
            assert_eq!(msg_id, "none");
            assert_eq!(room, "demo");
            assert_eq!(from_node, "mko");
        }
        _ => unreachable!(),
    }
    match ws.on_input(&m, BridgeInput::Text(request("relay-unsubscribe")), None) {
        BridgeStep::Sfu(SfuCommand::RelayUnsubscribe { room, from_node }) => {
            assert_eq!(room, "demo");
            assert_eq!(from_node, "mko");
        }
        _ => unreachable!(),
    }
    let packet = RelayPacket::from_media_data("demo", MediaKind::Video, 96, 1, 2, &[1, 2, 3]);
    match bridge(true).handle_send(&m, &request("relay-data"), Some(packet.clone())) {
        SendAction::Sfu { command: SfuCommand::RelayData { packet }, .. } => {
            assert_eq!(packet.decode_data().unwrap(), vec![1, 2, 3]);
        }
        _ => unreachable!(),
    }
    match ws.on_input(&m, BridgeInput::Text(request("relay-data")), None) {
        BridgeStep::Unroutable(e) => assert_eq!(e, "unknown peer: cachyos"),
        _ => unreachable!(),
    }
    let roomless = "---\ncommand: relay-subscribe\nfrom-node: mko\nto: sfu.cachyos.amp\n---\n";
    match bridge(true).handle_send(&m, roomless, Some(packet)) {
        SendAction::Answer(reply) => {
            assert_eq!(reply.body, "route failed: unknown peer: cachyos");
        }
        _ => unreachable!(),
    }
    let event = SfuEvent::RequestRelay { target_node: "cachyos".to_string(), room: "demo".to_string() };
    match forward_sfu_event("mko", event, String::new()) {
        EventAction::Send { msg, .. } => assert!(matches!(
            bridge(true).handle_send(&m, &msg.to_wire(), None),
            SendAction::Sfu { command: SfuCommand::RelaySubscribe { .. }, .. }
        )),
        _ => unreachable!(),
    }
}

#[test]
fn inbound_messages_are_posted_or_bridged() {
    let msg = AmpMessage::parse("---\nfrom: a.mko.amp\n---\nhi\n").unwrap();
    let req = callback_request("mko", &msg);
    assert_eq!(req.content_type, "text/x-amp");
    assert_eq!(req.from, "a.mko.amp");
    assert_eq!(req.peer, "mko");
    assert_eq!(req.body, "---\nfrom: a.mko.amp\n---\nhi\n");
    match forward_inbound(false, "mko".to_string(), AmpMessage::command(vec![("a", "1".to_string())])) {
        InboundAction::Post(r) => assert_eq!(r.from, "unknown"),
        _ => unreachable!(),
    }
    match forward_inbound(true, "mko".to_string(), msg) {
        InboundAction::Bridge { peer, msg } => {
            assert_eq!(peer, "mko");
            assert_eq!(msg.body, "hi\n");
        }
        _ => unreachable!(),
    }
    assert!(matches!(
        forward_inbound(true, "mko".to_string(), AmpMessage::empty()),
        InboundAction::Ignore
    ));
}

#[test]
fn callback_results() {
    let answered = |code| CallbackOutcome::Answered { code, status: "418 I'm a teapot".to_string() };
    assert_eq!(callback_result(answered(200)), Ok(()));
    assert_eq!(callback_result(answered(299)), Ok(()));
    assert_eq!(callback_result(answered(418)).unwrap_err(), "callback returned 418 I'm a teapot");
    assert!(callback_result(answered(300)).is_err());
    assert!(callback_result(answered(199)).is_err());
    assert_eq!(
        callback_result(CallbackOutcome::Failed("refused".to_string())).unwrap_err(),
        "callback POST failed: refused"
    );
}

#[test]
fn events_of_the_sfu_are_forwarded() {
    let answer = AmpMessage::command(vec![("command", "sdp-answer".to_string())]);
    match forward_sfu_event("cachyos", SfuEvent::SendMessage(answer), String::new()) {
        EventAction::Post(r) => assert_eq!(r.peer, "sfu"),
        _ => unreachable!(),
    }
    let event = SfuEvent::RequestRelay { target_node: "mko".to_string(), room: "demo".to_string() };
    match forward_sfu_event("cachyos", event, String::new()) {
        EventAction::Send { node, msg } => {
            assert_eq!(node, "mko");
            let got = AmpMessage::parse(&msg.to_wire()).unwrap();
            assert_eq!(got.to_addr(), Some("sfu.mko.amp"));
            match SfuHandle::parse_command(&got, None).unwrap() {
                SfuCommand::RelaySubscribe { room, from_node } => {
                    assert_eq!(room, "demo");
                    assert_eq!(from_node, "cachyos");
                }
                _ => unreachable!(),
            }
        }
        _ => unreachable!(),
    }
    let event = SfuEvent::CancelRelay { target_node: "mko".to_string(), room: "demo".to_string() };
    match forward_sfu_event("cachyos", event, String::new()) {
        EventAction::Send { msg, .. } => assert!(matches!(
            SfuHandle::parse_command(&msg, None),
            Some(SfuCommand::RelayUnsubscribe { .. })
        )),
        _ => unreachable!(),
    }
    let packet = RelayPacket::from_media_data("demo", MediaKind::Video, 96, 1, 2, &[1, 2, 3]);
    let event = SfuEvent::RelayData { target_node: "mko".to_string(), packet: packet.clone() };
    match forward_sfu_event("cachyos", event, "{\"a\":1}".to_string()) {
        EventAction::Send { node, msg } => {
            assert_eq!(node, "mko");
            let got = AmpMessage::parse(&msg.to_wire()).unwrap();
            assert_eq!(got.body, "{\"a\":1}\n");
            match SfuHandle::parse_command(&got, Some(packet)) {
                Some(SfuCommand::RelayData { packet }) => {
                    assert_eq!(packet.decode_data().unwrap(), vec![1, 2, 3]);
                }
                _ => unreachable!(),
            }
        }
        _ => unreachable!(),
    }
}
