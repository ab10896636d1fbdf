use nodemesh::bridge::{BridgeState, SendAction};
use nodemesh::harness::{
    judge_offer, meshd_answer, MeshdError, OfferAction, PendingAnswers, MESHD_SOCKET, NODE_NAME,
};
use nodemesh::peer::PeerManager;
use nodemesh::sfu::SfuCommand;

const OFFER: &str = "{\"type\": \"offer\", \"sdp\": \"v=0\"}";

#[test]
fn offer_is_handed_to_the_daemon() {
    let mut pending = PendingAnswers::new();
    match pending.signal_offer(OFFER, "r1".to_string()) {
        OfferAction::Forward { request_id, wire } => {
            assert_eq!(request_id, "r1");
            assert_eq!(
                wire,
                format!(
                    "---\namp: 1\ntype: request\ncommand: sdp-offer\nfrom: browser.cachyos.amp\nto: sfu.cachyos.amp\nid: r1\n---\n{OFFER}\n"
                )
            );
            let bridge = BridgeState {
                node_name: NODE_NAME.to_string(),
                sfu_enabled: true,
                start_time: 0,
                ws_bridge: false,
            };
            let manager = PeerManager::new(NODE_NAME.to_string(), "10.0.0.1".to_string());
            match bridge.handle_send(&manager, &wire, None) {
                SendAction::Sfu { msg_id, command: SfuCommand::SdpOffer { sdp, .. } } => {
                    assert_eq!(msg_id, "r1");
                    assert_eq!(sdp, format!("{OFFER}\n"));
                }
                _ => unreachable!(),
            }
        }
        _ => unreachable!(),
    }
    assert_eq!(pending.signal_poll("r1").status, 202);
    assert_eq!(pending.forwarded("r1".to_string(), Ok("accepted".to_string())).unwrap(), "r1");
    assert_eq!(pending.signal_poll("r1").body, "pending");
}

#[test]
fn what_is_no_offer_is_refused() {
    let mut pending = PendingAnswers::new();
    match pending.signal_offer("{", "r1".to_string()) {
        OfferAction::Answer(reply) => {
            let words = serde_json::from_str::<serde_json::Value>("{").unwrap_err().to_string();
            assert_eq!(reply.status, 400);
            assert_eq!(reply.body, format!("invalid JSON: {words}"));
        }
        _ => unreachable!(),
    }
    for body in ["{\"type\": \"answer\"}", "{\"type\": 1}", "[]", "\"offer\"", "{}"] {
        match pending.signal_offer(body, "r1".to_string()) {
            OfferAction::Answer(reply) => {
                assert_eq!(reply.status, 400);
                assert_eq!(reply.body, "expected type: offer");
            }
            _ => unreachable!(),
        }
    }
    assert_eq!(pending.signal_poll("r1").status, 404);
    assert!(judge_offer(Ok(Some("offer".to_string()))).is_none());
    assert_eq!(judge_offer(Ok(None)).unwrap().body, "expected type: offer");
    assert_eq!(judge_offer(Err("x".to_string())).unwrap().body, "invalid JSON: x");
}

#[test]
fn offer_that_the_daemon_does_not_take() {
    let mut pending = PendingAnswers::new();
    pending.signal_offer(OFFER, "r1".to_string());
    let e = MeshdError::Connect("refused".to_string()).message();
    let reply = pending.forwarded("r1".to_string(), Err(e)).unwrap_err();
    assert_eq!(reply.status, 502);
    assert_eq!(reply.body, "meshd error: connect to /tmp/meshd.sock: refused");
    assert_eq!(pending.signal_poll("r1").status, 404);
    assert_eq!(MESHD_SOCKET, "/tmp/meshd.sock");
    assert_eq!(MeshdError::Handshake("x".to_string()).message(), "handshake: x");
    assert_eq!(MeshdError::Build("x".to_string()).message(), "build request: x");
    assert_eq!(MeshdError::Send("x".to_string()).message(), "send request: x");
    assert_eq!(MeshdError::Read("x".to_string()).message(), "read body: x");
    assert_eq!(meshd_answer("accepted", "202 Accepted"), "accepted (202 Accepted)");
}

#[test]
fn answer_is_given_once() {
    let mut pending = PendingAnswers::new();
    pending.signal_offer(OFFER, "r1".to_string());
    let callback = "---\ncommand: sdp-answer\nreply-to: r1\n---\n\n {\"type\":\"answer\"} \n";
    assert_eq!(pending.mesh_callback(callback), 200);
    let reply = pending.signal_poll("r1");
    assert_eq!(reply.status, 200);
    assert_eq!(reply.body, "{\"type\":\"answer\"}");
    let reply = pending.signal_poll("r1");
    assert_eq!(reply.status, 404);
    assert_eq!(reply.body, "unknown request_id");
}

#[test]
fn callbacks_that_fill_no_slot() {
    let mut pending = PendingAnswers::new();
    pending.signal_offer(OFFER, "r1".to_string());
    assert_eq!(pending.mesh_callback("junk"), 400);
    assert_eq!(pending.mesh_callback("---\ncommand: ping\nreply-to: r1\n---\nx\n"), 200);
    assert_eq!(pending.mesh_callback("---\ncommand: sdp-answer\n---\nx\n"), 400);
    assert_eq!(pending.mesh_callback("---\ncommand: sdp-answer\nreply-to: r2\n---\nx\n"), 200);
    assert_eq!(pending.signal_poll("r1").status, 202);
    assert_eq!(pending.signal_poll("r2").status, 404);
}
