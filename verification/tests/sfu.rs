use nodemesh::engine::{HostAddr, HostIp};
use nodemesh::fanout::{clock_rate, compute_timeout, SfuState};
use nodemesh::media::ForwardingMode;
use nodemesh::message::AmpMessage;
use nodemesh::relay::{InboundRelays, MediaKind, OutboundRelays, RelayPacket};
use nodemesh::room::{Role, RoomRegistry};
use nodemesh::session::{
    resolve_candidate_addr, DrainStep, Drained, EventOutcome, KeyframeRequest, MediaData, MidMap,
    OfferError, OfferResult, RtcEvent, RtcOutput, Session, SessionEvent, Transmit,
};
use nodemesh::sfu::{SfuCommand, SfuEvent, SfuHandle};
use nodemesh::unit::CommandOutcome;
use std::time::{Duration, Instant};
use str0m::change::SdpOffer;
use str0m::media::Direction;
use str0m::{Candidate, Input, Output, Rtc};

const LOCALHOST: HostIp = HostIp::V4(0x7F00_0001);

fn local_addr() -> HostAddr {
    HostAddr { ip: LOCALHOST, port: 9801 }
}

fn make_client_offer() -> (Rtc, String) {
    let mut client = Rtc::new(Instant::now());
    client.add_local_candidate(Candidate::host("127.0.0.1:5000".parse().unwrap(), "udp").unwrap());
    let mut change = client.sdp_api();
    change.add_media(str0m::media::MediaKind::Audio, Direction::SendRecv, None, None, None);
    change.add_media(str0m::media::MediaKind::Video, Direction::SendRecv, None, None, None);
    let (offer, _pending) = change.apply().unwrap();
    let offer_json = serde_json::to_string(&offer).unwrap();
    (client, offer_json)
}

fn offer_command(id: &str, room: Option<&str>, role: Option<&str>) -> SfuCommand {
    SfuCommand::SdpOffer {
        request_id: id.to_string(),
        from_addr: "browser.cachyos.amp".to_string(),
        to_addr: "sfu.cachyos.amp".to_string(),
        sdp: make_client_offer().1,
        room: room.map(|s| s.to_string()),
        role: role.map(|s| s.to_string()),
    }
}

/// Handles an offer, with the engine's answer in between.
fn handle_sdp_offer(
    request_id: &str,
    sdp_json: &str,
    local_addr: HostAddr,
    default_ip: HostIp,
    room: Option<String>,
    role: Option<Role>,
) -> Result<OfferResult<Rtc>, String> {
    let (mut pending, offer) = Session::handle_sdp_offer(
        request_id,
        "browser.cachyos.amp",
        "sfu.cachyos.amp",
        sdp_json,
        local_addr,
        default_ip,
        room,
        role,
    )?;
    let answer = pending.rtc.sdp_api().accept_offer(offer).map_err(|e| e.to_string());
    pending.answered(answer)
}

/// Lets the SFU handle a command, with the engine's answer in between.
fn command(sfu: &mut SfuState<Rtc>, command: SfuCommand) -> CommandOutcome {
    match sfu.on_command(command, local_addr(), LOCALHOST) {
        CommandOutcome::Ask { mut pending, offer } => {
            let answer = pending.rtc.sdp_api().accept_offer(offer).map_err(|e| e.to_string());
            sfu.on_answer(pending, answer)
        }
        outcome => outcome,
    }
}

fn session(mids: MidMap, room: Option<&str>) -> Session<u8> {
    Session {
        id: "s".to_string(),
        from_addr: "browser.cachyos.amp".to_string(),
        rtc: 0,
        room: room.map(|s| s.to_string()),
        role: None,
        mid_by_kind: mids,
        alive: true,
    }
}

fn mids(audio: Option<&str>, video: Option<&str>) -> MidMap {
    MidMap { audio: audio.map(|s| s.to_string()), video: video.map(|s| s.to_string()) }
}

fn media(mid: &str) -> MediaData<u8> {
    MediaData {
        mid: mid.to_string(),
        pt: 111,
        time: 0x1_0000_0005,
        data: vec![1, 2, 3, 4],
        frame: 9,
    }
}

#[test]
fn is_sfu_command_detects_sdp_offer() {
    let msg = AmpMessage::parse(
        "---\ncommand: sdp-offer\nfrom: browser.cachyos.amp\nto: sfu.cachyos.amp\n---\n",
    )
    .unwrap();
    assert!(SfuHandle::is_sfu_command(&msg));
}

#[test]
fn is_sfu_command_ignores_non_sfu() {
    let msg = AmpMessage::parse("---\ncommand: ping\nfrom: a.amp\nto: b.amp\n---\n").unwrap();
    assert!(!SfuHandle::is_sfu_command(&msg));
}

#[test]
fn is_sfu_command_ignores_no_command() {
    let msg = AmpMessage::parse("---\nfrom: a.amp\nto: b.amp\n---\n").unwrap();
    assert!(!SfuHandle::is_sfu_command(&msg));
}

#[test]
fn is_sfu_command_ignores_empty() {
    let msg = AmpMessage::empty();
    assert!(!SfuHandle::is_sfu_command(&msg));
}

#[test]
fn commands_are_read_from_messages() {
    let offer = AmpMessage::parse("---\ncommand: sdp-offer\n---\nbody\n").unwrap();
    match SfuHandle::parse_command(&offer, None).unwrap() {
        SfuCommand::SdpOffer { request_id, from_addr, to_addr, sdp, room, role } => {
            assert_eq!(request_id, "unknown");
            assert_eq!(from_addr, "unknown");
            assert_eq!(to_addr, "unknown");
            assert_eq!(sdp, "body\n");
            assert!(room.is_none() && role.is_none());
        }
        _ => unreachable!(),
    }
    let sub = AmpMessage::parse("---\ncommand: relay-subscribe\nroom: demo\nfrom: sfu.mko.amp\n---\n")
        .unwrap();
    match SfuHandle::parse_command(&sub, None).unwrap() {
        SfuCommand::RelaySubscribe { room, from_node } => {
            assert_eq!(room, "demo");
            assert_eq!(from_node, "mko");
        }
        _ => unreachable!(),
    }
    for raw in [
        "---\ncommand: relay-subscribe\nfrom: sfu.mko.amp\n---\n",
        "---\ncommand: relay-subscribe\nroom: demo\n---\n",
        "---\ncommand: relay-unsubscribe\nroom: demo\nfrom: mko\n---\n",
        "---\ncommand: relay-data\n---\nnot json\n",
        "---\ncommand: ping\n---\n",
        "---\n---\n",
    ] {
        assert!(SfuHandle::parse_command(&AmpMessage::parse(raw).unwrap(), None).is_none());
    }
}

#[test]
fn relay_packet_roundtrip() {
    let packet = RelayPacket::from_media_data(
        "test-room",
        MediaKind::Audio,
        111,
        48000,
        1_700_000_000_000,
        &[0x80, 0x6f, 0x00, 0x01],
    );

    let mut object = serde_json::Map::new();
    object.insert("room".to_string(), packet.room.clone().into());
    object.insert("kind".to_string(), packet.kind.clone().into());
    object.insert("pt".to_string(), packet.pt.into());
    object.insert("time".to_string(), packet.time.into());
    object.insert("wallclock_ms".to_string(), packet.wallclock_ms.into());
    object.insert("data".to_string(), packet.data.clone().into());
    let json = serde_json::to_string(&serde_json::Value::Object(object)).unwrap();
    let value: serde_json::Value = serde_json::from_str(&json).unwrap();
    let parsed = RelayPacket {
        room: value["room"].as_str().unwrap().to_string(),
        kind: value["kind"].as_str().unwrap().to_string(),
        pt: value["pt"].as_u64().unwrap() as u8,
        time: value["time"].as_u64().unwrap() as u32,
        wallclock_ms: value["wallclock_ms"].as_u64().unwrap(),
        data: value["data"].as_str().unwrap().to_string(),
    };

    assert_eq!(parsed.room, "test-room");
    assert_eq!(parsed.kind, "audio");
    assert_eq!(parsed.pt, 111);
    assert_eq!(parsed.time, 48000);
    assert_eq!(parsed.decode_data().unwrap(), &[0x80, 0x6f, 0x00, 0x01]);
}

#[test]
fn packets_are_base64() {
    let packet = RelayPacket::from_media_data("r", MediaKind::Video, 96, 1, 2, b"hello");
    assert_eq!(packet.data, "aGVsbG8=");
    assert_eq!(packet.kind, "video");
    assert_eq!(packet.media_kind(), Some(MediaKind::Video));
    let mut bad = packet.clone();
    bad.data = "aGVsbG8".to_string();
    assert!(bad.decode_data().is_none());
    bad.kind = "smell".to_string();
    assert!(bad.media_kind().is_none());
}

#[test]
fn outbound_relays_subscribe_unsubscribe() {
    let mut relays = OutboundRelays::new();
    relays.subscribe("demo", "nodeB");
    relays.subscribe("demo", "nodeC");

    assert_eq!(relays.subscribers("demo").unwrap().len(), 2);

    relays.unsubscribe("demo", "nodeB");
    assert_eq!(relays.subscribers("demo").unwrap().len(), 1);

    relays.unsubscribe("demo", "nodeC");
    assert!(relays.subscribers("demo").is_none());
}

#[test]
fn inbound_relays_register_remove() {
    let mut relays = InboundRelays::new();
    relays.register("demo", "nodeA");

    assert_eq!(relays.source_for("demo"), Some("nodeA"));

    relays.remove("demo");
    assert!(relays.source_for("demo").is_none());
}

#[test]
fn join_creates_room() {
    let mut reg = RoomRegistry::new();
    reg.join("test", 0, Role::Publisher);
    assert!(reg.rooms.contains_key("test"));
    assert_eq!(reg.rooms.get("test").unwrap().publisher, Some(0));
}

#[test]
fn join_publisher_and_subscribers() {
    let mut reg = RoomRegistry::new();
    reg.join("test", 0, Role::Publisher);
    reg.join("test", 1, Role::Subscriber);
    reg.join("test", 2, Role::Subscriber);
    assert_eq!(reg.rooms.get("test").unwrap().publisher, Some(0));
    assert_eq!(reg.rooms.get("test").unwrap().subscribers, vec![1, 2]);
}

#[test]
fn remove_publisher_keeps_room() {
    let mut reg = RoomRegistry::new();
    reg.join("test", 0, Role::Publisher);
    reg.join("test", 1, Role::Subscriber);
    reg.remove_session(0);
    // Room still exists (has subscriber), publisher gone, subscriber index adjusted
    assert!(reg.rooms.contains_key("test"));
    assert_eq!(reg.rooms.get("test").unwrap().publisher, None);
    assert_eq!(reg.rooms.get("test").unwrap().subscribers, vec![0]); // 1 -> 0
}

#[test]
fn remove_last_destroys_room() {
    let mut reg = RoomRegistry::new();
    reg.join("test", 0, Role::Publisher);
    reg.remove_session(0);
    assert!(!reg.rooms.contains_key("test"));
}

#[test]
fn remove_subscriber_adjusts_indices() {
    let mut reg = RoomRegistry::new();
    reg.join("test", 0, Role::Publisher);
    reg.join("test", 1, Role::Subscriber);
    reg.join("test", 2, Role::Subscriber);
    reg.join("test", 3, Role::Subscriber);

    // Remove subscriber at index 1
    reg.remove_session(1);
    assert_eq!(reg.rooms.get("test").unwrap().publisher, Some(0));
    assert_eq!(reg.rooms.get("test").unwrap().subscribers, vec![1, 2]); // 2->1, 3->2
}

#[test]
fn find_publisher_room() {
    let mut reg = RoomRegistry::new();
    reg.join("room-a", 0, Role::Publisher);
    reg.join("room-b", 1, Role::Publisher);

    assert_eq!(reg.find_publisher_room(0).unwrap().name, "room-a");
    assert_eq!(reg.find_publisher_room(1).unwrap().name, "room-b");
    assert!(reg.find_publisher_room(2).is_none());
}

#[test]
fn roles_have_names() {
    assert_eq!(Role::parse("publisher"), Some(Role::Publisher));
    assert_eq!(Role::parse("subscriber"), Some(Role::Subscriber));
    assert_eq!(Role::parse("Publisher"), None);
    assert_ne!(ForwardingMode::Loopback, ForwardingMode::SfuFanOut);
}

#[test]
fn newest_session_leaves_rooms_as_they_were() {
    let mut reg = RoomRegistry::new();
    reg.join("a", 0, Role::Publisher);
    reg.join("a", 1, Role::Subscriber);
    reg.join("b", 2, Role::Subscriber);
    reg.remove_session(2);
    assert!(!reg.rooms.contains_key("b"));
    assert_eq!(reg.rooms.get("a").unwrap().publisher, Some(0));
    assert_eq!(reg.rooms.get("a").unwrap().subscribers, vec![1]);
}

#[test]
fn handle_sdp_offer_creates_session_and_answer() {
    let (_client, offer_json) = make_client_offer();

    let result = handle_sdp_offer(
        "req-001",
        &offer_json,
        local_addr(),
        LOCALHOST,
        None,
        None,
    )
    .expect("handle_sdp_offer should succeed");

    // Session is alive
    assert!(result.session.is_alive());
    assert_eq!(result.session.id, "req-001");
    assert_eq!(result.session.from_addr, "browser.cachyos.amp");

    // Answer message has correct headers
    let msg = &result.answer_msg;
    assert_eq!(msg.command_name(), Some("sdp-answer"));
    assert_eq!(msg.message_type(), Some("response"));
    assert_eq!(msg.from_addr(), Some("sfu.cachyos.amp"));
    assert_eq!(msg.to_addr(), Some("browser.cachyos.amp"));
    assert_eq!(msg.get("reply-to"), Some("req-001"));

    // Body is valid JSON (SDP answer)
    assert!(!msg.body.is_empty());
    let answer: serde_json::Value =
        serde_json::from_str(&msg.body).expect("answer body should be valid JSON");
    assert!(answer.is_object());

    // The answer tells of the one address that the host is reached by
    assert_eq!(answer["type"], "answer");
    let sdp = answer["sdp"].as_str().unwrap();
    assert!(sdp.contains("127.0.0.1 9801 typ host"));
}

#[test]
fn handle_sdp_offer_with_room() {
    let (_client, offer_json) = make_client_offer();

    let result = handle_sdp_offer(
        "req-room-001",
        &offer_json,
        local_addr(),
        LOCALHOST,
        Some("test-room".to_string()),
        Some(Role::Publisher),
    )
    .expect("handle_sdp_offer should succeed");

    assert_eq!(result.session.room, Some("test-room".to_string()));
    assert_eq!(result.session.role, Some(Role::Publisher));
}

#[test]
fn handle_sdp_offer_rejects_invalid_json() {
    let result = handle_sdp_offer(
        "req-002",
        "not valid json",
        local_addr(),
        LOCALHOST,
        None,
        None,
    );
    assert!(result.is_err());
    let words = serde_json::from_str::<SdpOffer>("not valid json").unwrap_err().to_string();
    assert_eq!(result.err().unwrap(), format!("invalid SDP offer JSON: {words}"));
}

#[test]
fn session_drains_outputs_after_offer() {
    let (_client, offer_json) = make_client_offer();

    let mut result = handle_sdp_offer(
        "req-003",
        &offer_json,
        local_addr(),
        LOCALHOST,
        None,
        None,
    )
    .unwrap();

    let start = Instant::now();
    let now: u64 = 1_000;
    let mut drained: Drained<u8, u8> = Drained::new();
    loop {
        let output = match result.session.rtc.poll_output() {
            Ok(Output::Timeout(deadline)) => {
                let nanos = deadline.saturating_duration_since(start).as_nanos() as u64;
                RtcOutput::Timeout(if deadline <= start { now } else { now + nanos })
            }
            Ok(Output::Transmit(t)) => {
                RtcOutput::Transmit(Transmit { dest: local_addr(), data: t.contents.to_vec() })
            }
            Ok(Output::Event(_)) => RtcOutput::Event(RtcEvent::Other),
            Err(_) => RtcOutput::Error,
        };
        match result.session.on_output(&mut drained, output, now) {
            DrainStep::Wake => {
                if result.session.rtc.handle_input(Input::Timeout(start)).is_err() {
                    result.session.wake_failed();
                }
            }
            DrainStep::Done => break,
            _ => {}
        }
    }

    // Should have a timeout (session waiting for ICE)
    assert!(drained.next_timeout.is_some());
    // Session should still be alive
    assert!(result.session.is_alive());

    // Transmits, if any, should target the client's candidate address
    for t in &drained.transmits {
        assert!(!t.data.is_empty());
    }
}

#[test]
fn address_to_be_reached_by() {
    let any = HostAddr { ip: HostIp::V4(0), port: 9801 };
    assert_eq!(resolve_candidate_addr(any, LOCALHOST), local_addr());
    assert_eq!(resolve_candidate_addr(local_addr(), HostIp::V4(1)), local_addr());
    let any6 = HostAddr { ip: HostIp::V6(0), port: 7 };
    assert_eq!(resolve_candidate_addr(any6, HostIp::V6(1)), HostAddr { ip: HostIp::V6(1), port: 7 });
    let (_client, offer_json) = make_client_offer();
    let offer = |ip: HostIp| {
        let addr = HostAddr { ip, port: 9801 };
        let default_ip = HostIp::V4(0);
        handle_sdp_offer("r", &offer_json, addr, default_ip, None, None)
    };
    assert_eq!(
        offer(HostIp::V4(0)).err().unwrap(),
        "invalid candidate: ICE bad candidate: invalid ip 0.0.0.0"
    );
    for n in [0xA9FE_0001u32, 0xFFFF_FFFF, 0xE000_0001] {
        assert!(offer(HostIp::V4(n)).err().unwrap().starts_with("invalid candidate: "));
    }
    assert!(offer(HostIp::V6(0xFFu128 << 120)).err().unwrap().starts_with("invalid candidate: "));
    let v6 = offer(HostIp::V6(1)).unwrap();
    assert!(v6.answer_msg.body.contains("::1 9801 typ host"));
    assert!(offer(HostIp::V4(0xA9FD_FFFF)).is_ok());
}

#[test]
fn offers_that_the_engine_does_not_accept() {
    let offer = "{\"type\":\"offer\",\"sdp\":\"v=0\\r\\no=- 1 2 IN IP4 0.0.0.0\\r\\ns=-\\r\\nt=0 0\\r\\n\"}";
    let result = handle_sdp_offer("r", offer, local_addr(), LOCALHOST, None, None);
    assert!(result.err().unwrap().starts_with("accept_offer failed: "));
    let e = OfferError::Answer("x".to_string());
    assert_eq!(e.message(), "serialize answer: x");
    let refused = Session::<u8>::conclude_offer("r", "a", "b", Err(e), None, None);
    assert_eq!(refused.err().unwrap(), "serialize answer: x");
    let done = Session::conclude_offer("r", "a", "b", Ok((5u8, "{}".to_string())), None, None).unwrap();
    assert_eq!(done.session.rtc, 5);
    assert_eq!(
        done.answer_msg.to_wire(),
        "---\namp: 1\ntype: response\ncommand: sdp-answer\nfrom: b\nto: a\nreply-to: r\n---\n{}\n"
    );
}

#[test]
fn session_ends_with_its_engine() {
    let (_client, offer_json) = make_client_offer();
    let mut result =
        handle_sdp_offer("r", &offer_json, local_addr(), LOCALHOST, None, None).unwrap();
    assert!(result.session.rtc.accepts(&Input::Timeout(Instant::now())));
    result.session.rtc.disconnect();
    assert!(!result.session.is_alive());
    let later = Instant::now() + Duration::from_secs(1);
    let outcome = result.session.rtc.handle_input(Input::Timeout(later)).map_err(|e| e.to_string());
    assert_eq!(Session::<Rtc>::handle_input(outcome), Ok(()));
    assert_eq!(
        Session::<Rtc>::handle_input(Err("bad".to_string())).unwrap_err(),
        "handle_input: bad"
    );
}

#[test]
fn offer_waits_for_its_engine() {
    let (_client, offer_json) = make_client_offer();
    let (pending, offer) = Session::handle_sdp_offer(
        "r",
        "a.amp",
        "b.amp",
        &offer_json,
        local_addr(),
        LOCALHOST,
        Some("demo".to_string()),
        Some(Role::Subscriber),
    )
    .unwrap();
    assert_eq!(serde_json::to_string(&offer).unwrap(), offer_json);
    assert_eq!(pending.request_id, "r");
    assert_eq!(pending.from_addr, "a.amp");
    assert_eq!(pending.to_addr, "b.amp");
    assert_eq!(pending.room.as_deref(), Some("demo"));
    assert_eq!(pending.role, Some(Role::Subscriber));
    assert!(pending.rtc.is_alive());
    let refused = pending.answered(Err("no".to_string()));
    assert_eq!(refused.err().unwrap(), "accept_offer failed: no");
    let take = |read: Result<SdpOffer, String>, addr: HostAddr| {
        Session::take_sdp_offer("r", "a.amp", "b.amp", read, addr, HostIp::V4(0), None, None)
    };
    assert_eq!(
        take(Err("no".to_string()), local_addr()).err().unwrap(),
        "invalid SDP offer JSON: no"
    );
    let nowhere = HostAddr { ip: HostIp::V4(0), port: 9801 };
    assert!(take(Ok(offer), nowhere).err().unwrap().starts_with("invalid candidate: "));
}

#[test]
fn room_sessions_hand_on_and_loopback_sessions_echo() {
    let mut room = session(mids(None, None), Some("demo"));
    let mut alone = session(mids(None, None), None);
    let added = |mid: &str| RtcEvent::MediaAdded { kind: MediaKind::Video, mid: mid.to_string() };
    assert!(matches!(room.handle_event::<u8, u8>(added("1")), EventOutcome::Nothing));
    assert_eq!(room.mid_by_kind.get(MediaKind::Video).map(|s| s.as_str()), Some("1"));
    assert_eq!(room.mid_by_kind.kind_on("1"), Some(MediaKind::Video));
    assert_eq!(room.mid_by_kind.kind_on("0"), None);
    match room.handle_event::<u8, u8>(RtcEvent::MediaData(media("1"))) {
        EventOutcome::Event(SessionEvent::MediaData(d)) => assert_eq!(d.frame, 9),
        _ => unreachable!(),
    }
    match alone.handle_event::<u8, u8>(RtcEvent::MediaData(media("1"))) {
        EventOutcome::EchoMedia(d) => assert_eq!(d.mid, "1"),
        _ => unreachable!(),
    }
    let request = || KeyframeRequest { mid: "1".to_string(), kind: 3u8 };
    assert!(matches!(
        room.handle_event::<u8, u8>(RtcEvent::KeyframeRequest(request())),
        EventOutcome::Event(SessionEvent::KeyframeRequest(_))
    ));
    match alone.handle_event::<u8, u8>(RtcEvent::KeyframeRequest(request())) {
        EventOutcome::EchoKeyframe(r) => assert_eq!(r.kind, 3),
        _ => unreachable!(),
    }
    let ice = |disconnected| RtcEvent::IceConnectionStateChange { disconnected };
    room.handle_event::<u8, u8>(ice(false));
    room.handle_event::<u8, u8>(RtcEvent::Connected);
    assert!(room.alive);
    room.handle_event::<u8, u8>(ice(true));
    assert!(!room.alive);
}

#[test]
fn draining_collects_until_the_engine_waits() {
    let mut s = session(mids(None, None), Some("demo"));
    let mut drained: Drained<u8, u8> = Drained::new();
    let packet = || Transmit { dest: local_addr(), data: vec![1] };
    assert!(matches!(s.on_output(&mut drained, RtcOutput::Transmit(packet()), 10), DrainStep::Poll));
    assert!(matches!(
        s.on_output(&mut drained, RtcOutput::Event(RtcEvent::MediaData(media("1"))), 10),
        DrainStep::Poll
    ));
    assert!(matches!(s.on_output(&mut drained, RtcOutput::Timeout(10), 10), DrainStep::Wake));
    assert!(matches!(s.on_output(&mut drained, RtcOutput::Timeout(11), 10), DrainStep::Done));
    assert_eq!(drained.transmits.len(), 1);
    assert_eq!(drained.events.len(), 1);
    assert_eq!(drained.next_timeout, Some(11));
    assert!(s.alive);
    assert!(matches!(s.on_output(&mut drained, RtcOutput::Error, 10), DrainStep::Done));
    assert!(!s.alive);
    let mut alone = session(mids(None, None), None);
    assert!(matches!(
        alone.on_output(&mut drained, RtcOutput::Event(RtcEvent::MediaData(media("1"))), 10),
        DrainStep::EchoMedia(_)
    ));
    let request = KeyframeRequest { mid: "1".to_string(), kind: 3 };
    assert!(matches!(
        alone.on_output(&mut drained, RtcOutput::Event(RtcEvent::KeyframeRequest(request)), 10),
        DrainStep::EchoKeyframe(_)
    ));
    alone.wake_failed();
    assert!(!alone.alive);
}

fn state() -> SfuState<u8> {
    let mut state: SfuState<u8> = SfuState::new();
    state.sessions.push(session(mids(Some("a0"), Some("v0")), Some("demo")));
    state.sessions.push(session(mids(Some("a1"), None), Some("demo")));
    state.sessions.push(session(mids(Some("a2"), Some("v2")), Some("demo")));
    state.rooms.join("demo", 0, Role::Publisher);
    state.rooms.join("demo", 1, Role::Subscriber);
    state.rooms.join("demo", 2, Role::Subscriber);
    state.rooms.join("demo", 7, Role::Subscriber);
    state
}

#[test]
fn media_goes_to_subscribers_and_nodes() {
    let mut state = state();
    state.outbound_relays.subscribe("demo", "mko");
    state.outbound_relays.subscribe("demo", "gc");
    state.outbound_relays.subscribe("other", "mmc");
    let plan = state.plan_media(0, &media("a0"), 77);
    let lines: Vec<(usize, &str)> = plan.targets.iter().map(|t| (t.session, t.mid.as_str())).collect();
    assert_eq!(lines, vec![(1, "a1"), (2, "a2")]);
    assert_eq!(plan.relays.len(), 2);
    for (event, node) in plan.relays.iter().zip(["mko", "gc"]) {
        match event {
            SfuEvent::RelayData { target_node, packet } => {
                assert_eq!(target_node, node);
                assert_eq!(packet.room, "demo");
                assert_eq!(packet.kind, "audio");
                assert_eq!(packet.pt, 111);
                assert_eq!(packet.time, 5);
                assert_eq!(packet.wallclock_ms, 77);
                assert_eq!(packet.decode_data().unwrap(), vec![1, 2, 3, 4]);
            }
            _ => unreachable!(),
        }
    }
    let plan = state.plan_media(0, &media("v0"), 77);
    let lines: Vec<(usize, &str)> = plan.targets.iter().map(|t| (t.session, t.mid.as_str())).collect();
    assert_eq!(lines, vec![(2, "v2")]);
    assert!(state.plan_media(0, &media("zz"), 77).targets.is_empty());
    let plan = state.plan_media(1, &media("a1"), 77);
    assert!(plan.targets.is_empty() && plan.relays.is_empty());
}

#[test]
fn keyframe_requests_go_to_the_publisher() {
    let state = state();
    let t = state.plan_keyframe(2, "v2").unwrap();
    assert_eq!((t.session, t.mid.as_str()), (0, "v0"));
    let t = state.plan_keyframe(1, "a1").unwrap();
    assert_eq!((t.session, t.mid.as_str()), (0, "a0"));
    assert!(state.plan_keyframe(1, "v1").is_none());
    assert!(state.plan_keyframe(0, "v0").is_none());
}

#[test]
fn relayed_media_goes_to_local_subscribers() {
    let state = state();
    let packet = RelayPacket::from_media_data("demo", MediaKind::Video, 96, 5, 77, &[8, 9]);
    let plan = state.plan_relay(&packet).unwrap();
    assert_eq!(plan.time, 5);
    assert_eq!(plan.rate, 90_000);
    assert_eq!(plan.data, vec![8, 9]);
    assert_eq!(plan.targets.len(), 1);
    assert_eq!(plan.targets[0].mid, "v2");
    let mut bad = packet.clone();
    bad.kind = "smell".to_string();
    assert!(state.plan_relay(&bad).is_none());
    let mut bad = packet.clone();
    bad.data = "?".to_string();
    assert!(state.plan_relay(&bad).is_none());
    let mut bad = packet.clone();
    bad.room = "other".to_string();
    assert!(state.plan_relay(&bad).is_none());
    assert_eq!(clock_rate(MediaKind::Audio), 48_000);
}

#[test]
fn idle_sfu_waits_longer() {
    let mut sessions: Vec<Session<u8>> = Vec::new();
    assert_eq!(compute_timeout(&sessions), 1000);
    sessions.push(session(mids(None, None), None));
    assert_eq!(compute_timeout(&sessions), 100);
}

#[test]
fn commands_change_the_sfu() {
    let mut sfu: SfuState<Rtc> = SfuState::new();
    match command(&mut sfu, offer_command("r0", Some("demo"), Some("publisher"))) {
        CommandOutcome::Answer { session, answer_msg } => {
            assert_eq!(session, 0);
            assert_eq!(answer_msg.get("reply-to"), Some("r0"));
        }
        _ => unreachable!(),
    }
    command(&mut sfu, offer_command("r1", Some("demo"), Some("subscriber")));
    command(&mut sfu, offer_command("r2", Some("demo"), Some("boss")));
    command(&mut sfu, offer_command("r3", None, Some("subscriber")));
    command(&mut sfu, offer_command("r4", Some("demo"), Some("subscriber")));
    assert_eq!(sfu.sessions.len(), 5);
    assert_eq!(sfu.rooms.rooms.len(), 1);
    assert_eq!(sfu.rooms.rooms.get("demo").unwrap().publisher, Some(0));
    assert_eq!(sfu.rooms.rooms.get("demo").unwrap().subscribers, vec![1, 4]);

    let bad = SfuCommand::SdpOffer {
        request_id: "r5".to_string(),
        from_addr: "a.amp".to_string(),
        to_addr: "b.amp".to_string(),
        sdp: "junk".to_string(),
        room: None,
        role: None,
    };
    match sfu.on_command(bad, local_addr(), LOCALHOST) {
        CommandOutcome::Refused(e) => assert!(e.starts_with("invalid SDP offer JSON: ")),
        _ => unreachable!(),
    }

    let subscribe = SfuCommand::RelaySubscribe { room: "demo".to_string(), from_node: "mko".to_string() };
    assert!(matches!(sfu.on_command(subscribe, local_addr(), LOCALHOST), CommandOutcome::Done));
    assert!(sfu.outbound_relays.subscribers("demo").unwrap().contains("mko"));
    let unsubscribe =
        SfuCommand::RelayUnsubscribe { room: "demo".to_string(), from_node: "mko".to_string() };
    assert!(matches!(sfu.on_command(unsubscribe, local_addr(), LOCALHOST), CommandOutcome::Done));
    assert!(sfu.outbound_relays.subscribers("demo").is_none());

    let packet = RelayPacket::from_media_data("demo", MediaKind::Audio, 111, 5, 77, &[8, 9]);
    match sfu.on_command(SfuCommand::RelayData { packet }, local_addr(), LOCALHOST) {
        CommandOutcome::Relay(Some(plan)) => assert!(plan.targets.is_empty()),
        _ => unreachable!(),
    }
    assert!(matches!(sfu.on_command(SfuCommand::Shutdown, local_addr(), LOCALHOST), CommandOutcome::Stop));

    sfu.sessions[1].alive = false;
    sfu.sessions[2].rtc.disconnect();
    sfu.remove_dead();
    let ids: Vec<&str> = sfu.sessions.iter().map(|s| s.id.as_str()).collect();
    assert_eq!(ids, vec!["r0", "r3", "r4"]);
    assert_eq!(sfu.rooms.rooms.get("demo").unwrap().publisher, Some(0));
    assert_eq!(sfu.rooms.rooms.get("demo").unwrap().subscribers, vec![2]);
    sfu.sessions[0].alive = false;
    sfu.sessions[2].alive = false;
    sfu.remove_dead();
    assert_eq!(sfu.sessions.len(), 1);
    assert!(sfu.rooms.rooms.is_empty());
}

#[test]
fn input_is_for_the_first_session_that_accepts_it() {
    let mut sfu: SfuState<Rtc> = SfuState::new();
    let input = Input::Timeout(Instant::now());
    let accepted = |sfu: &SfuState<Rtc>| -> Vec<bool> {
        sfu.sessions.iter().map(|s| s.rtc.accepts(&input)).collect()
    };
    assert_eq!(sfu.session_for(&accepted(&sfu)), None);
    command(&mut sfu, offer_command("r0", None, None));
    command(&mut sfu, offer_command("r1", None, None));
    assert_eq!(sfu.session_for(&accepted(&sfu)), Some(0));
    assert_eq!(sfu.session_for(&vec![false, true]), Some(1));
    assert_eq!(sfu.session_for(&vec![true, true]), Some(0));
    assert_eq!(sfu.session_for(&vec![false, false]), None);
}
