//! What the daemon does about the events of its selective forwarding unit.
use vstd::prelude::*;

use crate::address;
use crate::address::AddressView;
use crate::bridge;
use crate::bridge::{ActionView, BridgeInputView, BridgeStepView, CallbackRequest, CallbackView};
use crate::message;
use crate::message::{AmpMessage, MessageView};
use crate::peer::PeerView;
use crate::relay::PacketView;
use crate::roundtrip;
use crate::sfu;
use crate::sfu::{CommandView, SfuEvent};
use crate::strmap;
use crate::text;

verus! {

/// The address of the SFU of a node.
pub open spec fn sfu_address(node: Seq<char>) -> Seq<char> {
    "sfu."@ + node + ".amp"@
}

/// What the SFU of one node sends to that of another about a room's media.
pub open spec fn relay_request(
    command: Seq<char>,
    node: Seq<char>,
    target: Seq<char>,
    room: Seq<char>,
) -> MessageView {
    MessageView {
        headers: seq![
            ("amp"@, "1"@),
            ("type"@, "event"@),
            ("command"@, command),
            ("from"@, sfu_address(node)),
            ("to"@, sfu_address(target)),
            ("from-node"@, node),
            ("room"@, room),
        ],
        body: Seq::empty(),
    }
}

/// What the SFU of one node sends to that of another to hand it media, which the body spells.
pub open spec fn relay_data(node: Seq<char>, target: Seq<char>, body: Seq<char>) -> MessageView {
    MessageView {
        headers: seq![
            ("amp"@, "1"@),
            ("type"@, "event"@),
            ("command"@, "relay-data"@),
            ("from"@, sfu_address(node)),
            ("to"@, sfu_address(target)),
        ],
        body,
    }
}

/// What is done about an event of the SFU.
#[derive(Debug)]
pub enum EventAction {
    /// Post a message to the application.
    Post(CallbackRequest),
    /// Send a message to a node.
    Send { node: String, msg: AmpMessage },
}

/// What an [`EventAction`] says.
pub enum EventActionView {
    Post(CallbackView),
    Send { node: Seq<char>, msg: MessageView },
}

impl View for EventAction {
    type V = EventActionView;

    open spec fn view(&self) -> EventActionView {
        match *self {
            EventAction::Post(request) => EventActionView::Post(request@),
            EventAction::Send { node, msg } => EventActionView::Send { node: node@, msg: msg@ },
        }
    }
}

/// What the node `node_name` does about an event, where `packet_text` spells the packet that the
/// event hands on, if it hands one on.
pub open spec fn event_action(
    node_name: Seq<char>,
    event: SfuEvent,
    packet_text: Seq<char>,
) -> EventActionView {
    match event {
        SfuEvent::SendMessage(msg) => EventActionView::Post(bridge::posted("sfu"@, msg@)),
        SfuEvent::RequestRelay { target_node, room } => EventActionView::Send {
            node: target_node@,
            msg: relay_request("relay-subscribe"@, node_name, target_node@, room@),
        },
        SfuEvent::CancelRelay { target_node, room } => EventActionView::Send {
            node: target_node@,
            msg: relay_request("relay-unsubscribe"@, node_name, target_node@, room@),
        },
        SfuEvent::RelayData { target_node, .. } => EventActionView::Send {
            node: target_node@,
            msg: relay_data(node_name, target_node@, packet_text),
        },
    }
}

/// The address of the SFU of a node.
fn address_of_sfu(node: &str) -> (r: String)
    ensures
        r@ == sfu_address(node@),
{
    let mut r: String = "sfu.".to_owned();
    r.append(node);
    r.append(".amp");
    r
}

/// The keys of these messages are told apart.
proof fn lemma_relay_keys()
    ensures
        strmap::distinct_keys(
            seq![
                ("amp"@, 0int),
                ("type"@, 0int),
                ("command"@, 0int),
                ("from"@, 0int),
                ("to"@, 0int),
                ("from-node"@, 0int),
                ("room"@, 0int),
            ],
        ),
{
    reveal_strlit("amp");
    reveal_strlit("type");
    reveal_strlit("command");
    reveal_strlit("from");
    reveal_strlit("to");
    reveal_strlit("from-node");
    reveal_strlit("room");
    assert("amp"@.len() == 3 && "command"@.len() == 7 && "to"@.len() == 2 && "from-node"@.len() == 9);
    assert("type"@.len() == 4 && "from"@.len() == 4 && "room"@.len() == 4);
    assert("type"@[0] == 't' && "from"@[0] == 'f' && "room"@[0] == 'r');
}

/// The keys of a relay request are told apart.
proof fn lemma_request_keys(command: Seq<char>, node: Seq<char>, target: Seq<char>, room: Seq<char>)
    ensures
        strmap::distinct_keys(relay_request(command, node, target, room).headers),
{
    lemma_relay_keys();
    let hs = relay_request(command, node, target, room).headers;
    let ks = seq![
        ("amp"@, 0int),
        ("type"@, 0int),
        ("command"@, 0int),
        ("from"@, 0int),
        ("to"@, 0int),
        ("from-node"@, 0int),
        ("room"@, 0int),
    ];
    assert forall|i: int, j: int| 0 <= i < j < hs.len() implies hs[i].0 != hs[j].0 by {
        assert(hs[i].0 == ks[i].0 && hs[j].0 == ks[j].0);
    }
}

/// The keys of handed media are told apart.
proof fn lemma_data_keys(node: Seq<char>, target: Seq<char>, body: Seq<char>)
    ensures
        strmap::distinct_keys(relay_data(node, target, body).headers),
{
    lemma_relay_keys();
    let hs = relay_data(node, target, body).headers;
    let ks = seq![
        ("amp"@, 0int),
        ("type"@, 0int),
        ("command"@, 0int),
        ("from"@, 0int),
        ("to"@, 0int),
        ("from-node"@, 0int),
        ("room"@, 0int),
    ];
    assert forall|i: int, j: int| 0 <= i < j < hs.len() implies hs[i].0 != hs[j].0 by {
        assert(hs[i].0 == ks[i].0 && hs[j].0 == ks[j].0);
    }
}

/// What the SFU of one node sends to that of another about a room's media.
fn request_message(command: &str, node: &str, target: &str, room: String) -> (r: AmpMessage)
    ensures
        r@ == relay_request(command@, node@, target@, room@),
{
    let ghost room_text = room@;
    let pairs: Vec<(&'static str, String)> = vec![
        ("amp", "1".to_owned()),
        ("type", "event".to_owned()),
        ("command", command.to_owned()),
        ("from", address_of_sfu(node)),
        ("to", address_of_sfu(target)),
        ("from-node", node.to_owned()),
        ("room", room),
    ];
    proof {
        let ps = pairs@.map_values(|p: (&'static str, String)| (p.0@, p.1@));
        assert(ps =~= relay_request(command@, node@, target@, room_text).headers);
        lemma_request_keys(command@, node@, target@, room_text);
        message::lemma_collect_distinct(ps);
    }
    AmpMessage::command(pairs)
}

/// What the SFU of one node sends to that of another to hand it media.
fn data_message(node: &str, target: &str, body: String) -> (r: AmpMessage)
    ensures
        r@ == relay_data(node@, target@, body@),
{
    let pairs: Vec<(&'static str, String)> = vec![
        ("amp", "1".to_owned()),
        ("type", "event".to_owned()),
        ("command", "relay-data".to_owned()),
        ("from", address_of_sfu(node)),
        ("to", address_of_sfu(target)),
    ];
    proof {
        let ps = pairs@.map_values(|p: (&'static str, String)| (p.0@, p.1@));
        assert(ps =~= relay_data(node@, target@, body@).headers);
        lemma_data_keys(node@, target@, body@);
        message::lemma_collect_distinct(ps);
    }
    let msg: AmpMessage = AmpMessage::command(pairs);
    AmpMessage { headers: msg.headers, body }
}

/// What the node `node_name` does about an event of its SFU: it posts answers to the application,
/// and sends what concerns a relay to the node that it is for. `packet_text` spells the packet that
/// the event hands on, if it hands one on.
pub fn forward_sfu_event(node_name: &str, event: SfuEvent, packet_text: String) -> (r: EventAction)
    ensures
        r@ == event_action(node_name@, event, packet_text@),
{
    match event {
        SfuEvent::SendMessage(msg) => EventAction::Post(bridge::callback_request("sfu", &msg)),
        SfuEvent::RequestRelay { target_node, room } => {
            let msg: AmpMessage = request_message(
                "relay-subscribe",
                node_name,
                target_node.as_str(),
                room,
            );
            EventAction::Send { node: target_node, msg }
        },
        SfuEvent::CancelRelay { target_node, room } => {
            let msg: AmpMessage = request_message(
                "relay-unsubscribe",
                node_name,
                target_node.as_str(),
                room,
            );
            EventAction::Send { node: target_node, msg }
        },
        SfuEvent::RelayData { target_node, .. } => {
            let msg: AmpMessage = data_message(node_name, target_node.as_str(), packet_text);
            EventAction::Send { node: target_node, msg }
        },
    }
}

/// Text without a line end.
pub open spec fn is_line(s: Seq<char>) -> bool {
    !s.contains('\n')
}

/// The address of an SFU survives the wire.
proof fn lemma_address_is_plain(node: Seq<char>)
    requires
        is_line(node),
    ensures
        text::is_trimmed(sfu_address(node)),
        is_line(sfu_address(node)),
{
    reveal_strlit("sfu.");
    reveal_strlit(".amp");
    let a = sfu_address(node);
    assert forall|i: int| 0 <= i < a.len() implies a[i] != '\n' by {
        if 4 <= i < 4 + node.len() {
            assert(a[i] == node[i - 4]);
            assert(node.contains(node[i - 4]));
        }
    }
}

/// A key of these messages survives the wire with every value that does.
proof fn lemma_plain(k: Seq<char>, v: Seq<char>)
    requires
        k == "amp"@ || k == "type"@ || k == "command"@ || k == "from"@ || k == "to"@ || k
            == "from-node"@ || k == "room"@,
        text::is_trimmed(v),
        is_line(v),
    ensures
        roundtrip::is_plain_header((k, v)),
{
    reveal(roundtrip::is_plain_header);
    reveal_strlit("amp");
    reveal_strlit("type");
    reveal_strlit("command");
    reveal_strlit("from");
    reveal_strlit("to");
    reveal_strlit("from-node");
    reveal_strlit("room");
    assert forall|j: int| !text::occurs_at(k, message::separator(), j) by {
        if text::occurs_at(k, message::separator(), j) {
            assert(k.subrange(j, j + 2)[0] == ':');
        }
    }
}

/// The words of these messages survive the wire.
proof fn lemma_words()
    ensures
        text::is_trimmed("1"@) && is_line("1"@),
        text::is_trimmed("event"@) && is_line("event"@),
        text::is_trimmed("relay-subscribe"@) && is_line("relay-subscribe"@),
        text::is_trimmed("relay-unsubscribe"@) && is_line("relay-unsubscribe"@),
        text::is_trimmed("relay-data"@) && is_line("relay-data"@),
{
    reveal_strlit("1");
    reveal_strlit("event");
    reveal_strlit("relay-subscribe");
    reveal_strlit("relay-unsubscribe");
    reveal_strlit("relay-data");
}

/// What a relay request says once it has been written and read.
proof fn lemma_request_arrives(
    command: Seq<char>,
    node: Seq<char>,
    target: Seq<char>,
    room: Seq<char>,
)
    requires
        command == "relay-subscribe"@ || command == "relay-unsubscribe"@,
        text::is_trimmed(node) && is_line(node),
        is_line(target),
        text::is_trimmed(room) && is_line(room),
    ensures
        message::parse_message(message::wire(relay_request(command, node, target, room))) == Some(
            relay_request(command, node, target, room),
        ),
        message::header(relay_request(command, node, target, room), "command"@) == Some(command),
        message::header(relay_request(command, node, target, room), "from-node"@) == Some(node),
        message::header(relay_request(command, node, target, room), "room"@) == Some(room),
        message::header(relay_request(command, node, target, room), "to"@) == Some(
            sfu_address(target),
        ),
        message::header(relay_request(command, node, target, room), "id"@) is None,
{
    let m = relay_request(command, node, target, room);
    lemma_words();
    lemma_address_is_plain(node);
    lemma_address_is_plain(target);
    lemma_request_keys(command, node, target, room);
    assert forall|i: int| 0 <= i < m.headers.len() implies roundtrip::is_plain_header(
        #[trigger] m.headers[i],
    ) by {
        lemma_plain(m.headers[i].0, m.headers[i].1);
    }
    roundtrip::law_write_read(m);
    assert(message::wire_body(m.body) =~= m.body);
    strmap::lemma_slot(m.headers, 2);
    strmap::lemma_slot(m.headers, 4);
    strmap::lemma_slot(m.headers, 5);
    strmap::lemma_slot(m.headers, 6);
    lemma_no_id();
}

/// No key of these messages is `id`.
proof fn lemma_no_id()
    ensures
        "id"@ != "amp"@ && "id"@ != "type"@ && "id"@ != "command"@ && "id"@ != "from"@ && "id"@
            != "to"@ && "id"@ != "from-node"@ && "id"@ != "room"@,
{
    reveal_strlit("id");
    reveal_strlit("amp");
    reveal_strlit("type");
    reveal_strlit("command");
    reveal_strlit("from");
    reveal_strlit("to");
    reveal_strlit("from-node");
    reveal_strlit("room");
    assert("id"@.len() == 2 && "amp"@.len() == 3 && "type"@.len() == 4 && "command"@.len() == 7
        && "from"@.len() == 4 && "from-node"@.len() == 9 && "room"@.len() == 4);
    assert("id"@[0] == 'i' && "to"@[0] == 't');
}

/// The address of the SFU of a node names that node.
proof fn lemma_address_names_node(node: Seq<char>)
    requires
        !node.contains('.'),
    ensures
        address::parse_address(sfu_address(node)) == Some(
            AddressView { port: None, app: Some("sfu"@), node },
        ),
{
    let a = AddressView { port: None, app: Some("sfu"@), node };
    reveal_strlit("sfu");
    reveal_strlit("sfu.");
    reveal_strlit(".amp");
    assert(address::format_address(a) =~= sfu_address(node));
    address::law_format_parse(a);
}

/// A node that asks another for a room's media, or asks no longer, is understood there: the other
/// reads who asks, and for which room.
pub proof fn law_relay_requests_arrive(node: Seq<char>, target: Seq<char>, room: Seq<char>)
    requires
        text::is_trimmed(node) && is_line(node),
        is_line(target),
        text::is_trimmed(room) && is_line(room),
    ensures
        match message::parse_message(
            message::wire(relay_request("relay-subscribe"@, node, target, room)),
        ) {
            Some(m) => sfu::command_in(m, None) == Some(
                CommandView::RelaySubscribe { room, from_node: node },
            ),
            None => false,
        },
        match message::parse_message(
            message::wire(relay_request("relay-unsubscribe"@, node, target, room)),
        ) {
            Some(m) => sfu::command_in(m, None) == Some(
                CommandView::RelayUnsubscribe { room, from_node: node },
            ),
            None => false,
        },
{
    lemma_request_arrives("relay-subscribe"@, node, target, room);
    lemma_request_arrives("relay-unsubscribe"@, node, target, room);
    reveal_strlit("sdp-offer");
    reveal_strlit("relay-subscribe");
    reveal_strlit("relay-unsubscribe");
    assert("sdp-offer"@.len() == 9 && "relay-subscribe"@.len() == 15
        && "relay-unsubscribe"@.len() == 17);
}

/// What handed media says once it has been written and read.
proof fn lemma_data_headers(node: Seq<char>, target: Seq<char>, body: Seq<char>)
    requires
        is_line(node),
        is_line(target),
    ensures
        match message::parse_message(message::wire(relay_data(node, target, body))) {
            Some(m) => {
                &&& m.body == message::wire_body(body)
                &&& message::header(m, "command"@) == Some("relay-data"@)
                &&& message::header(m, "to"@) == Some(sfu_address(target))
                &&& message::header(m, "id"@) is None
            },
            None => false,
        },
{
    let m = relay_data(node, target, body);
    lemma_words();
    lemma_address_is_plain(node);
    lemma_address_is_plain(target);
    lemma_data_keys(node, target, body);
    assert forall|i: int| 0 <= i < m.headers.len() implies roundtrip::is_plain_header(
        #[trigger] m.headers[i],
    ) by {
        lemma_plain(m.headers[i].0, m.headers[i].1);
    }
    roundtrip::law_write_read(m);
    strmap::lemma_slot(m.headers, 2);
    strmap::lemma_slot(m.headers, 4);
    lemma_no_id();
    let got = message::parse_message(message::wire(m))->Some_0;
    assert(got.headers == m.headers);
}

/// Media that a node hands to another is understood there: the other reads the body that spells it,
/// with its last line ended, and hands on the packet that the body spells.
pub proof fn law_relay_data_arrives(
    node: Seq<char>,
    target: Seq<char>,
    body: Seq<char>,
    packet: PacketView,
)
    requires
        is_line(node),
        is_line(target),
    ensures
        match message::parse_message(message::wire(relay_data(node, target, body))) {
            Some(m) => m.body == message::wire_body(body) && sfu::command_in(m, Some(packet))
                == Some(CommandView::RelayData { packet }),
            None => false,
        },
{
    lemma_data_headers(node, target, body);
    reveal_strlit("sdp-offer");
    reveal_strlit("relay-subscribe");
    reveal_strlit("relay-unsubscribe");
    reveal_strlit("relay-data");
    assert("sdp-offer"@.len() == 9 && "relay-subscribe"@.len() == 15
        && "relay-unsubscribe"@.len() == 17 && "relay-data"@.len() == 10);
}

/// What one node sends to another about a room's media comes to the SFU there once the application
/// there hands it on, posted or by its WebSocket: the SFU is told who asks, and for which room.
pub proof fn law_relay_requests_reach_sfu(
    peers: Map<Seq<char>, PeerView>,
    node: Seq<char>,
    target: Seq<char>,
    room: Seq<char>,
    relayed: Option<PacketView>,
)
    requires
        text::is_trimmed(node) && is_line(node),
        is_line(target) && !target.contains('.'),
        text::is_trimmed(room) && is_line(room),
    ensures
        ({
            let raw = message::wire(relay_request("relay-subscribe"@, node, target, room));
            let command = CommandView::RelaySubscribe { room, from_node: node };
            &&& bridge::send_action(peers, true, target, raw, relayed) == (ActionView::Sfu {
                msg_id: "none"@,
                command,
            })
            &&& bridge::bridge_next(peers, true, target, BridgeInputView::Text(raw), relayed)
                == BridgeStepView::Sfu(command)
        }),
        ({
            let raw = message::wire(relay_request("relay-unsubscribe"@, node, target, room));
            let command = CommandView::RelayUnsubscribe { room, from_node: node };
            &&& bridge::send_action(peers, true, target, raw, relayed) == (ActionView::Sfu {
                msg_id: "none"@,
                command,
            })
            &&& bridge::bridge_next(peers, true, target, BridgeInputView::Text(raw), relayed)
                == BridgeStepView::Sfu(command)
        }),
{
    lemma_request_arrives("relay-subscribe"@, node, target, room);
    lemma_request_arrives("relay-unsubscribe"@, node, target, room);
    lemma_address_names_node(target);
    reveal_strlit("sdp-offer");
    reveal_strlit("relay-subscribe");
    reveal_strlit("relay-unsubscribe");
    assert("sdp-offer"@.len() == 9 && "relay-subscribe"@.len() == 15
        && "relay-unsubscribe"@.len() == 17);
}

/// Media that one node sends to another comes to the SFU there once the application there hands it
/// on with the packet that its body spells.
pub proof fn law_relay_data_reaches_sfu(
    peers: Map<Seq<char>, PeerView>,
    node: Seq<char>,
    target: Seq<char>,
    body: Seq<char>,
    packet: PacketView,
)
    requires
        is_line(node),
        is_line(target) && !target.contains('.'),
    ensures
        ({
            let raw = message::wire(relay_data(node, target, body));
            let command = CommandView::RelayData { packet };
            &&& bridge::send_action(peers, true, target, raw, Some(packet)) == (ActionView::Sfu {
                msg_id: "none"@,
                command,
            })
            &&& bridge::bridge_next(
                peers,
                true,
                target,
                BridgeInputView::Text(raw),
                Some(packet),
            ) == BridgeStepView::Sfu(command)
        }),
{
    law_relay_data_arrives(node, target, body, packet);
    lemma_data_headers(node, target, body);
    lemma_address_names_node(target);
    reveal_strlit("sdp-offer");
    reveal_strlit("relay-data");
    assert("sdp-offer"@.len() == 9 && "relay-data"@.len() == 10);
}

/// Every event of the SFU goes out: an answer is posted to the application as it is on the wire, and
/// what concerns a relay is sent to the node that it is for.
pub proof fn law_events_go_out(node_name: Seq<char>, event: SfuEvent, packet_text: Seq<char>)
    ensures
        ({
            let action = event_action(node_name, event, packet_text);
            match event {
                SfuEvent::SendMessage(msg) => action matches EventActionView::Post(post) && {
                    &&& post.body == message::wire(msg@)
                    &&& post.peer == "sfu"@
                    &&& message::header(msg@, "from"@) matches Some(from) ==> post.from == from
                },
                SfuEvent::RequestRelay { target_node, room } => action matches
                    EventActionView::Send { node, msg } && node == target_node@ && msg
                    == relay_request("relay-subscribe"@, node_name, target_node@, room@),
                SfuEvent::CancelRelay { target_node, room } => action matches
                    EventActionView::Send { node, msg } && node == target_node@ && msg
                    == relay_request("relay-unsubscribe"@, node_name, target_node@, room@),
                SfuEvent::RelayData { target_node, .. } => action matches EventActionView::Send {
                    node,
                    msg,
                } && node == target_node@ && msg == relay_data(
                    node_name,
                    target_node@,
                    packet_text,
                ),
            }
        }),
{
}

/// A relay request is addressed to the SFU of its target and comes from that of its node; so is
/// relayed media, whose body is the text that spells it.
pub proof fn law_relay_messages_are_addressed(
    command: Seq<char>,
    node: Seq<char>,
    target: Seq<char>,
    room: Seq<char>,
    body: Seq<char>,
)
    ensures
        ({
            let m = relay_request(command, node, target, room);
            &&& message::header(m, "amp"@) == Some("1"@)
            &&& message::header(m, "type"@) == Some("event"@)
            &&& message::header(m, "command"@) == Some(command)
            &&& message::header(m, "from"@) == Some("sfu."@ + node + ".amp"@)
            &&& message::header(m, "to"@) == Some("sfu."@ + target + ".amp"@)
            &&& message::header(m, "from-node"@) == Some(node)
            &&& message::header(m, "room"@) == Some(room)
            &&& m.headers.len() == 7
            &&& m.body.len() == 0
        }),
        ({
            let m = relay_data(node, target, body);
            &&& message::header(m, "amp"@) == Some("1"@)
            &&& message::header(m, "type"@) == Some("event"@)
            &&& message::header(m, "command"@) == Some("relay-data"@)
            &&& message::header(m, "from"@) == Some("sfu."@ + node + ".amp"@)
            &&& message::header(m, "to"@) == Some("sfu."@ + target + ".amp"@)
            &&& m.headers.len() == 5
            &&& m.body == body
        }),
{
    let m = relay_request(command, node, target, room);
    lemma_request_keys(command, node, target, room);
    strmap::lemma_slot(m.headers, 0);
    strmap::lemma_slot(m.headers, 1);
    strmap::lemma_slot(m.headers, 2);
    strmap::lemma_slot(m.headers, 3);
    strmap::lemma_slot(m.headers, 4);
    strmap::lemma_slot(m.headers, 5);
    strmap::lemma_slot(m.headers, 6);
    let d = relay_data(node, target, body);
    lemma_data_keys(node, target, body);
    strmap::lemma_slot(d.headers, 0);
    strmap::lemma_slot(d.headers, 1);
    strmap::lemma_slot(d.headers, 2);
    strmap::lemma_slot(d.headers, 3);
    strmap::lemma_slot(d.headers, 4);
}

/// What is done about an event is told with all that it takes.
pub proof fn law_event_actions_say_what_is_done(action: EventAction)
    ensures
        match action {
            EventAction::Post(post) => action@ == EventActionView::Post(post@),
            EventAction::Send { node, msg } => action@ == (EventActionView::Send {
                node: node@,
                msg: msg@,
            }),
        },
{
}

} // verus!
