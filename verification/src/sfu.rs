//! Commands and events of the selective forwarding unit.
use vstd::prelude::*;

use crate::address;
use crate::address::AmpAddress;
use crate::message;
use crate::message::{AmpMessage, MessageView};
use crate::relay::{PacketView, RelayPacket};
use crate::text;

verus! {

/// SFU configuration.
#[derive(Debug)]
pub struct SfuConfig {
    /// UDP bind address for WebRTC media (e.g. "0.0.0.0:9801").
    pub udp_bind: String,
}

/// Commands sent to the SFU event loop.
#[derive(Debug)]
#[allow(inconsistent_fields)]
pub enum SfuCommand {
    /// Browser wants to establish a WebRTC session.
    SdpOffer {
        request_id: String,
        from_addr: String,
        to_addr: String,
        sdp: String,
        /// Room name (None = legacy loopback).
        room: Option<String>,
        /// Role string: "publisher" or "subscriber".
        role: Option<String>,
    },
    /// Remote node wants to subscribe to a local room's media.
    RelaySubscribe { room: String, from_node: String },
    /// Remote node unsubscribes from a local room.
    RelayUnsubscribe { room: String, from_node: String },
    /// Inbound relay media data from a remote node.
    RelayData { packet: RelayPacket },
    /// Shut down the SFU.
    Shutdown,
}

/// What an [`SfuCommand`] says.
#[allow(inconsistent_fields)]
pub enum CommandView {
    SdpOffer {
        request_id: Seq<char>,
        from_addr: Seq<char>,
        to_addr: Seq<char>,
        sdp: Seq<char>,
        room: Option<Seq<char>>,
        role: Option<Seq<char>>,
    },
    RelaySubscribe { room: Seq<char>, from_node: Seq<char> },
    RelayUnsubscribe { room: Seq<char>, from_node: Seq<char> },
    RelayData { packet: PacketView },
    Shutdown,
}

impl View for SfuCommand {
    type V = CommandView;

    open spec fn view(&self) -> CommandView {
        match *self {
            SfuCommand::SdpOffer { request_id, from_addr, to_addr, sdp, room, role } => {
                CommandView::SdpOffer {
                    request_id: request_id@,
                    from_addr: from_addr@,
                    to_addr: to_addr@,
                    sdp: sdp@,
                    room: text::text_option(room),
                    role: text::text_option(role),
                }
            },
            SfuCommand::RelaySubscribe { room, from_node } => CommandView::RelaySubscribe {
                room: room@,
                from_node: from_node@,
            },
            SfuCommand::RelayUnsubscribe { room, from_node } => CommandView::RelayUnsubscribe {
                room: room@,
                from_node: from_node@,
            },
            SfuCommand::RelayData { packet } => CommandView::RelayData { packet: packet@ },
            SfuCommand::Shutdown => CommandView::Shutdown,
        }
    }
}

/// Events emitted by the SFU for meshd to handle.
#[derive(Debug)]
pub enum SfuEvent {
    /// An AMP message to route back through the bridge (e.g. SDP answer).
    SendMessage(AmpMessage),
    /// Request relay subscription from a remote node's SFU.
    /// meshd should send a `relay-subscribe` AMP command to the target node.
    RequestRelay { target_node: String, room: String },
    /// Cancel relay subscription.
    CancelRelay { target_node: String, room: String },
    /// Relay media data to a remote node.
    /// meshd should send a `relay-data` AMP command to the target node.
    RelayData { target_node: String, packet: RelayPacket },
}

/// SFU command names recognized in AMP messages.
pub open spec fn is_sfu_command_name(name: Seq<char>) -> bool {
    ||| name == "sdp-offer"@
    ||| name == "relay-subscribe"@
    ||| name == "relay-unsubscribe"@
    ||| name == "relay-data"@
}

/// The message asks something of an SFU.
pub open spec fn asks_sfu(m: MessageView) -> bool {
    match message::header(m, "command"@) {
        Some(name) => is_sfu_command_name(name),
        None => false,
    }
}

/// A header's value, or `default`.
pub open spec fn header_or(m: MessageView, k: Seq<char>, default: Seq<char>) -> Seq<char> {
    match message::header(m, k) {
        Some(v) => v,
        None => default,
    }
}

/// The session that a message offers, with a default for a missing `id`.
pub open spec fn offer_in(m: MessageView, default_id: Seq<char>, to: Seq<char>) -> CommandView {
    CommandView::SdpOffer {
        request_id: header_or(m, "id"@, default_id),
        from_addr: header_or(m, "from"@, "unknown"@),
        to_addr: to,
        sdp: m.body,
        room: message::header(m, "room"@),
        role: message::header(m, "role"@),
    }
}

/// The node that a relay request comes from: the one that it names, or the one that it was sent
/// from.
pub open spec fn relay_node(m: MessageView) -> Option<Seq<char>> {
    match message::header(m, "from-node"@) {
        Some(node) => Some(node),
        None => match message::header(m, "from"@) {
            Some(from) => match address::parse_address(from) {
                Some(a) => Some(a.node),
                None => None,
            },
            None => None,
        },
    }
}

/// The command in a message, where `relayed` is the packet that its body spells, if it spells one.
pub open spec fn command_in(m: MessageView, relayed: Option<PacketView>) -> Option<CommandView> {
    match message::header(m, "command"@) {
        None => None,
        Some(name) => if name == "sdp-offer"@ {
            Some(offer_in(m, "unknown"@, header_or(m, "to"@, "unknown"@)))
        } else if name == "relay-subscribe"@ {
            match (message::header(m, "room"@), relay_node(m)) {
                (Some(room), Some(from_node)) => Some(
                    CommandView::RelaySubscribe { room, from_node },
                ),
                _ => None,
            }
        } else if name == "relay-unsubscribe"@ {
            match (message::header(m, "room"@), relay_node(m)) {
                (Some(room), Some(from_node)) => Some(
                    CommandView::RelayUnsubscribe { room, from_node },
                ),
                _ => None,
            }
        } else if name == "relay-data"@ {
            match relayed {
                Some(packet) => Some(CommandView::RelayData { packet }),
                None => None,
            }
        } else {
            None
        },
    }
}

/// A copy of a header's value, or of `default`.
fn owned_or(value: Option<&str>, default: &str) -> (r: String)
    ensures
        r@ == (match value {
            Some(v) => v@,
            None => default@,
        }),
{
    match value {
        Some(v) => v.to_owned(),
        None => default.to_owned(),
    }
}

/// A copy of a header's value.
fn owned(value: Option<&str>) -> (r: Option<String>)
    ensures
        text::text_option(r) == (match value {
            Some(v) => Some(v@),
            None => None,
        }),
{
    match value {
        Some(v) => Some(v.to_owned()),
        None => None,
    }
}

/// The session that a message offers.
pub fn read_offer(msg: &AmpMessage, default_id: &str, to: &str) -> (r: SfuCommand)
    ensures
        r@ == offer_in(msg@, default_id@, to@),
{
    SfuCommand::SdpOffer {
        request_id: owned_or(msg.get("id"), default_id),
        from_addr: owned_or(msg.from_addr(), "unknown"),
        to_addr: to.to_owned(),
        sdp: msg.body.clone(),
        room: owned(msg.get("room")),
        role: owned(msg.get("role")),
    }
}

/// The node that a relay request comes from.
fn read_relay_node(msg: &AmpMessage) -> (r: Option<String>)
    ensures
        text::text_option(r) == relay_node(msg@),
{
    match msg.get("from-node") {
        Some(node) => Some(node.to_owned()),
        None => match msg.from_addr() {
            Some(from) => match AmpAddress::parse(from) {
                Some(addr) => Some(addr.node),
                None => None,
            },
            None => None,
        },
    }
}

/// The SFU as the rest of the daemon sees it.
#[derive(Debug)]
pub struct SfuHandle;

impl SfuHandle {
    /// What becomes of a command that was put into the channel of the SFU: a channel that nobody
    /// reads any more takes none.
    pub fn sent(taken: bool) -> (r: Result<(), String>)
        ensures
            match r {
                Ok(()) => taken,
                Err(e) => !taken && e@ == "SFU task gone"@,
            },
    {
        if taken {
            Ok(())
        } else {
            Err("SFU task gone".to_owned())
        }
    }

    /// Check if an AMP message is an SFU command (e.g. sdp-offer).
    pub fn is_sfu_command(msg: &AmpMessage) -> (r: bool)
        ensures
            r == asks_sfu(msg@),
    {
        match msg.command_name() {
            Some(cmd) => text::str_eq(cmd, "sdp-offer") || text::str_eq(cmd, "relay-subscribe")
                || text::str_eq(cmd, "relay-unsubscribe") || text::str_eq(cmd, "relay-data"),
            None => false,
        }
    }

    /// Parse an AMP message into an SfuCommand, if it's a recognized SFU command. `relayed` is the
    /// packet that the body spells in JSON; only `relay-data` looks at it.
    pub fn parse_command(msg: &AmpMessage, relayed: Option<RelayPacket>) -> (r: Option<SfuCommand>)
        ensures
            (match r {
                Some(c) => Some(c@),
                None => None,
            }) == command_in(
                msg@,
                match relayed {
                    Some(p) => Some(p@),
                    None => None,
                },
            ),
    {
        let name: &str = match msg.command_name() {
            Some(name) => name,
            None => {
                return None;
            },
        };
        if text::str_eq(name, "sdp-offer") {
            let to: String = owned_or(msg.to_addr(), "unknown");
            Some(read_offer(msg, "unknown", to.as_str()))
        } else if text::str_eq(name, "relay-subscribe") {
            match (owned(msg.get("room")), read_relay_node(msg)) {
                (Some(room), Some(from_node)) => Some(
                    SfuCommand::RelaySubscribe { room, from_node },
                ),
                _ => None,
            }
        } else if text::str_eq(name, "relay-unsubscribe") {
            match (owned(msg.get("room")), read_relay_node(msg)) {
                (Some(room), Some(from_node)) => Some(
                    SfuCommand::RelayUnsubscribe { room, from_node },
                ),
                _ => None,
            }
        } else if text::str_eq(name, "relay-data") {
            match relayed {
                Some(packet) => Some(SfuCommand::RelayData { packet }),
                None => None,
            }
        } else {
            None
        }
    }
}

/// Only what asks something of an SFU holds a command, and every offer holds one.
pub proof fn law_commands_are_recognized(m: MessageView, relayed: Option<PacketView>)
    ensures
        command_in(m, relayed) is Some ==> asks_sfu(m),
        message::header(m, "command"@) == Some("sdp-offer"@) ==> command_in(m, relayed) is Some,
{
}

/// A message holds a command exactly where its command is one of the four that an SFU takes, and
/// what that command needs is there: a room and a node for a relay request, a packet for relayed
/// media.
pub proof fn law_commands_need_what_they_say(m: MessageView, relayed: Option<PacketView>)
    ensures
        command_in(m, relayed) is Some <==> {
            let name = message::header(m, "command"@);
            ||| name == Some("sdp-offer"@)
            ||| (name == Some("relay-subscribe"@) || name == Some("relay-unsubscribe"@))
                && message::header(m, "room"@) is Some && relay_node(m) is Some
            ||| name == Some("relay-data"@) && relayed is Some
        },
        asks_sfu(m) <==> {
            let name = message::header(m, "command"@);
            ||| name == Some("sdp-offer"@)
            ||| name == Some("relay-subscribe"@)
            ||| name == Some("relay-unsubscribe"@)
            ||| name == Some("relay-data"@)
        },
{
    lemma_command_names();
}

/// The names of commands are told apart.
proof fn lemma_command_names()
    ensures
        "sdp-offer"@ != "relay-subscribe"@,
        "sdp-offer"@ != "relay-unsubscribe"@,
        "sdp-offer"@ != "relay-data"@,
        "relay-subscribe"@ != "relay-unsubscribe"@,
        "relay-subscribe"@ != "relay-data"@,
        "relay-unsubscribe"@ != "relay-data"@,
{
    reveal_strlit("sdp-offer");
    reveal_strlit("relay-subscribe");
    reveal_strlit("relay-unsubscribe");
    reveal_strlit("relay-data");
    assert("sdp-offer"@.len() == 9 && "relay-subscribe"@.len() == 15
        && "relay-unsubscribe"@.len() == 17 && "relay-data"@.len() == 10);
}

/// A command says what its message says: which room, which node, whose offer, and which packet.
pub proof fn law_commands_say_what_was_sent(m: MessageView, relayed: Option<PacketView>)
    ensures
        command_in(m, relayed) matches Some(command) ==> (match command {
            CommandView::SdpOffer { request_id, from_addr, to_addr, sdp, room, role } => {
                &&& message::header(m, "command"@) == Some("sdp-offer"@)
                &&& sdp == m.body
                &&& room == message::header(m, "room"@)
                &&& role == message::header(m, "role"@)
                &&& message::header(m, "id"@) matches Some(v) ==> request_id == v
                &&& message::header(m, "from"@) matches Some(v) ==> from_addr == v
                &&& message::header(m, "to"@) matches Some(v) ==> to_addr == v
                &&& message::header(m, "id"@) is None ==> request_id == "unknown"@
                &&& message::header(m, "from"@) is None ==> from_addr == "unknown"@
                &&& message::header(m, "to"@) is None ==> to_addr == "unknown"@
            },
            CommandView::RelaySubscribe { room, from_node } => message::header(m, "command"@)
                == Some("relay-subscribe"@) && message::header(m, "room"@) == Some(room)
                && relay_node(m) == Some(from_node),
            CommandView::RelayUnsubscribe { room, from_node } => message::header(m, "command"@)
                == Some("relay-unsubscribe"@) && message::header(m, "room"@) == Some(room)
                && relay_node(m) == Some(from_node),
            CommandView::RelayData { packet } => message::header(m, "command"@) == Some(
                "relay-data"@,
            ) && relayed == Some(packet),
            CommandView::Shutdown => false,
        }),
{
    lemma_command_names();
}

/// The node that asks is the one that a request names, or else the node of the address that it
/// comes from.
pub proof fn law_relay_node(m: MessageView, node: Seq<char>)
    ensures
        message::header(m, "from-node"@) is Some ==> relay_node(m) == message::header(
            m,
            "from-node"@,
        ),
        message::header(m, "from-node"@) is None ==> (relay_node(m) == Some(node) <==> (
        message::header(m, "from"@) matches Some(from) && (address::parse_address(from) matches Some(
            a,
        ) && a.node == node))),
{
}

/// An offer is what its message says, wherever it came to: the body, and each header that is there.
pub proof fn law_offers_say_what_was_sent(m: MessageView, default_id: Seq<char>, to: Seq<char>)
    ensures
        offer_in(m, default_id, to) matches CommandView::SdpOffer {
            request_id,
            from_addr,
            to_addr,
            sdp,
            room,
            role,
        } && {
            &&& sdp == m.body
            &&& to_addr == to
            &&& room == message::header(m, "room"@)
            &&& role == message::header(m, "role"@)
            &&& message::header(m, "id"@) matches Some(v) ==> request_id == v
            &&& message::header(m, "id"@) is None ==> request_id == default_id
            &&& message::header(m, "from"@) matches Some(v) ==> from_addr == v
            &&& message::header(m, "from"@) is None ==> from_addr == "unknown"@
        },
{
}

/// A command says all that it holds.
pub proof fn law_commands_say_what_they_hold(command: SfuCommand)
    ensures
        match command {
            SfuCommand::SdpOffer { request_id, from_addr, to_addr, sdp, room, role } => command@ == (
            CommandView::SdpOffer {
                request_id: request_id@,
                from_addr: from_addr@,
                to_addr: to_addr@,
                sdp: sdp@,
                room: text::text_option(room),
                role: text::text_option(role),
            }),
            SfuCommand::RelaySubscribe { room, from_node } => command@ == (
            CommandView::RelaySubscribe { room: room@, from_node: from_node@ }),
            SfuCommand::RelayUnsubscribe { room, from_node } => command@ == (
            CommandView::RelayUnsubscribe { room: room@, from_node: from_node@ }),
            SfuCommand::RelayData { packet } => command@ == (CommandView::RelayData {
                packet: packet@,
            }),
            SfuCommand::Shutdown => command@ is Shutdown,
        },
{
}

} // verus!
