//! The bridge between the mesh and the local application.
use vstd::prelude::*;

use crate::address;
use crate::address::AmpAddress;
use crate::connection;
use crate::message;
use crate::message::{AmpMessage, MessageView};
use crate::peer;
use crate::peer::{PeerManager, PeerStatus, PeerView, Route};
use crate::relay::{PacketView, RelayPacket};
use crate::roundtrip;
use crate::sfu;
use crate::sfu::{CommandView, SfuCommand, SfuHandle};
use crate::strmap;
use crate::text;

verus! {

/// What the bridge knows of its node.
#[derive(Debug)]
pub struct BridgeState {
    pub node_name: String,
    pub sfu_enabled: bool,
    /// When the daemon started, in nanoseconds.
    pub start_time: u64,
    /// Whether the application is connected by a WebSocket.
    pub ws_bridge: bool,
}

/// The address of the SFU of the node `node_name` that a message asks something of.
pub open spec fn local_sfu(m: MessageView, sfu_enabled: bool, node_name: Seq<char>) -> Option<
    Seq<char>,
> {
    if sfu_enabled && sfu::asks_sfu(m) {
        match message::header(m, "to"@) {
            Some(to) => match address::parse_address(to) {
                Some(a) => if a.node == node_name {
                    Some(to)
                } else {
                    None
                },
                None => None,
            },
            None => None,
        }
    } else {
        None
    }
}

/// The address of the SFU of the node `node_name` that a message asks something of.
fn find_local_sfu(msg: &AmpMessage, sfu_enabled: bool, node_name: &str) -> (r: Option<String>)
    ensures
        text::text_option(r) == local_sfu(msg@, sfu_enabled, node_name@),
{
    if !sfu_enabled || !SfuHandle::is_sfu_command(msg) {
        return None;
    }
    match msg.to_addr() {
        Some(to) => match AmpAddress::parse(to) {
            Some(addr) => if addr.is_for_node(node_name) {
                Some(to.to_owned())
            } else {
                None
            },
            None => None,
        },
        None => None,
    }
}

/// The command for the SFU of the node `node_name` in a message, where `relayed` is the packet that
/// its body spells, if it spells one. An offer without an `id` gets `default_id`.
pub open spec fn local_command(
    m: MessageView,
    sfu_enabled: bool,
    node_name: Seq<char>,
    default_id: Seq<char>,
    relayed: Option<PacketView>,
) -> Option<CommandView> {
    match local_sfu(m, sfu_enabled, node_name) {
        Some(to) => if message::header(m, "command"@) == Some("sdp-offer"@) {
            Some(sfu::offer_in(m, default_id, to))
        } else {
            sfu::command_in(m, relayed)
        },
        None => None,
    }
}

/// What a packet says, if there is one.
pub open spec fn packet_view(packet: Option<RelayPacket>) -> Option<PacketView> {
    match packet {
        Some(p) => Some(p@),
        None => None,
    }
}

/// The command for the SFU of the node `node_name` in a message.
fn find_local_command(
    msg: &AmpMessage,
    sfu_enabled: bool,
    node_name: &str,
    default_id: &str,
    relayed: Option<RelayPacket>,
) -> (r: Option<SfuCommand>)
    ensures
        (match r {
            Some(c) => Some(c@),
            None => None,
        }) == local_command(msg@, sfu_enabled, node_name@, default_id@, packet_view(relayed)),
{
    match find_local_sfu(msg, sfu_enabled, node_name) {
        Some(to) => {
            let is_offer: bool = match msg.command_name() {
                Some(name) => text::str_eq(name, "sdp-offer"),
                None => false,
            };
            if is_offer {
                Some(sfu::read_offer(msg, default_id, to.as_str()))
            } else {
                SfuHandle::parse_command(msg, relayed)
            }
        },
        None => None,
    }
}

/// An answer to the application.
#[derive(Debug)]
pub struct Reply {
    pub status: u16,
    /// The value of the header `x-mesh-id`, if the answer has one.
    pub mesh_id: Option<String>,
    pub body: String,
}

/// What a [`Reply`] says.
pub struct ReplyView {
    pub status: u16,
    pub mesh_id: Option<Seq<char>>,
    pub body: Seq<char>,
}

impl View for Reply {
    type V = ReplyView;

    open spec fn view(&self) -> ReplyView {
        ReplyView {
            status: self.status,
            mesh_id: text::text_option(self.mesh_id),
            body: self.body@,
        }
    }
}

/// What is done about a message of the application.
#[derive(Debug)]
pub enum SendAction {
    /// Answer at once.
    Answer(Reply),
    /// Hand a command to the SFU of this node.
    Sfu { msg_id: String, command: SfuCommand },
    /// Put the message into the channel of a peer.
    Peer { msg_id: String, route: Route, msg: AmpMessage },
}

/// What a [`SendAction`] says.
pub enum ActionView {
    Answer(ReplyView),
    Sfu { msg_id: Seq<char>, command: CommandView },
    Peer { msg_id: Seq<char>, node: Seq<char>, channel: u64, msg: MessageView },
}

impl View for SendAction {
    type V = ActionView;

    open spec fn view(&self) -> ActionView {
        match *self {
            SendAction::Answer(reply) => ActionView::Answer(reply@),
            SendAction::Sfu { msg_id, command } => ActionView::Sfu {
                msg_id: msg_id@,
                command: command@,
            },
            SendAction::Peer { msg_id, route, msg } => ActionView::Peer {
                msg_id: msg_id@,
                node: route.node@,
                channel: route.channel,
                msg: msg@,
            },
        }
    }
}

/// The answer to what is no message.
pub open spec fn invalid_reply() -> ReplyView {
    ReplyView { status: 400, mesh_id: None, body: "invalid AMP message"@ }
}

/// The answer to a message for the SFU, once the SFU has or has not taken it.
pub open spec fn sfu_reply(msg_id: Seq<char>, outcome: Result<(), Seq<char>>) -> ReplyView {
    match outcome {
        Ok(()) => ReplyView { status: 202, mesh_id: Some(msg_id), body: "accepted (sfu)"@ },
        Err(e) => ReplyView { status: 500, mesh_id: None, body: "sfu error: "@ + e },
    }
}

/// The answer to a message for a peer, once it was or was not sent.
pub open spec fn route_reply(msg_id: Seq<char>, outcome: Result<(), Seq<char>>) -> ReplyView {
    match outcome {
        Ok(()) => ReplyView { status: 202, mesh_id: Some(msg_id), body: "accepted"@ },
        Err(e) => ReplyView { status: 502, mesh_id: None, body: "route failed: "@ + e },
    }
}

/// What is done about a message that the application posts, where `relayed` is the packet that the
/// message's body spells, if it spells one.
pub open spec fn send_action(
    peers: Map<Seq<char>, PeerView>,
    sfu_enabled: bool,
    node_name: Seq<char>,
    body: Seq<char>,
    relayed: Option<PacketView>,
) -> ActionView {
    match message::parse_message(body) {
        None => ActionView::Answer(invalid_reply()),
        Some(m) => {
            let msg_id = sfu::header_or(m, "id"@, "none"@);
            match local_command(m, sfu_enabled, node_name, "none"@, relayed) {
                Some(command) => ActionView::Sfu { msg_id, command },
                None => match peer::route_of(peers, m) {
                    Ok((node, channel)) => ActionView::Peer { msg_id, node, channel, msg: m },
                    Err(e) => ActionView::Answer(route_reply(msg_id, Err(e))),
                },
            }
        },
    }
}

/// A header's value, or `default`.
fn owned_header(msg: &AmpMessage, key: &str, default: &str) -> (r: String)
    ensures
        r@ == sfu::header_or(msg@, key@, default@),
{
    match msg.get(key) {
        Some(v) => v.to_owned(),
        None => default.to_owned(),
    }
}

/// The answer to a message for the SFU, once the SFU has or has not taken it.
pub fn reply_of_sfu(msg_id: String, outcome: Result<(), String>) -> (r: Reply)
    ensures
        r@ == sfu_reply(msg_id@, text::text_error(outcome)),
{
    match outcome {
        Ok(()) => Reply {
            status: 202,
            mesh_id: Some(msg_id),
            body: "accepted (sfu)".to_owned(),
        },
        Err(e) => Reply {
            status: 500,
            mesh_id: None,
            body: text::concat("sfu error: ", e.as_str()),
        },
    }
}

/// The answer to a message for a peer, once it was or was not sent.
pub fn reply_of_route(msg_id: String, outcome: Result<(), String>) -> (r: Reply)
    ensures
        r@ == route_reply(msg_id@, text::text_error(outcome)),
{
    match outcome {
        Ok(()) => Reply { status: 202, mesh_id: Some(msg_id), body: "accepted".to_owned() },
        Err(e) => Reply {
            status: 502,
            mesh_id: None,
            body: text::concat("route failed: ", e.as_str()),
        },
    }
}

/// The daemon as it is reported.
#[derive(Debug)]
pub struct BridgeStatus {
    pub node: String,
    pub uptime_secs: u64,
    pub peers: Vec<PeerStatus>,
    pub sfu_enabled: bool,
    pub ws_bridge: bool,
}

impl BridgeState {
    /// The application sends an AMP message to route to a peer, or to the SFU of this node.
    /// `relayed` is the packet that the message's body spells in JSON; only `relay-data` looks at
    /// it.
    pub fn handle_send(
        &self,
        manager: &PeerManager,
        body: &str,
        relayed: Option<RelayPacket>,
    ) -> (r: SendAction)
        ensures
            r@ == send_action(
                manager@.peers,
                self.sfu_enabled,
                self.node_name@,
                body@,
                packet_view(relayed),
            ),
    {
        let msg: AmpMessage = match AmpMessage::parse(body) {
            Some(m) => m,
            None => {
                return SendAction::Answer(
                    Reply { status: 400, mesh_id: None, body: "invalid AMP message".to_owned() },
                );
            },
        };
        let msg_id: String = owned_header(&msg, "id", "none");
        match find_local_command(
            &msg,
            self.sfu_enabled,
            self.node_name.as_str(),
            "none",
            relayed,
        ) {
            Some(command) => SendAction::Sfu { msg_id, command },
            None => match manager.route(&msg) {
                Ok(route) => SendAction::Peer { msg_id, route, msg },
                Err(e) => SendAction::Answer(reply_of_route(msg_id, Err(e))),
            },
        }
    }

    /// Daemon and peer status.
    pub fn handle_status(&self, manager: &PeerManager, now: u64) -> (r: BridgeStatus)
        ensures
            r.node@ == self.node_name@,
            r.uptime_secs == peer::secs_since(self.start_time, now),
            r.sfu_enabled == self.sfu_enabled,
            r.ws_bridge == self.ws_bridge,
            forall|i: int|
                0 <= i < r.peers.len() ==> manager@.peers.contains_key((#[trigger] r.peers[i]).name@)
                    && r.peers[i]@ == peer::status_of(manager@.peers[r.peers[i].name@], now),
            forall|i: int, j: int|
                0 <= i < j < r.peers.len() ==> r.peers[i].name@ != r.peers[j].name@,
            forall|k: Seq<char>| #[trigger]
                manager@.peers.contains_key(k) ==> exists|i: int|
                    0 <= i < r.peers.len() && (#[trigger] r.peers[i]).name@ == k,
    {
        let uptime_secs: u64 = if now < self.start_time {
            0
        } else {
            (now - self.start_time) / peer::SECOND
        };
        BridgeStatus {
            node: self.node_name.clone(),
            uptime_secs,
            peers: manager.status(now),
            sfu_enabled: self.sfu_enabled,
            ws_bridge: self.ws_bridge,
        }
    }

    /// The application asks to connect by a WebSocket: only one may at a time. Gives whether this
    /// one may.
    pub fn attach(&mut self) -> (r: bool)
        ensures
            r == !old(self).ws_bridge,
            *final(self) == (BridgeState { ws_bridge: true, ..*old(self) }),
    {
        let r: bool = !self.ws_bridge;
        self.ws_bridge = true;
        r
    }

    /// The application's WebSocket is closed.
    pub fn detach(&mut self)
        ensures
            *final(self) == (BridgeState { ws_bridge: false, ..*old(self) }),
    {
        self.ws_bridge = false;
    }
}

/// State of a WebSocket connection with the application.
#[derive(Debug)]
pub struct WsBridgeState {
    pub node_name: String,
    pub sfu_enabled: bool,
}

/// What can happen on the WebSocket connection with the application.
#[derive(Debug)]
pub enum BridgeInput {
    /// A message of a peer came in.
    Inbound { peer: String, msg: AmpMessage },
    /// No message of a peer will come in any more.
    InboxClosed,
    /// The application sent a text frame.
    Text(String),
    /// The application sent a close frame.
    Close,
    /// The application sent a frame of another sort.
    OtherFrame,
    /// Reading failed.
    ReadError,
    /// The application's stream is at its end.
    StreamEnded,
    /// A frame could not be written.
    WriteFailed,
}

/// What a [`BridgeInput`] says.
pub enum BridgeInputView {
    Inbound { peer: Seq<char>, msg: MessageView },
    InboxClosed,
    Text(Seq<char>),
    Close,
    OtherFrame,
    ReadError,
    StreamEnded,
    WriteFailed,
}

impl View for BridgeInput {
    type V = BridgeInputView;

    open spec fn view(&self) -> BridgeInputView {
        match *self {
            BridgeInput::Inbound { peer, msg } => BridgeInputView::Inbound {
                peer: peer@,
                msg: msg@,
            },
            BridgeInput::InboxClosed => BridgeInputView::InboxClosed,
            BridgeInput::Text(s) => BridgeInputView::Text(s@),
            BridgeInput::Close => BridgeInputView::Close,
            BridgeInput::OtherFrame => BridgeInputView::OtherFrame,
            BridgeInput::ReadError => BridgeInputView::ReadError,
            BridgeInput::StreamEnded => BridgeInputView::StreamEnded,
            BridgeInput::WriteFailed => BridgeInputView::WriteFailed,
        }
    }
}

/// What is done about a [`BridgeInput`].
#[derive(Debug)]
pub enum BridgeStep {
    /// Wait for the next input.
    Continue,
    /// The application sent what is no message: warn, and wait.
    Invalid,
    /// Write a text frame to the application, and wait.
    Write(String),
    /// Hand a command to the SFU of this node, and wait.
    Sfu(SfuCommand),
    /// Put a message into the channel of a peer, and wait.
    Peer { route: Route, msg: AmpMessage },
    /// A message goes nowhere: warn why, and wait.
    Unroutable(String),
    /// End the connection.
    Stop,
}

/// What a [`BridgeStep`] says.
pub enum BridgeStepView {
    Continue,
    Invalid,
    Write(Seq<char>),
    Sfu(CommandView),
    Peer { node: Seq<char>, channel: u64, msg: MessageView },
    Unroutable(Seq<char>),
    Stop,
}

impl View for BridgeStep {
    type V = BridgeStepView;

    open spec fn view(&self) -> BridgeStepView {
        match *self {
            BridgeStep::Continue => BridgeStepView::Continue,
            BridgeStep::Invalid => BridgeStepView::Invalid,
            BridgeStep::Write(s) => BridgeStepView::Write(s@),
            BridgeStep::Sfu(command) => BridgeStepView::Sfu(command@),
            BridgeStep::Peer { route, msg } => BridgeStepView::Peer {
                node: route.node@,
                channel: route.channel,
                msg: msg@,
            },
            BridgeStep::Unroutable(e) => BridgeStepView::Unroutable(e@),
            BridgeStep::Stop => BridgeStepView::Stop,
        }
    }
}

/// A peer's message as the application gets it: with the peer's name in a header of its own.
pub open spec fn forwarded(peer: Seq<char>, m: MessageView) -> MessageView {
    MessageView { headers: strmap::put(m.headers, "x-mesh-peer"@, peer), body: m.body }
}

/// What is done about a message of the application, where `relayed` is the packet that its body
/// spells, if it spells one.
pub open spec fn outbound_step(
    peers: Map<Seq<char>, PeerView>,
    sfu_enabled: bool,
    node_name: Seq<char>,
    m: MessageView,
    relayed: Option<PacketView>,
) -> BridgeStepView {
    match local_command(m, sfu_enabled, node_name, "unknown"@, relayed) {
        Some(command) => BridgeStepView::Sfu(command),
        None => match peer::route_of(peers, m) {
            Ok((node, channel)) => BridgeStepView::Peer { node, channel, msg: m },
            Err(e) => BridgeStepView::Unroutable(e),
        },
    }
}

/// What is done about an input of the WebSocket connection with the application, where `relayed` is
/// the packet that the body of a message of the application spells, if it spells one.
pub open spec fn bridge_next(
    peers: Map<Seq<char>, PeerView>,
    sfu_enabled: bool,
    node_name: Seq<char>,
    input: BridgeInputView,
    relayed: Option<PacketView>,
) -> BridgeStepView {
    match input {
        BridgeInputView::Inbound { peer, msg } => if connection::is_empty_view(msg) {
            BridgeStepView::Continue
        } else {
            BridgeStepView::Write(message::wire(forwarded(peer, msg)))
        },
        BridgeInputView::Text(raw) => match message::parse_message(raw) {
            Some(m) => outbound_step(peers, sfu_enabled, node_name, m, relayed),
            None => BridgeStepView::Invalid,
        },
        BridgeInputView::OtherFrame => BridgeStepView::Continue,
        _ => BridgeStepView::Stop,
    }
}

impl WsBridgeState {
    /// Route an outbound AMP message of the application to peers or SFU. `relayed` is the packet
    /// that the message's body spells in JSON; only `relay-data` looks at it.
    pub fn route_outbound(
        &self,
        manager: &PeerManager,
        msg: AmpMessage,
        relayed: Option<RelayPacket>,
    ) -> (r: BridgeStep)
        ensures
            r@ == outbound_step(
                manager@.peers,
                self.sfu_enabled,
                self.node_name@,
                msg@,
                packet_view(relayed),
            ),
    {
        match find_local_command(
            &msg,
            self.sfu_enabled,
            self.node_name.as_str(),
            "unknown",
            relayed,
        ) {
            Some(command) => BridgeStep::Sfu(command),
            None => match manager.route(&msg) {
                Ok(route) => BridgeStep::Peer { route, msg },
                Err(e) => BridgeStep::Unroutable(e),
            },
        }
    }

    /// What is done about an input.
    ///
    /// - Inbound: peer AMP messages are forwarded to the application
    /// - Outbound: the application sends AMP messages, routed to peers or SFU
    ///
    /// `relayed` is the packet that the body of a message of the application spells in JSON.
    pub fn on_input(
        &self,
        manager: &PeerManager,
        input: BridgeInput,
        relayed: Option<RelayPacket>,
    ) -> (r: BridgeStep)
        ensures
            r@ == bridge_next(
                manager@.peers,
                self.sfu_enabled,
                self.node_name@,
                input@,
                packet_view(relayed),
            ),
    {
        match input {
            BridgeInput::Inbound { peer, msg } => {
                if msg.is_empty_message() {
                    return BridgeStep::Continue;
                }
                let ghost before = msg@;
                let ghost name = peer@;
                let mut headers = msg.headers;
                let ghost es = headers.entries();
                headers.insert("x-mesh-peer".to_owned(), peer);
                let out: AmpMessage = AmpMessage { headers, body: msg.body };
                proof {
                    message::lemma_text_pairs(es, "x-mesh-peer"@);
                    assert(out@ == forwarded(name, before));
                }
                BridgeStep::Write(out.to_wire())
            },
            BridgeInput::Text(raw) => match AmpMessage::parse(raw.as_str()) {
                Some(msg) => self.route_outbound(manager, msg, relayed),
                None => BridgeStep::Invalid,
            },
            BridgeInput::OtherFrame => BridgeStep::Continue,
            BridgeInput::InboxClosed => BridgeStep::Stop,
            BridgeInput::Close => BridgeStep::Stop,
            BridgeInput::ReadError => BridgeStep::Stop,
            BridgeInput::StreamEnded => BridgeStep::Stop,
            BridgeInput::WriteFailed => BridgeStep::Stop,
        }
    }
}

/// A message posted to the application.
#[derive(Debug)]
pub struct CallbackRequest {
    pub content_type: String,
    /// The value of the header `x-mesh-from`.
    pub from: String,
    /// The value of the header `x-mesh-peer`.
    pub peer: String,
    pub body: String,
}

/// What a [`CallbackRequest`] says.
pub struct CallbackView {
    pub content_type: Seq<char>,
    pub from: Seq<char>,
    pub peer: Seq<char>,
    pub body: Seq<char>,
}

impl View for CallbackRequest {
    type V = CallbackView;

    open spec fn view(&self) -> CallbackView {
        CallbackView {
            content_type: self.content_type@,
            from: self.from@,
            peer: self.peer@,
            body: self.body@,
        }
    }
}

/// A peer's message as it is posted to the application.
pub open spec fn posted(peer: Seq<char>, m: MessageView) -> CallbackView {
    CallbackView {
        content_type: "text/x-amp"@,
        from: sfu::header_or(m, "from"@, "unknown"@),
        peer,
        body: message::wire(m),
    }
}

/// A peer's message as it is posted to the application.
pub fn callback_request(peer_name: &str, msg: &AmpMessage) -> (r: CallbackRequest)
    ensures
        r@ == posted(peer_name@, msg@),
{
    CallbackRequest {
        content_type: "text/x-amp".to_owned(),
        from: owned_header(msg, "from", "unknown"),
        peer: peer_name.to_owned(),
        body: msg.to_wire(),
    }
}

/// What came of a post.
#[derive(Debug)]
pub enum CallbackOutcome {
    /// It could not be sent, for a reason.
    Failed(String),
    /// It was answered with a status code, and the status in words.
    Answered { code: u16, status: String },
}

/// What came of a post: the application takes a message with a status code from 200 to 299.
pub open spec fn callback_result_of(outcome: CallbackOutcome) -> Result<(), Seq<char>> {
    match outcome {
        CallbackOutcome::Failed(e) => Err("callback POST failed: "@ + e@),
        CallbackOutcome::Answered { code, status } => if 200 <= code < 300 {
            Ok(())
        } else {
            Err("callback returned "@ + status@)
        },
    }
}

/// Whether the application took a message, and why it did not.
pub fn callback_result(outcome: CallbackOutcome) -> (r: Result<(), String>)
    ensures
        text::text_error(r) == callback_result_of(outcome),
{
    match outcome {
        CallbackOutcome::Failed(e) => Err(text::concat("callback POST failed: ", e.as_str())),
        CallbackOutcome::Answered { code, status } => if 200 <= code && code < 300 {
            Ok(())
        } else {
            Err(text::concat("callback returned ", status.as_str()))
        },
    }
}

/// Where a message of a peer goes.
#[derive(Debug)]
pub enum InboundAction {
    /// A keepalive goes nowhere.
    Ignore,
    /// It goes to the application's WebSocket.
    Bridge { peer: String, msg: AmpMessage },
    /// It is posted to the application.
    Post(CallbackRequest),
}

/// What an [`InboundAction`] says.
pub enum InboundActionView {
    Ignore,
    Bridge { peer: Seq<char>, msg: MessageView },
    Post(CallbackView),
}

impl View for InboundAction {
    type V = InboundActionView;

    open spec fn view(&self) -> InboundActionView {
        match *self {
            InboundAction::Ignore => InboundActionView::Ignore,
            InboundAction::Bridge { peer, msg } => InboundActionView::Bridge {
                peer: peer@,
                msg: msg@,
            },
            InboundAction::Post(request) => InboundActionView::Post(request@),
        }
    }
}

/// Where a message of a peer goes: keepalives nowhere, others to the application's WebSocket if it
/// is connected, and by a post if not.
pub open spec fn inbound_action(ws_bridge: bool, peer: Seq<char>, m: MessageView) -> InboundActionView {
    if connection::is_empty_view(m) {
        InboundActionView::Ignore
    } else if ws_bridge {
        InboundActionView::Bridge { peer, msg: m }
    } else {
        InboundActionView::Post(posted(peer, m))
    }
}

/// Where a message of a peer goes.
pub fn forward_inbound(ws_bridge: bool, peer: String, msg: AmpMessage) -> (r: InboundAction)
    ensures
        r@ == inbound_action(ws_bridge, peer@, msg@),
{
    if msg.is_empty_message() {
        InboundAction::Ignore
    } else if ws_bridge {
        InboundAction::Bridge { peer, msg }
    } else {
        InboundAction::Post(callback_request(peer.as_str(), &msg))
    }
}

/// The header `x-mesh-peer` survives the wire where the peer's name does.
proof fn lemma_forwarded_is_plain(peer: Seq<char>, m: MessageView)
    requires
        strmap::distinct_keys(m.headers),
        roundtrip::are_plain_headers(m.headers),
        text::is_trimmed(peer),
        !peer.contains('\n'),
    ensures
        strmap::distinct_keys(forwarded(peer, m).headers),
        roundtrip::are_plain_headers(forwarded(peer, m).headers),
        message::header(forwarded(peer, m), "x-mesh-peer"@) == Some(peer),
        forall|k: Seq<char>|
            k != "x-mesh-peer"@ ==> message::header(forwarded(peer, m), k) == #[trigger] message::header(
                m,
                k,
            ),
{
    let key = "x-mesh-peer"@;
    let hs = strmap::put(m.headers, key, peer);
    strmap::lemma_put(m.headers, key, peer);
    reveal_strlit("x-mesh-peer");
    assert(roundtrip::is_plain_header((key, peer))) by {
        reveal(roundtrip::is_plain_header);
        assert forall|j: int| !text::occurs_at(key, message::separator(), j) by {
            if text::occurs_at(key, message::separator(), j) {
                assert(key.subrange(j, j + 2)[0] == ':');
            }
        }
    }
    assert forall|i: int| 0 <= i < hs.len() implies roundtrip::is_plain_header(
        #[trigger] hs[i],
    ) by {
        if hs[i].0 != key {
            assert(hs[i] == m.headers[i]);
        }
    }
    assert(strmap::as_map(hs) == strmap::as_map(m.headers).insert(key, peer));
    assert(strmap::as_map(hs).contains_key(key));
    assert forall|k: Seq<char>| k != key implies message::header(forwarded(peer, m), k)
        == #[trigger] message::header(m, k) by {
        assert(strmap::as_map(hs).contains_key(k) == strmap::as_map(m.headers).contains_key(k));
        if strmap::has_key(hs, k) {
            assert(strmap::as_map(hs)[k] == strmap::as_map(m.headers)[k]);
        }
    }
}

/// The application reads from a forwarded message which peer it came from, and its body and other
/// headers as the peer sent them.
pub proof fn law_forwarded_names_peer(
    peers: Map<Seq<char>, PeerView>,
    sfu_enabled: bool,
    node_name: Seq<char>,
    peer: Seq<char>,
    m: MessageView,
    relayed: Option<PacketView>,
)
    requires
        strmap::distinct_keys(m.headers),
        roundtrip::are_plain_headers(m.headers),
        !connection::is_empty_view(m),
        text::is_trimmed(peer),
        !peer.contains('\n'),
    ensures
        match bridge_next(
            peers,
            sfu_enabled,
            node_name,
            BridgeInputView::Inbound { peer, msg: m },
            relayed,
        ) {
            BridgeStepView::Write(raw) => match message::parse_message(raw) {
                Some(got) => {
                    &&& message::header(got, "x-mesh-peer"@) == Some(peer)
                    &&& got.body == message::wire_body(m.body)
                    &&& forall|k: Seq<char>|
                        k != "x-mesh-peer"@ ==> #[trigger] message::header(got, k)
                            == message::header(m, k)
                },
                None => false,
            },
            _ => false,
        },
{
    let f = forwarded(peer, m);
    lemma_forwarded_is_plain(peer, m);
    assert(f.headers.len() > 0);
    roundtrip::law_write_read(f);
    let got = message::parse_message(message::wire(f))->Some_0;
    assert forall|k: Seq<char>| #[trigger] message::header(got, k) == message::header(f, k) by {}
    assert forall|k: Seq<char>| k != "x-mesh-peer"@ implies #[trigger] message::header(got, k)
        == message::header(m, k) by {
        assert(message::header(got, k) == message::header(f, k));
    }
}

/// A message that is refused is answered with a status of 400 or above and no identifier; one that
/// is accepted with 202 and its identifier.
pub proof fn law_replies(msg_id: Seq<char>, outcome: Result<(), Seq<char>>)
    ensures
        invalid_reply().status >= 400 && invalid_reply().mesh_id is None,
        outcome is Ok ==> sfu_reply(msg_id, outcome).status == 202 && route_reply(
            msg_id,
            outcome,
        ).status == 202 && sfu_reply(msg_id, outcome).mesh_id == Some(msg_id) && route_reply(
            msg_id,
            outcome,
        ).mesh_id == Some(msg_id),
        outcome is Err ==> sfu_reply(msg_id, outcome).status >= 400 && route_reply(
            msg_id,
            outcome,
        ).status >= 400 && sfu_reply(msg_id, outcome).mesh_id is None && route_reply(
            msg_id,
            outcome,
        ).mesh_id is None,
{
}

/// A message to a connected peer is sent there, unless it asks something of an SFU of this node.
pub proof fn law_connected_peer_is_sent_to(
    peers: Map<Seq<char>, PeerView>,
    sfu_enabled: bool,
    node_name: Seq<char>,
    body: Seq<char>,
    relayed: Option<PacketView>,
)
    ensures
        match message::parse_message(body) {
            Some(m) => match peer::target_of(m) {
                Ok(node) => peer::has_channel(peers, node) && !(sfu_enabled && sfu::asks_sfu(m)
                    && node == node_name) ==> (send_action(
                    peers,
                    sfu_enabled,
                    node_name,
                    body,
                    relayed,
                ) matches ActionView::Peer { node: n, channel, msg, .. } && n == node
                    && peers[node].outbound == Some(channel) && msg == m),
                Err(_) => true,
            },
            None => true,
        },
{
}

/// A relay command for the SFU of this node reaches it as the SFU reads it, whether the application
/// posts it or sends it by its WebSocket.
pub proof fn law_relay_commands_reach_sfu(
    peers: Map<Seq<char>, PeerView>,
    node_name: Seq<char>,
    body: Seq<char>,
    relayed: Option<PacketView>,
)
    ensures
        match message::parse_message(body) {
            Some(m) => match sfu::command_in(m, relayed) {
                Some(command) => local_sfu(m, true, node_name) is Some && message::header(
                    m,
                    "command"@,
                ) != Some("sdp-offer"@) ==> {
                    &&& send_action(peers, true, node_name, body, relayed) == (ActionView::Sfu {
                        msg_id: sfu::header_or(m, "id"@, "none"@),
                        command,
                    })
                    &&& bridge_next(peers, true, node_name, BridgeInputView::Text(body), relayed)
                        == BridgeStepView::Sfu(command)
                },
                None => true,
            },
            None => true,
        },
{
}

/// A message that the application posts is answered at once exactly where it is no message, or goes
/// nowhere: then with 400, or with 502 and the reason.
pub proof fn law_refused_messages_are_answered(
    peers: Map<Seq<char>, PeerView>,
    sfu_enabled: bool,
    node_name: Seq<char>,
    body: Seq<char>,
    relayed: Option<PacketView>,
)
    ensures
        ({
            let action = send_action(peers, sfu_enabled, node_name, body, relayed);
            &&& message::parse_message(body) is None ==> (action matches ActionView::Answer(reply)
                && reply.status == 400 && reply.mesh_id is None && reply.body
                == "invalid AMP message"@)
            &&& message::parse_message(body) matches Some(m) ==> {
                &&& action is Answer ==> peer::route_of(peers, m) is Err
                &&& action matches ActionView::Answer(reply) ==> reply.status == 502
                    && reply.mesh_id is None && reply.body == "route failed: "@ + peer::route_of(
                    peers,
                    m,
                )->Err_0
                &&& peer::route_of(peers, m) is Err && !(sfu_enabled && sfu::asks_sfu(m))
                    ==> action is Answer
            }
        }),
{
}

/// What the application sends goes to the SFU of this node exactly where there is one, the message
/// holds a command for it, and its address names this node. It is then told the message's
/// identifier, and an offer keeps its text, its room, its role and its sender.
pub proof fn law_commands_for_this_node(
    peers: Map<Seq<char>, PeerView>,
    sfu_enabled: bool,
    node_name: Seq<char>,
    body: Seq<char>,
    relayed: Option<PacketView>,
)
    requires
        message::parse_message(body) is Some,
    ensures
        ({
            let m = message::parse_message(body)->Some_0;
            let mine = sfu_enabled && peer::target_of(m) == Ok::<Seq<char>, Seq<char>>(node_name)
                && sfu::command_in(m, relayed) is Some;
            let action = send_action(peers, sfu_enabled, node_name, body, relayed);
            let step = bridge_next(
                peers,
                sfu_enabled,
                node_name,
                BridgeInputView::Text(body),
                relayed,
            );
            &&& action is Sfu <==> mine
            &&& step is Sfu <==> mine
            &&& action matches ActionView::Sfu { msg_id, command } ==> {
                &&& message::header(m, "id"@) matches Some(id) ==> msg_id == id
                &&& message::header(m, "id"@) is None ==> msg_id == "none"@
                &&& command matches CommandView::SdpOffer {
                    request_id,
                    from_addr,
                    to_addr,
                    sdp,
                    room,
                    role,
                } ==> {
                    &&& request_id == msg_id
                    &&& message::header(m, "from"@) matches Some(from) ==> from_addr == from
                    &&& message::header(m, "from"@) is None ==> from_addr == "unknown"@
                    &&& message::header(m, "to"@) == Some(to_addr)
                    &&& sdp == m.body
                    &&& room == message::header(m, "room"@)
                    &&& role == message::header(m, "role"@)
                }
                &&& message::header(m, "command"@) == Some("sdp-offer"@) <==> command is SdpOffer
            }
            &&& step matches BridgeStepView::Sfu(command) ==> {
                &&& command matches CommandView::SdpOffer {
                    request_id,
                    from_addr,
                    to_addr,
                    sdp,
                    room,
                    role,
                } ==> {
                    &&& message::header(m, "id"@) matches Some(id) ==> request_id == id
                    &&& message::header(m, "id"@) is None ==> request_id == "unknown"@
                    &&& message::header(m, "from"@) matches Some(from) ==> from_addr == from
                    &&& message::header(m, "from"@) is None ==> from_addr == "unknown"@
                    &&& message::header(m, "to"@) == Some(to_addr)
                    &&& sdp == m.body
                    &&& room == message::header(m, "room"@)
                    &&& role == message::header(m, "role"@)
                }
                &&& message::header(m, "command"@) == Some("sdp-offer"@) <==> command is SdpOffer
            }
        }),
{
    let m = message::parse_message(body)->Some_0;
    sfu::law_commands_say_what_was_sent(m, relayed);
    sfu::law_commands_need_what_they_say(m, relayed);
}

/// A message for another node goes to that node as it is, posted or by the WebSocket, and a message
/// that goes nowhere by the WebSocket is named as such with the reason.
pub proof fn law_messages_for_peers_are_sent_as_they_are(
    peers: Map<Seq<char>, PeerView>,
    sfu_enabled: bool,
    node_name: Seq<char>,
    body: Seq<char>,
    relayed: Option<PacketView>,
)
    requires
        message::parse_message(body) is Some,
    ensures
        ({
            let m = message::parse_message(body)->Some_0;
            let action = send_action(peers, sfu_enabled, node_name, body, relayed);
            let step = bridge_next(
                peers,
                sfu_enabled,
                node_name,
                BridgeInputView::Text(body),
                relayed,
            );
            &&& action matches ActionView::Peer { node, channel, msg, msg_id } ==> msg == m
                && peer::route_of(peers, m) == Ok::<(Seq<char>, u64), Seq<char>>((node, channel))
                && (message::header(m, "id"@) matches Some(id) ==> msg_id == id) && (message::header(
                m,
                "id"@,
            ) is None ==> msg_id == "none"@)
            &&& step matches BridgeStepView::Peer { node, channel, msg } ==> msg == m
                && peer::route_of(peers, m) == Ok::<(Seq<char>, u64), Seq<char>>((node, channel))
            &&& step is Peer || step is Sfu || step is Unroutable
            &&& step matches BridgeStepView::Unroutable(e) ==> peer::route_of(peers, m) == Err::<
                (Seq<char>, u64),
                Seq<char>,
            >(e)
            &&& step is Peer <==> action is Peer
        }),
{
}

/// The WebSocket connection with the application ends with the application's stream, with a failure
/// to read or write, and when no message of a peer will come in any more. What is no message is told
/// as such, and nothing but a peer's message is written.
pub proof fn law_bridge_ends(
    peers: Map<Seq<char>, PeerView>,
    sfu_enabled: bool,
    node_name: Seq<char>,
    input: BridgeInputView,
    relayed: Option<PacketView>,
)
    ensures
        ({
            let step = bridge_next(peers, sfu_enabled, node_name, input, relayed);
            &&& step is Stop <==> {
                ||| input is Close
                ||| input is StreamEnded
                ||| input is ReadError
                ||| input is WriteFailed
                ||| input is InboxClosed
            }
            &&& step is Invalid <==> (input matches BridgeInputView::Text(raw)
                && message::parse_message(raw) is None)
            &&& step is Write <==> (input matches BridgeInputView::Inbound { msg, .. } && (
            msg.headers.len() > 0 || msg.body.len() > 0))
            &&& step is Continue <==> input is OtherFrame || (input matches
                BridgeInputView::Inbound { msg, .. } && msg.headers.len() == 0 && msg.body.len()
                == 0)
        }),
{
}

/// No message of a peer is lost: the application gets it over its WebSocket while that is connected,
/// and by a post otherwise, on the wire as it is, with its sender and the peer that it came from.
/// Only keepalives are kept back.
pub proof fn law_messages_reach_the_application(ws_bridge: bool, peer: Seq<char>, m: MessageView)
    ensures
        ({
            let action = inbound_action(ws_bridge, peer, m);
            &&& action is Ignore <==> m.headers.len() == 0 && m.body.len() == 0
            &&& action !is Ignore ==> (action is Bridge <==> ws_bridge)
            &&& action matches InboundActionView::Bridge { peer: p, msg } ==> p == peer && msg == m
            &&& action matches InboundActionView::Post(post) ==> {
                &&& post.peer == peer
                &&& post.body == message::wire(m)
                &&& post.content_type == "text/x-amp"@
                &&& message::header(m, "from"@) matches Some(from) ==> post.from == from
                &&& message::header(m, "from"@) is None ==> post.from == "unknown"@
            }
        }),
{
}

/// The application has taken a post exactly where it answers with a status from 200 to 299;
/// otherwise the reason is told.
pub proof fn law_posts_are_taken(code: u16, status: String, e: String)
    ensures
        callback_result_of(CallbackOutcome::Answered { code, status }) is Ok <==> 200 <= code
            <= 299,
        callback_result_of(CallbackOutcome::Answered { code, status }) is Err
            ==> callback_result_of(CallbackOutcome::Answered { code, status }) == Err::<
            (),
            Seq<char>,
        >("callback returned "@ + status@),
        callback_result_of(CallbackOutcome::Failed(e)) == Err::<(), Seq<char>>(
            "callback POST failed: "@ + e@,
        ),
{
}

/// What became of a message is told in the answer: where it was accepted, or why it was not.
pub proof fn law_replies_tell_why(msg_id: Seq<char>, e: Seq<char>)
    ensures
        sfu_reply(msg_id, Ok(())).body == "accepted (sfu)"@,
        route_reply(msg_id, Ok(())).body == "accepted"@,
        sfu_reply(msg_id, Err(e)).body == "sfu error: "@ + e && sfu_reply(msg_id, Err(e)).status
            == 500,
        route_reply(msg_id, Err(e)).body == "route failed: "@ + e && route_reply(
            msg_id,
            Err(e),
        ).status == 502,
        invalid_reply().status == 400,
{
}

/// An answer to the application says its status, its identifier and its body.
pub proof fn law_replies_say_what_they_hold(reply: Reply, post: CallbackRequest)
    ensures
        reply@.status == reply.status,
        reply@.mesh_id == text::text_option(reply.mesh_id),
        reply@.body == reply.body@,
        post@.content_type == post.content_type@,
        post@.from == post.from@,
        post@.peer == post.peer@,
        post@.body == post.body@,
{
}

/// What is done about a message is told with all that it takes.
pub proof fn law_actions_say_what_is_done(
    action: SendAction,
    step: BridgeStep,
    inbound: InboundAction,
)
    ensures
        match action {
            SendAction::Answer(reply) => action@ == ActionView::Answer(reply@),
            SendAction::Sfu { msg_id, command } => action@ == (ActionView::Sfu {
                msg_id: msg_id@,
                command: command@,
            }),
            SendAction::Peer { msg_id, route, msg } => action@ == (ActionView::Peer {
                msg_id: msg_id@,
                node: route.node@,
                channel: route.channel,
                msg: msg@,
            }),
        },
        match step {
            BridgeStep::Continue => step@ is Continue,
            BridgeStep::Invalid => step@ is Invalid,
            BridgeStep::Write(s) => step@ == BridgeStepView::Write(s@),
            BridgeStep::Sfu(command) => step@ == BridgeStepView::Sfu(command@),
            BridgeStep::Peer { route, msg } => step@ == (BridgeStepView::Peer {
                node: route.node@,
                channel: route.channel,
                msg: msg@,
            }),
            BridgeStep::Unroutable(e) => step@ == BridgeStepView::Unroutable(e@),
            BridgeStep::Stop => step@ is Stop,
        },
        match inbound {
            InboundAction::Ignore => inbound@ is Ignore,
            InboundAction::Bridge { peer, msg } => inbound@ == (InboundActionView::Bridge {
                peer: peer@,
                msg: msg@,
            }),
            InboundAction::Post(post) => inbound@ == InboundActionView::Post(post@),
        },
{
}

/// What happens on the WebSocket connection with the application is told apart.
pub proof fn law_bridge_inputs_say_what_happens(input: BridgeInput, packet: RelayPacket)
    ensures
        match input {
            BridgeInput::Inbound { peer, msg } => input@ == (BridgeInputView::Inbound {
                peer: peer@,
                msg: msg@,
            }),
            BridgeInput::InboxClosed => input@ is InboxClosed,
            BridgeInput::Text(s) => input@ == BridgeInputView::Text(s@),
            BridgeInput::Close => input@ is Close,
            BridgeInput::OtherFrame => input@ is OtherFrame,
            BridgeInput::ReadError => input@ is ReadError,
            BridgeInput::StreamEnded => input@ is StreamEnded,
            BridgeInput::WriteFailed => input@ is WriteFailed,
        },
        packet_view(Some(packet)) == Some(packet@),
        packet_view(None::<RelayPacket>) is None,
{
}

/// A peer's message is written to the application with the peer's name in a header of its own; its
/// body and every other header are as the peer sent them, whatever they hold.
pub proof fn law_forwarded_keeps_the_message(
    peers: Map<Seq<char>, PeerView>,
    sfu_enabled: bool,
    node_name: Seq<char>,
    peer: Seq<char>,
    m: MessageView,
    relayed: Option<PacketView>,
    k: Seq<char>,
)
    requires
        strmap::distinct_keys(m.headers),
        !connection::is_empty_view(m),
    ensures
        ({
            let f = forwarded(peer, m);
            &&& bridge_next(
                peers,
                sfu_enabled,
                node_name,
                BridgeInputView::Inbound { peer, msg: m },
                relayed,
            ) == BridgeStepView::Write(message::wire(f))
            &&& f.body == m.body
            &&& message::header(f, "x-mesh-peer"@) == Some(peer)
            &&& k != "x-mesh-peer"@ ==> message::header(f, k) == message::header(m, k)
            &&& message::header(m, "x-mesh-peer"@) is None ==> f.headers == m.headers.push(
                ("x-mesh-peer"@, peer),
            )
            &&& message::header(m, "x-mesh-peer"@) is Some ==> f.headers.len() == m.headers.len()
        }),
{
    let key = "x-mesh-peer"@;
    let hs = strmap::put(m.headers, key, peer);
    strmap::lemma_put(m.headers, key, peer);
    assert(strmap::as_map(hs) == strmap::as_map(m.headers).insert(key, peer));
    assert(strmap::as_map(hs).contains_key(key));
    assert(strmap::as_map(hs)[key] == peer);
    if k != key {
        assert(strmap::as_map(hs).contains_key(k) == strmap::as_map(m.headers).contains_key(k));
        if strmap::has_key(hs, k) {
            assert(strmap::as_map(hs)[k] == strmap::as_map(m.headers)[k]);
        }
    }
}

} // verus!
