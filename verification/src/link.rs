//! Connections that peers set up to this node, and connections that this node sets up to its peers.
use vstd::prelude::*;

use crate::config::PeerConfig;
use crate::connection;
use crate::connection::{ConnectionInput, ConnectionStep, InputView, StepView};
use crate::message;
use crate::message::AmpMessage;
use crate::number;
use crate::peer;
use crate::peer::{ManagerView, PeerManager, PeerView};
use crate::roundtrip;
use crate::strmap;
use crate::strmap::StrMap;
use crate::text;

verus! {

/// How far an inbound connection has come.
#[derive(Debug)]
pub enum InboundPhase {
    /// The peer has not made itself known yet.
    AwaitHello,
    /// Another connection owns the send channel for the peer: this one only reads.
    ReadOnly { name: String },
    /// This connection reads, and owns the send channel for the peer.
    Both { name: String, channel: u64 },
    /// The connection is at its end.
    Ended,
}

/// What an [`InboundPhase`] says.
pub enum PhaseView {
    AwaitHello,
    ReadOnly { name: Seq<char> },
    Both { name: Seq<char>, channel: u64 },
    Ended,
}

impl View for InboundPhase {
    type V = PhaseView;

    open spec fn view(&self) -> PhaseView {
        match *self {
            InboundPhase::AwaitHello => PhaseView::AwaitHello,
            InboundPhase::ReadOnly { name } => PhaseView::ReadOnly { name: name@ },
            InboundPhase::Both { name, channel } => PhaseView::Both { name: name@, channel },
            InboundPhase::Ended => PhaseView::Ended,
        }
    }
}

/// A connection that a peer set up.
#[derive(Debug)]
pub struct InboundPeer {
    pub ip: String,
    pub phase: InboundPhase,
}

/// What an inbound connection does, where it then is, and what is then known of the peers.
pub struct InboundNext {
    pub phase: PhaseView,
    pub peers: Map<Seq<char>, PeerView>,
    pub step: StepView,
}

/// The peer of an inbound connection from `ip` makes itself known as `name`: unless another
/// connection owns the send channel for it, this one is given `channel`.
pub open spec fn identified(
    ip: Seq<char>,
    peers: Map<Seq<char>, PeerView>,
    name: Seq<char>,
    now: u64,
    channel: u64,
) -> InboundNext {
    if peer::has_channel(peers, name) {
        InboundNext {
            phase: PhaseView::ReadOnly { name },
            peers: peer::with_seen(peers, name, now),
            step: StepView::Continue,
        }
    } else {
        InboundNext {
            phase: PhaseView::Both { name, channel },
            peers: peer::with_connected(peers, name, ip, now, channel),
            step: StepView::Continue,
        }
    }
}

/// What a connection that only reads does about an input.
pub open spec fn read_step(input: InputView) -> StepView {
    match input {
        InputView::Outgoing(_) => StepView::Continue,
        InputView::KeepaliveDue => StepView::Continue,
        InputView::WriteFailed => StepView::Continue,
        _ => connection::next_step(input),
    }
}

/// What an inbound connection from `ip` does about an input at `now`. It is given `channel` where
/// it comes to own a send channel.
pub open spec fn inbound_next(
    ip: Seq<char>,
    phase: PhaseView,
    peers: Map<Seq<char>, PeerView>,
    input: InputView,
    now: u64,
    channel: u64,
) -> InboundNext {
    match phase {
        PhaseView::AwaitHello => match input {
            InputView::Text(raw) => match peer::hello_in(raw) {
                Some(name) => identified(ip, peers, name, now, channel),
                None => InboundNext { phase, peers, step: StepView::Continue },
            },
            InputView::Close => InboundNext {
                phase: PhaseView::Ended,
                peers,
                step: StepView::Stop,
            },
            InputView::StreamEnded => InboundNext {
                phase: PhaseView::Ended,
                peers,
                step: StepView::Stop,
            },
            _ => InboundNext { phase, peers, step: StepView::Continue },
        },
        PhaseView::ReadOnly { name } => {
            let step = read_step(input);
            InboundNext {
                phase: if step == StepView::Stop {
                    PhaseView::Ended
                } else {
                    phase
                },
                peers,
                step,
            }
        },
        PhaseView::Both { name, channel: own } => {
            let step = connection::next_step(input);
            if step == StepView::Stop {
                InboundNext {
                    phase: PhaseView::Ended,
                    peers: peer::with_released(peers, name, own),
                    step,
                }
            } else {
                InboundNext { phase, peers, step }
            }
        },
        PhaseView::Ended => InboundNext { phase, peers, step: StepView::Stop },
    }
}

/// The name under which a text frame makes a node known, if it does.
pub fn read_hello(raw: &str) -> (r: Option<String>)
    ensures
        (match r {
            Some(name) => Some(name@),
            None => None,
        }) == peer::hello_in(raw@),
{
    match AmpMessage::parse(raw) {
        None => None,
        Some(m) => {
            let greets: bool = match m.command_name() {
                Some(name) => text::str_eq(name, "hello"),
                None => false,
            };
            if !greets {
                return None;
            }
            match m.from_addr() {
                None => None,
                Some(from) => text::without_suffix(from, ".amp"),
            }
        },
    }
}

impl InboundPeer {
    /// The peer of this connection makes itself known as `name`.
    fn identify(&mut self, manager: &mut PeerManager, name: String, now: u64, channel: u64)
        ensures
            ({
                let next = identified(old(self).ip@, old(manager)@.peers, name@, now, channel);
                &&& final(self).ip == old(self).ip
                &&& final(self).phase@ == next.phase
                &&& final(manager)@ == (ManagerView { peers: next.peers, ..old(manager)@ })
            }),
    {
        if manager.has_outbound(name.as_str()) {
            manager.seen(name.as_str(), now);
            self.phase = InboundPhase::ReadOnly { name };
        } else {
            manager.connected(name.as_str(), self.ip.as_str(), now, channel);
            self.phase = InboundPhase::Both { name, channel };
        }
    }

    /// What this connection does about an input at `now`.
    ///
    /// It first waits for the peer to make itself known. If another connection already owns the
    /// send channel for the peer, it then only reads. Otherwise it becomes fully bidirectional: it
    /// owns `channel`, until it ends or another connection takes over.
    pub fn on_input(
        &mut self,
        manager: &mut PeerManager,
        input: ConnectionInput,
        now: u64,
        channel: u64,
    ) -> (r: ConnectionStep)
        ensures
            ({
                let next = inbound_next(
                    old(self).ip@,
                    old(self).phase@,
                    old(manager)@.peers,
                    input@,
                    now,
                    channel,
                );
                &&& r@ == next.step
                &&& final(self).ip == old(self).ip
                &&& final(self).phase@ == next.phase
                &&& final(manager)@ == (ManagerView { peers: next.peers, ..old(manager)@ })
            }),
    {
        let mut phase: InboundPhase = InboundPhase::Ended;
        std::mem::swap(&mut phase, &mut self.phase);
        match phase {
            InboundPhase::AwaitHello => match input {
                ConnectionInput::Text(raw) => {
                    match read_hello(raw.as_str()) {
                        Some(name) => {
                            self.identify(manager, name, now, channel);
                        },
                        None => {
                            self.phase = InboundPhase::AwaitHello;
                        },
                    }
                    ConnectionStep::Continue
                },
                ConnectionInput::Close => ConnectionStep::Stop,
                ConnectionInput::StreamEnded => ConnectionStep::Stop,
                _ => {
                    self.phase = InboundPhase::AwaitHello;
                    ConnectionStep::Continue
                },
            },
            InboundPhase::ReadOnly { name } => {
                let step: ConnectionStep = match input {
                    ConnectionInput::Outgoing(_) => ConnectionStep::Continue,
                    ConnectionInput::KeepaliveDue => ConnectionStep::Continue,
                    ConnectionInput::WriteFailed => ConnectionStep::Continue,
                    _ => connection::connection_step(input),
                };
                if !matches!(step, ConnectionStep::Stop) {
                    self.phase = InboundPhase::ReadOnly { name };
                }
                step
            },
            InboundPhase::Both { name, channel: own } => {
                let step: ConnectionStep = connection::connection_step(input);
                if matches!(step, ConnectionStep::Stop) {
                    manager.released(name.as_str(), own);
                } else {
                    self.phase = InboundPhase::Both { name, channel: own };
                }
                step
            },
            InboundPhase::Ended => ConnectionStep::Stop,
        }
    }
}

/// A connection that this node sets up, again and again.
#[derive(Debug)]
pub struct OutboundPeer {
    pub name: String,
    pub wg_ip: String,
    pub port: u16,
    /// Seconds before the next attempt.
    pub backoff: u64,
}

/// What an [`OutboundPeer`] says.
pub struct OutboundView {
    pub name: Seq<char>,
    pub wg_ip: Seq<char>,
    pub port: u16,
    pub backoff: u64,
}

impl View for OutboundPeer {
    type V = OutboundView;

    open spec fn view(&self) -> OutboundView {
        OutboundView {
            name: self.name@,
            wg_ip: self.wg_ip@,
            port: self.port,
            backoff: self.backoff,
        }
    }
}

/// Where a peer accepts connections.
pub open spec fn mesh_url(wg_ip: Seq<char>, port: u16) -> Seq<char> {
    "ws://"@ + wg_ip + ":"@ + number::digits(port as nat) + "/mesh"@
}

/// The wait behind a wait of `backoff` seconds.
pub open spec fn longer_wait(backoff: nat) -> nat {
    if 2 * backoff > peer::MAX_BACKOFF {
        peer::MAX_BACKOFF as nat
    } else {
        2 * backoff
    }
}

/// The wait behind the `n`-th failure in a row, counted from zero.
pub open spec fn wait(n: nat) -> nat
    decreases n,
{
    if n == 0 {
        peer::INITIAL_BACKOFF as nat
    } else {
        longer_wait(wait((n - 1) as nat))
    }
}

/// The connection to set up to the configured peer `name`.
pub open spec fn outbound_to(name: Seq<char>, wg_ip: Seq<char>, port: u16) -> OutboundView {
    OutboundView { name, wg_ip, port, backoff: peer::INITIAL_BACKOFF }
}

impl OutboundPeer {
    /// Where the peer accepts connections.
    pub fn url(&self) -> (r: String)
        ensures
            r@ == mesh_url(self.wg_ip@, self.port),
    {
        let mut r: String = "ws://".to_owned();
        r.append(self.wg_ip.as_str());
        r.append(":");
        r.append(number::decimal_text(self.port as u64).as_str());
        r.append("/mesh");
        r
    }

    /// The connection is up, and sends over `channel`. Gives the message to send first.
    pub fn connected(&mut self, manager: &mut PeerManager, now: u64, channel: u64) -> (r: AmpMessage)
        ensures
            final(self)@ == (OutboundView { backoff: peer::INITIAL_BACKOFF, ..old(self)@ }),
            final(manager)@ == (ManagerView {
                peers: peer::with_connected(
                    old(manager)@.peers,
                    old(self)@.name,
                    old(self)@.wg_ip,
                    now,
                    channel,
                ),
                ..old(manager)@
            }),
            r@ == peer::hello(old(manager)@.node_name, old(manager)@.node_wg_ip),
    {
        self.backoff = peer::INITIAL_BACKOFF;
        manager.connected(self.name.as_str(), self.wg_ip.as_str(), now, channel);
        manager.hello()
    }

    /// The connection is down.
    pub fn disconnected(&self, manager: &mut PeerManager)
        ensures
            final(manager)@ == (ManagerView {
                peers: peer::with_disconnected(old(manager)@.peers, self@.name),
                ..old(manager)@
            }),
    {
        manager.disconnected(self.name.as_str());
    }

    /// The seconds to wait before the next attempt; the wait behind it is twice as long, up to a
    /// bound.
    pub fn next_wait(&mut self) -> (r: u64)
        ensures
            r == old(self).backoff,
            final(self)@ == (OutboundView {
                backoff: longer_wait(old(self).backoff as nat) as u64,
                ..old(self)@
            }),
    {
        let r: u64 = self.backoff;
        self.backoff = if r > peer::MAX_BACKOFF / 2 {
            peer::MAX_BACKOFF
        } else {
            2 * r
        };
        r
    }
}

impl PeerManager {
    /// The connection that the peer at `peer_ip` has set up.
    pub fn handle_inbound(&self, peer_ip: &str) -> (r: InboundPeer)
        ensures
            r.ip@ == peer_ip@,
            r.phase@ == PhaseView::AwaitHello,
    {
        InboundPeer { ip: peer_ip.to_owned(), phase: InboundPhase::AwaitHello }
    }

    /// The outbound connections to set up: one to each configured peer.
    pub fn connect_to_peers(&self, peer_configs: &StrMap<PeerConfig>) -> (r: Vec<OutboundPeer>)
        ensures
            r.len() == peer_configs.entries().len(),
            forall|i: int|
                0 <= i < r.len() ==> (#[trigger] r[i])@ == outbound_to(
                    peer_configs.entries()[i].0,
                    peer_configs.entries()[i].1@.wg_ip,
                    peer_configs.entries()[i].1@.port,
                ),
    {
        let mut r: Vec<OutboundPeer> = Vec::new();
        let n: usize = peer_configs.len();
        let mut i: usize = 0;
        while i < n
            invariant
                i <= n,
                n == peer_configs.entries().len(),
                r.len() == i,
                forall|j: int|
                    0 <= j < i ==> (#[trigger] r[j])@ == outbound_to(
                        peer_configs.entries()[j].0,
                        peer_configs.entries()[j].1@.wg_ip,
                        peer_configs.entries()[j].1@.port,
                    ),
            decreases n - i,
        {
            let config: &PeerConfig = peer_configs.value(i);
            r.push(
                OutboundPeer {
                    name: peer_configs.key(i).clone(),
                    wg_ip: config.wg_ip.clone(),
                    port: config.port,
                    backoff: peer::INITIAL_BACKOFF,
                },
            );
            i += 1;
        }
        r
    }
}

/// Attempts to connect follow each other after 1, 2, 4, 8, 16 seconds, and then every 30.
pub proof fn law_waits(n: nat)
    ensures
        wait(0) == 1,
        wait(1) == 2,
        wait(2) == 4,
        wait(3) == 8,
        wait(4) == 16,
        n >= 5 ==> wait(n) == 30,
    decreases n,
{
    reveal_with_fuel(wait, 6);
    if n > 5 {
        law_waits((n - 1) as nat);
    }
}

/// The headers of a hello survive the wire.
proof fn lemma_hello_is_plain(node_name: Seq<char>, wg_ip: Seq<char>)
    requires
        !node_name.contains('\n'),
        node_name.len() > 0 ==> !text::is_white_space(node_name[0]),
        !wg_ip.contains('\n'),
    ensures
        roundtrip::are_plain_headers(peer::hello(node_name, wg_ip).headers),
{
    reveal(roundtrip::is_plain_header);
    reveal_strlit("amp");
    reveal_strlit("1");
    reveal_strlit("type");
    reveal_strlit("event");
    reveal_strlit("from");
    reveal_strlit(".amp");
    reveal_strlit("command");
    reveal_strlit("hello");
    reveal_strlit("args");
    reveal_strlit("{\"wg_ip\":\"");
    reveal_strlit("\"}");
    let from = node_name + ".amp"@;
    let args = "{\"wg_ip\":\""@ + wg_ip + "\"}"@;
    let hs = peer::hello(node_name, wg_ip).headers;
    assert(!from.contains('\n')) by {
        assert forall|i: int| 0 <= i < from.len() implies from[i] != '\n' by {
            if i < node_name.len() {
                assert(node_name.contains(node_name[i]));
            }
        }
    }
    assert(!args.contains('\n')) by {
        assert forall|i: int| 0 <= i < args.len() implies args[i] != '\n' by {
            if 10 <= i < 10 + wg_ip.len() {
                assert(args[i] == wg_ip[i - 10]);
                assert(wg_ip.contains(wg_ip[i - 10]));
            }
        }
    }
    assert forall|i: int| 0 <= i < hs.len() implies roundtrip::is_plain_header(
        #[trigger] hs[i],
    ) by {
        let k = hs[i].0;
        assert forall|j: int| !text::occurs_at(k, message::separator(), j) by {
            if text::occurs_at(k, message::separator(), j) {
                assert(k.subrange(j, j + 2)[0] == ':');
            }
        }
    }
}

/// A node that reads another's hello knows its name, whatever its address is.
pub proof fn law_hello_identifies(node_name: Seq<char>, wg_ip: Seq<char>)
    requires
        !node_name.contains('\n'),
        node_name.len() > 0 ==> !text::is_white_space(node_name[0]),
        !wg_ip.contains('\n'),
    ensures
        peer::hello_in(message::wire(peer::hello(node_name, wg_ip))) == Some(node_name),
{
    let h = peer::hello(node_name, wg_ip);
    peer::lemma_hello_keys(node_name, wg_ip);
    lemma_hello_is_plain(node_name, wg_ip);
    roundtrip::law_write_read(h);
    assert(message::wire_body(h.body) =~= h.body);
    assert(h.headers[2].0 == "from"@);
    assert(h.headers[3].0 == "command"@);
    strmap::lemma_slot(h.headers, 2);
    strmap::lemma_slot(h.headers, 3);
    let from = node_name + ".amp"@;
    assert(from.subrange(from.len() - ".amp"@.len(), from.len() as int) =~= ".amp"@);
    assert(from.take(from.len() - ".amp"@.len()) =~= node_name);
}

/// A peer that makes itself known over a connection of its own can be sent to from then on.
pub proof fn law_identified_can_be_sent_to(
    ip: Seq<char>,
    peers: Map<Seq<char>, PeerView>,
    raw: Seq<char>,
    now: u64,
    channel: u64,
)
    ensures
        match peer::hello_in(raw) {
            Some(name) => {
                let next = inbound_next(
                    ip,
                    PhaseView::AwaitHello,
                    peers,
                    InputView::Text(raw),
                    now,
                    channel,
                );
                peer::channel_for(next.peers, name) is Ok && peer::has_channel(next.peers, name)
                    && next.peers[name].last_seen == Some(now)
            },
            None => true,
        },
{
}

/// A connection that ends while it owns the send channel for its peer leaves the peer known, as not
/// connected; sending to it then fails.
pub proof fn law_end_disconnects(
    ip: Seq<char>,
    peers: Map<Seq<char>, PeerView>,
    name: Seq<char>,
    input: InputView,
    now: u64,
    own: u64,
    channel: u64,
)
    requires
        peers.contains_key(name),
        peers[name].outbound == Some(own),
        connection::next_step(input) == StepView::Stop,
    ensures
        ({
            let next = inbound_next(
                ip,
                PhaseView::Both { name, channel: own },
                peers,
                input,
                now,
                channel,
            );
            &&& next.peers.contains_key(name)
            &&& !next.peers[name].connected
            &&& next.peers[name].last_seen == peers[name].last_seen
            &&& peer::channel_for(next.peers, name) == Err::<u64, Seq<char>>(
                "peer "@ + name + " not connected"@,
            )
        }),
{
}

/// What an inbound connection does changes nothing for a peer whose send channel belongs to
/// another connection, but for when it was last seen.
pub proof fn law_takeover(
    ip: Seq<char>,
    phase: PhaseView,
    peers: Map<Seq<char>, PeerView>,
    input: InputView,
    now: u64,
    channel: u64,
    name: Seq<char>,
)
    requires
        peer::has_channel(peers, name),
        phase matches PhaseView::Both { name: n, channel: own } ==> n != name
            || peers[name].outbound != Some(own),
    ensures
        ({
            let next = inbound_next(ip, phase, peers, input, now, channel);
            &&& next.peers.contains_key(name)
            &&& next.peers[name] == peers[name] || next.peers[name] == (PeerView {
                last_seen: Some(now),
                ..peers[name]
            })
            &&& peer::channel_for(next.peers, name) == peer::channel_for(peers, name)
        }),
{
}

/// In every phase behind the hello, with or without the send channel, a message that the peer sends
/// is delivered as it is, unless it is a keepalive; the connection goes on as before, and nothing
/// changes for any peer.
pub proof fn law_messages_are_delivered(
    ip: Seq<char>,
    phase: PhaseView,
    peers: Map<Seq<char>, PeerView>,
    raw: Seq<char>,
    now: u64,
    channel: u64,
)
    requires
        phase is ReadOnly || phase is Both,
        message::parse_message(raw) is Some,
    ensures
        ({
            let next = inbound_next(ip, phase, peers, InputView::Text(raw), now, channel);
            let m = message::parse_message(raw)->Some_0;
            &&& m.headers.len() > 0 || m.body.len() > 0 ==> next.step == StepView::Deliver(m)
            &&& m.headers.len() == 0 && m.body.len() == 0 ==> next.step == StepView::Continue
            &&& next.phase == phase
            &&& next.peers == peers
        }),
{
}

/// Before the hello nothing is delivered and nothing is written: a frame that is no hello keeps the
/// connection waiting, and a closed connection ends without a trace.
pub proof fn law_nothing_comes_before_the_hello(
    ip: Seq<char>,
    peers: Map<Seq<char>, PeerView>,
    input: InputView,
    now: u64,
    channel: u64,
)
    ensures
        ({
            let next = inbound_next(ip, PhaseView::AwaitHello, peers, input, now, channel);
            &&& next.step is Continue || next.step is Stop
            &&& next.step is Stop <==> input is Close || input is StreamEnded
            &&& next.step is Stop <==> next.phase is Ended
            &&& next.phase is ReadOnly || next.phase is Both <==> (input matches InputView::Text(raw)
                && peer::hello_in(raw) is Some)
            &&& next.phase is AwaitHello || next.phase is Ended ==> next.peers == peers
        }),
{
}

/// A peer that makes itself known is given the send channel exactly where no other connection owns
/// one for it. Either way it is known under its own name, was seen now, and every other peer stays
/// what it was.
pub proof fn law_hello_opens_the_connection(
    ip: Seq<char>,
    peers: Map<Seq<char>, PeerView>,
    raw: Seq<char>,
    now: u64,
    channel: u64,
    other: Seq<char>,
)
    requires
        peer::hello_in(raw) is Some,
    ensures
        ({
            let name = peer::hello_in(raw)->0;
            let taken = peers.contains_key(name) && peers[name].connected && peers[name].outbound
                is Some;
            let next = inbound_next(
                ip,
                PhaseView::AwaitHello,
                peers,
                InputView::Text(raw),
                now,
                channel,
            );
            &&& next.step is Continue
            &&& taken ==> next.phase == (PhaseView::ReadOnly { name }) && next.peers[name].outbound
                == peers[name].outbound && next.peers[name].wg_ip == peers[name].wg_ip
            &&& !taken ==> next.phase == (PhaseView::Both { name, channel })
                && next.peers[name].outbound == Some(channel) && next.peers[name].wg_ip == ip
            &&& next.peers.contains_key(name)
            &&& next.peers[name].connected
            &&& next.peers[name].last_seen == Some(now)
            &&& other != name ==> next.peers.contains_key(other) == peers.contains_key(other)
            &&& other != name && peers.contains_key(other) ==> next.peers[other] == peers[other]
        }),
{
}

/// Behind the hello a connection ends with the peer's stream, with a failure to read, when the peer
/// stays silent and when nobody takes messages any more. What only reads never writes, and no
/// failure to write ends it; what owns the send channel writes what this node has for the peer.
pub proof fn law_connections_behind_the_hello(
    ip: Seq<char>,
    phase: PhaseView,
    peers: Map<Seq<char>, PeerView>,
    input: InputView,
    now: u64,
    channel: u64,
)
    requires
        phase is ReadOnly || phase is Both,
    ensures
        ({
            let next = inbound_next(ip, phase, peers, input, now, channel);
            &&& next.step is Stop <==> {
                ||| input is Close
                ||| input is StreamEnded
                ||| input is ReadError
                ||| input is ReadTimeout
                ||| input is InboxClosed
                ||| input is WriteFailed && phase is Both
            }
            &&& next.step is Stop ==> next.phase is Ended
            &&& next.step !is Stop ==> next.phase == phase && next.peers == peers
            &&& next.step is Write <==> phase is Both && (input is Outgoing || input
                is KeepaliveDue)
            &&& phase is Both ==> (input matches InputView::Outgoing(m) ==> next.step
                == StepView::Write(message::wire(m)))
            &&& phase is Both && input is KeepaliveDue ==> next.step == StepView::Write(
                message::EMPTY_MESSAGE@,
            )
            &&& phase is ReadOnly ==> next.peers == peers
        }),
{
    roundtrip::law_empty_message();
}

/// A connection that has ended stays so, and changes nothing.
pub proof fn law_ended_stays_ended(
    ip: Seq<char>,
    peers: Map<Seq<char>, PeerView>,
    input: InputView,
    now: u64,
    channel: u64,
)
    ensures
        ({
            let next = inbound_next(ip, PhaseView::Ended, peers, input, now, channel);
            &&& next.step is Stop
            &&& next.phase is Ended
            &&& next.peers == peers
        }),
{
}

/// When a connection ends, only the peer that it belongs to can become one that is not connected.
pub proof fn law_end_touches_its_own_peer(
    ip: Seq<char>,
    peers: Map<Seq<char>, PeerView>,
    name: Seq<char>,
    own: u64,
    input: InputView,
    now: u64,
    channel: u64,
    other: Seq<char>,
)
    ensures
        ({
            let next = inbound_next(
                ip,
                PhaseView::Both { name, channel: own },
                peers,
                input,
                now,
                channel,
            );
            &&& next.peers.contains_key(other) == peers.contains_key(other)
            &&& other != name && peers.contains_key(other) ==> next.peers[other] == peers[other]
        }),
{
}

/// A peer is reached at its own address and port: the port is told in decimal.
pub proof fn law_mesh_url(wg_ip: Seq<char>, port: u16)
    ensures
        exists|d: Seq<char>|
            number::decimal(d) == port && d.len() > 0 && (forall|i: int|
                0 <= i < d.len() ==> number::is_digit(#[trigger] d[i])) && mesh_url(wg_ip, port)
                == #[trigger] ("ws://"@ + wg_ip + ":"@ + d + "/mesh"@),
{
    let d = number::digits(port as nat);
    number::law_digits_spell(port as nat);
    assert(mesh_url(wg_ip, port) == "ws://"@ + wg_ip + ":"@ + d + "/mesh"@);
}

/// A wait is never longer than the bound, and twice the one before where that is within the bound.
pub proof fn law_longer_wait(backoff: nat)
    ensures
        longer_wait(backoff) <= 30,
        2 * backoff <= 30 ==> longer_wait(backoff) == 2 * backoff,
        2 * backoff > 30 ==> longer_wait(backoff) == 30,
        wait(0) == 1,
        forall|n: nat| wait(n + 1) == longer_wait(#[trigger] wait(n)),
{
}

/// The connection to a configured peer goes to that peer, and waits a second before it is tried
/// again for the first time.
pub proof fn law_outbound(name: Seq<char>, wg_ip: Seq<char>, port: u16)
    ensures
        outbound_to(name, wg_ip, port).name == name,
        outbound_to(name, wg_ip, port).wg_ip == wg_ip,
        outbound_to(name, wg_ip, port).port == port,
        outbound_to(name, wg_ip, port).backoff == wait(0),
{
}

/// How far a connection has come is told with its peer and its channel.
pub proof fn law_phases_say_how_far(phase: InboundPhase, peer: OutboundPeer)
    ensures
        match phase {
            InboundPhase::AwaitHello => phase@ is AwaitHello,
            InboundPhase::ReadOnly { name } => phase@ == (PhaseView::ReadOnly { name: name@ }),
            InboundPhase::Both { name, channel } => phase@ == (PhaseView::Both {
                name: name@,
                channel,
            }),
            InboundPhase::Ended => phase@ is Ended,
        },
        peer@.name == peer.name@ && peer@.wg_ip == peer.wg_ip@ && peer@.port == peer.port
            && peer@.backoff == peer.backoff,
{
}

} // verus!
