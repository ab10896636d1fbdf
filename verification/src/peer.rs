//! The peers of this node: who they are, which of them can be sent to, and how connections to and
//! from them come and go.
use vstd::prelude::*;

use crate::address;
use crate::address::AmpAddress;
use crate::message;
use crate::message::{AmpMessage, MessageView};
use crate::strmap;
use crate::strmap::StrMap;
use crate::text;

verus! {

/// Seconds before the first attempt to connect again.
pub const INITIAL_BACKOFF: u64 = 1;

/// Seconds before an attempt to connect again, at most.
pub const MAX_BACKOFF: u64 = 30;

/// Nanoseconds in a second.
pub const SECOND: u64 = 1_000_000_000;

/// Live state of a peer connection.
///
/// Times are nanoseconds on a clock that starts with the daemon. A send channel is known by a
/// number of its own.
#[derive(Debug)]
pub struct PeerState {
    pub name: String,
    pub wg_ip: String,
    pub connected: bool,
    pub last_seen: Option<u64>,
    pub outbound: Option<u64>,
}

/// What a [`PeerState`] says.
pub struct PeerView {
    pub name: Seq<char>,
    pub wg_ip: Seq<char>,
    pub connected: bool,
    pub last_seen: Option<u64>,
    pub outbound: Option<u64>,
}

impl View for PeerState {
    type V = PeerView;

    open spec fn view(&self) -> PeerView {
        PeerView {
            name: self.name@,
            wg_ip: self.wg_ip@,
            connected: self.connected,
            last_seen: self.last_seen,
            outbound: self.outbound,
        }
    }
}

/// A peer as it is reported.
#[derive(Debug)]
pub struct PeerStatus {
    pub name: String,
    pub wg_ip: String,
    pub connected: bool,
    pub last_seen_secs: Option<u64>,
}

/// What a [`PeerStatus`] says.
pub struct StatusView {
    pub name: Seq<char>,
    pub wg_ip: Seq<char>,
    pub connected: bool,
    pub last_seen_secs: Option<u64>,
}

impl View for PeerStatus {
    type V = StatusView;

    open spec fn view(&self) -> StatusView {
        StatusView {
            name: self.name@,
            wg_ip: self.wg_ip@,
            connected: self.connected,
            last_seen_secs: self.last_seen_secs,
        }
    }
}

/// The whole seconds from `then` to `now`.
pub open spec fn secs_since(then: u64, now: u64) -> u64 {
    if now < then {
        0
    } else {
        (((now - then) as nat) / (SECOND as nat)) as u64
    }
}

/// A peer as it is reported at `now`.
pub open spec fn status_of(p: PeerView, now: u64) -> StatusView {
    StatusView {
        name: p.name,
        wg_ip: p.wg_ip,
        connected: p.connected,
        last_seen_secs: match p.last_seen {
            Some(then) => Some(secs_since(then, now)),
            None => None,
        },
    }
}

/// The peers with what they say.
pub open spec fn peer_views(peers: Map<Seq<char>, PeerState>) -> Map<Seq<char>, PeerView> {
    peers.map_values(|p: PeerState| p@)
}

/// Each peer is known by its name, and exactly a connected peer has a send channel.
pub open spec fn can_send_to_connected(peers: Map<Seq<char>, PeerView>) -> bool {
    forall|k: Seq<char>| #[trigger]
        peers.contains_key(k) ==> peers[k].name == k && (peers[k].connected
            == peers[k].outbound is Some)
}

/// The peers once a connection to `name` over `channel` is up.
pub open spec fn with_connected(
    peers: Map<Seq<char>, PeerView>,
    name: Seq<char>,
    wg_ip: Seq<char>,
    now: u64,
    channel: u64,
) -> Map<Seq<char>, PeerView> {
    peers.insert(
        name,
        PeerView { name, wg_ip, connected: true, last_seen: Some(now), outbound: Some(channel) },
    )
}

/// The peers once the connection to `name` is down.
pub open spec fn with_disconnected(
    peers: Map<Seq<char>, PeerView>,
    name: Seq<char>,
) -> Map<Seq<char>, PeerView> {
    if peers.contains_key(name) {
        peers.insert(name, PeerView { connected: false, outbound: None, ..peers[name] })
    } else {
        peers
    }
}

/// The peers once the connection from `name` that sends over `channel` is down: nothing changes for
/// a peer whose send channel belongs to another connection by then.
pub open spec fn with_released(
    peers: Map<Seq<char>, PeerView>,
    name: Seq<char>,
    channel: u64,
) -> Map<Seq<char>, PeerView> {
    if peers.contains_key(name) && peers[name].outbound == Some(channel) {
        with_disconnected(peers, name)
    } else {
        peers
    }
}

/// The peers once something was heard of `name`.
pub open spec fn with_seen(
    peers: Map<Seq<char>, PeerView>,
    name: Seq<char>,
    now: u64,
) -> Map<Seq<char>, PeerView> {
    if peers.contains_key(name) {
        peers.insert(name, PeerView { last_seen: Some(now), ..peers[name] })
    } else {
        peers
    }
}

/// A connection owns the send channel for `name`.
pub open spec fn has_channel(peers: Map<Seq<char>, PeerView>, name: Seq<char>) -> bool {
    peers.contains_key(name) && peers[name].connected && peers[name].outbound is Some
}

/// The send channel for `name`, or why there is none.
pub open spec fn channel_for(peers: Map<Seq<char>, PeerView>, name: Seq<char>) -> Result<
    u64,
    Seq<char>,
> {
    if !peers.contains_key(name) {
        Err("unknown peer: "@ + name)
    } else {
        match peers[name].outbound {
            Some(channel) => Ok(channel),
            None => Err("peer "@ + name + " not connected"@),
        }
    }
}

/// The node that a message is for, or why there is none.
pub open spec fn target_of(m: MessageView) -> Result<Seq<char>, Seq<char>> {
    match message::header(m, "to"@) {
        None => Err("message has no 'to' address"@),
        Some(to) => match address::parse_address(to) {
            None => Err("invalid address: "@ + to),
            Some(a) => Ok(a.node),
        },
    }
}

/// The node that a message goes to and the channel that it takes, or why it goes nowhere.
pub open spec fn route_of(peers: Map<Seq<char>, PeerView>, m: MessageView) -> Result<
    (Seq<char>, u64),
    Seq<char>,
> {
    match target_of(m) {
        Err(e) => Err(e),
        Ok(node) => match channel_for(peers, node) {
            Err(e) => Err(e),
            Ok(channel) => Ok((node, channel)),
        },
    }
}

/// The message by which a node makes itself known.
pub open spec fn hello(node_name: Seq<char>, wg_ip: Seq<char>) -> MessageView {
    MessageView {
        headers: seq![
            ("amp"@, "1"@),
            ("type"@, "event"@),
            ("from"@, node_name + ".amp"@),
            ("command"@, "hello"@),
            ("args"@, "{\"wg_ip\":\""@ + wg_ip + "\"}"@),
        ],
        body: Seq::empty(),
    }
}

/// The name under which a text frame makes a node known, if it does.
pub open spec fn hello_in(raw: Seq<char>) -> Option<Seq<char>> {
    match message::parse_message(raw) {
        None => None,
        Some(m) => if message::header(m, "command"@) == Some("hello"@) {
            match message::header(m, "from"@) {
                Some(from) => text::strip_suffix(from, ".amp"@),
                None => None,
            }
        } else {
            None
        },
    }
}

/// Where a message goes.
#[derive(Debug)]
pub struct Route {
    pub node: String,
    pub channel: u64,
}

/// Manages all peer connections.
#[derive(Debug)]
pub struct PeerManager {
    node_name: String,
    node_wg_ip: String,
    peers: StrMap<PeerState>,
}

/// What a [`PeerManager`] knows.
pub struct ManagerView {
    pub node_name: Seq<char>,
    pub node_wg_ip: Seq<char>,
    pub peers: Map<Seq<char>, PeerView>,
}

impl View for PeerManager {
    type V = ManagerView;

    closed spec fn view(&self) -> ManagerView {
        ManagerView {
            node_name: self.node_name@,
            node_wg_ip: self.node_wg_ip@,
            peers: peer_views(self.peers@),
        }
    }
}

impl PeerManager {
    #[verifier::type_invariant]
    spec fn is_valid(self) -> bool {
        can_send_to_connected(peer_views(self.peers@))
    }

    /// A manager of the node `node_name` that knows no peer.
    pub fn new(node_name: String, node_wg_ip: String) -> (r: PeerManager)
        ensures
            r@ == (ManagerView {
                node_name: node_name@,
                node_wg_ip: node_wg_ip@,
                peers: Map::empty(),
            }),
    {
        let peers: StrMap<PeerState> = StrMap::new();
        assert(peer_views(peers@) =~= Map::<Seq<char>, PeerView>::empty());
        PeerManager { node_name, node_wg_ip, peers }
    }

    /// Puts `state` in the place of what is known of its peer.
    fn put(&mut self, state: PeerState)
        requires
            state.connected == state.outbound is Some,
        ensures
            final(self)@ == (ManagerView {
                peers: old(self)@.peers.insert(state.name@, state@),
                ..old(self)@
            }),
    {
        proof {
            use_type_invariant(&*self);
        }
        let ghost before = self.peers@;
        let mut peers: StrMap<PeerState> = StrMap::new();
        assert(peer_views(peers@) =~= Map::<Seq<char>, PeerView>::empty());
        std::mem::swap(&mut peers, &mut self.peers);
        peers.insert(state.name.clone(), state);
        assert(peer_views(peers@) =~= peer_views(before).insert(state.name@, state@));
        self.peers = peers;
    }

    /// A connection to `name` is up, and sends over `channel`.
    pub fn connected(&mut self, name: &str, wg_ip: &str, now: u64, channel: u64)
        ensures
            final(self)@ == (ManagerView {
                peers: with_connected(old(self)@.peers, name@, wg_ip@, now, channel),
                ..old(self)@
            }),
    {
        self.put(
            PeerState {
                name: name.to_owned(),
                wg_ip: wg_ip.to_owned(),
                connected: true,
                last_seen: Some(now),
                outbound: Some(channel),
            },
        );
    }

    /// The connection to `name` is down.
    pub fn disconnected(&mut self, name: &str)
        ensures
            final(self)@ == (ManagerView {
                peers: with_disconnected(old(self)@.peers, name@),
                ..old(self)@
            }),
    {
        proof {
            use_type_invariant(&*self);
        }
        let known: Option<(String, Option<u64>)> = match self.peers.get(name) {
            Some(p) => Some((p.wg_ip.clone(), p.last_seen)),
            None => None,
        };
        if let Some((wg_ip, last_seen)) = known {
            assert(peer_views(self.peers@).contains_key(name@));
            self.put(
                PeerState {
                    name: name.to_owned(),
                    wg_ip,
                    connected: false,
                    last_seen,
                    outbound: None,
                },
            );
        }
    }

    /// The connection from `name` that sends over `channel` is down.
    ///
    /// Only clears what still belongs to that connection: another may have taken over.
    pub fn released(&mut self, name: &str, channel: u64)
        ensures
            final(self)@ == (ManagerView {
                peers: with_released(old(self)@.peers, name@, channel),
                ..old(self)@
            }),
    {
        let owned: bool = match self.peers.get(name) {
            Some(p) => match p.outbound {
                Some(c) => c == channel,
                None => false,
            },
            None => false,
        };
        if owned {
            self.disconnected(name);
        }
    }

    /// Something was heard of `name`.
    pub fn seen(&mut self, name: &str, now: u64)
        ensures
            final(self)@ == (ManagerView {
                peers: with_seen(old(self)@.peers, name@, now),
                ..old(self)@
            }),
    {
        proof {
            use_type_invariant(&*self);
        }
        let known: Option<(String, bool, Option<u64>)> = match self.peers.get(name) {
            Some(p) => Some((p.wg_ip.clone(), p.connected, p.outbound)),
            None => None,
        };
        if let Some((wg_ip, connected, outbound)) = known {
            assert(peer_views(self.peers@).contains_key(name@));
            self.put(
                PeerState {
                    name: name.to_owned(),
                    wg_ip,
                    connected,
                    last_seen: Some(now),
                    outbound,
                },
            );
        }
    }

    /// Whether a connection owns the send channel for `name`.
    pub fn has_outbound(&self, name: &str) -> (r: bool)
        ensures
            r == has_channel(self@.peers, name@),
    {
        match self.peers.get(name) {
            Some(p) => p.connected && p.outbound.is_some(),
            None => false,
        }
    }

    /// The channel over which a message to a specific peer is sent.
    ///
    /// There is one for every peer that is connected, whichever side set the connection up.
    pub fn send_to(&self, peer_name: &str) -> (r: Result<u64, String>)
        ensures
            text::text_error(r) == channel_for(self@.peers, peer_name@),
            r is Ok <==> has_channel(self@.peers, peer_name@),
    {
        proof {
            use_type_invariant(self);
        }
        match self.peers.get(peer_name) {
            Some(p) => {
                assert(peer_views(self.peers@).contains_key(peer_name@));
                match p.outbound {
                    Some(channel) => Ok(channel),
                    None => Err(
                        text::concat(text::concat("peer ", peer_name).as_str(), " not connected"),
                    ),
                }
            },
            None => Err(text::concat("unknown peer: ", peer_name)),
        }
    }

    /// What becomes of a message that was put into the channel for `peer_name`: a channel that
    /// nobody reads any more takes none.
    pub fn sent(peer_name: &str, taken: bool) -> (r: Result<(), String>)
        ensures
            text::text_error(r) == (if taken {
                Ok(())
            } else {
                Err("send channel closed for "@ + peer_name@)
            }),
    {
        if taken {
            Ok(())
        } else {
            Err(text::concat("send channel closed for ", peer_name))
        }
    }

    /// Route a message by its `to:` address.
    pub fn route(&self, msg: &AmpMessage) -> (r: Result<Route, String>)
        ensures
            (match r {
                Ok(route) => Ok((route.node@, route.channel)),
                Err(e) => Err(e@),
            }) == route_of(self@.peers, msg@),
    {
        let to: &str = match msg.to_addr() {
            Some(to) => to,
            None => {
                return Err("message has no 'to' address".to_owned());
            },
        };
        match AmpAddress::parse(to) {
            None => Err(text::concat("invalid address: ", to)),
            Some(addr) => match self.send_to(addr.node.as_str()) {
                Ok(channel) => Ok(Route { node: addr.node, channel }),
                Err(e) => Err(e),
            },
        }
    }

    /// Get status of all peers.
    pub fn status(&self, now: u64) -> (r: Vec<PeerStatus>)
        ensures
            forall|i: int|
                0 <= i < r.len() ==> self@.peers.contains_key((#[trigger] r[i]).name@) && r[i]@
                    == status_of(self@.peers[r[i].name@], now),
            forall|i: int, j: int| 0 <= i < j < r.len() ==> r[i].name@ != r[j].name@,
            forall|k: Seq<char>| #[trigger]
                self@.peers.contains_key(k) ==> exists|i: int|
                    0 <= i < r.len() && (#[trigger] r[i]).name@ == k,
            forall|i: int|
                0 <= i < r.len() ==> (#[trigger] r[i]).connected == has_channel(
                    self@.peers,
                    r[i].name@,
                ),
    {
        proof {
            use_type_invariant(self);
        }
        let ghost es = self.peers.entries();
        let ghost known = self@.peers;
        let mut r: Vec<PeerStatus> = Vec::new();
        let n: usize = self.peers.len();
        let mut i: usize = 0;
        while i < n
            invariant
                i <= n,
                n == es.len(),
                es == self.peers.entries(),
                strmap::distinct_keys(es),
                known == peer_views(self.peers@),
                can_send_to_connected(known),
                r.len() == i,
                forall|j: int|
                    0 <= j < i ==> (#[trigger] r[j]).name@ == es[j].0 && known.contains_key(es[j].0)
                        && r[j]@ == status_of(known[es[j].0], now) && r[j].connected
                        == has_channel(known, es[j].0),
            decreases n - i,
        {
            let p: &PeerState = self.peers.value(i);
            assert(known.contains_key(es[i as int].0));
            assert(known[es[i as int].0] == p@);
            let last_seen_secs: Option<u64> = match p.last_seen {
                Some(then) => {
                    if now < then {
                        Some(0)
                    } else {
                        Some((now - then) / SECOND)
                    }
                },
                None => None,
            };
            r.push(
                PeerStatus {
                    name: p.name.clone(),
                    wg_ip: p.wg_ip.clone(),
                    connected: p.connected,
                    last_seen_secs,
                },
            );
            i += 1;
        }
        proof {
            assert forall|a: int, b: int| 0 <= a < b < r.len() implies r[a].name@ != r[b].name@ by {
                assert(r[a].name@ == es[a].0 && r[b].name@ == es[b].0);
            }
            assert forall|k: Seq<char>| #[trigger] self@.peers.contains_key(k) implies exists|a: int|
                0 <= a < r.len() && (#[trigger] r[a]).name@ == k by {
                let a = strmap::slot(es, k);
                assert(r[a].name@ == es[a].0);
            }
        }
        r
    }

    /// The message by which this node makes itself known.
    pub fn hello(&self) -> (r: AmpMessage)
        ensures
            r@ == hello(self@.node_name, self@.node_wg_ip),
    {
        let args: String = text::concat(
            text::concat("{\"wg_ip\":\"", self.node_wg_ip.as_str()).as_str(),
            "\"}",
        );
        let pairs: Vec<(&'static str, String)> = vec![
            ("amp", "1".to_owned()),
            ("type", "event".to_owned()),
            ("from", text::concat(self.node_name.as_str(), ".amp")),
            ("command", "hello".to_owned()),
            ("args", args),
        ];
        proof {
            let h = hello(self@.node_name, self@.node_wg_ip);
            let ps = pairs@.map_values(|p: (&'static str, String)| (p.0@, p.1@));
            assert(ps =~= h.headers);
            lemma_hello_keys(self@.node_name, self@.node_wg_ip);
            message::lemma_collect_distinct(ps);
        }
        AmpMessage::command(pairs)
    }
}

/// The headers of a hello are told apart by their keys.
pub proof fn lemma_hello_keys(node_name: Seq<char>, wg_ip: Seq<char>)
    ensures
        strmap::distinct_keys(hello(node_name, wg_ip).headers),
{
    reveal_strlit("amp");
    reveal_strlit("type");
    reveal_strlit("from");
    reveal_strlit("command");
    reveal_strlit("args");
    assert("amp"@.len() == 3 && "type"@.len() == 4 && "command"@.len() == 7);
    assert("type"@[0] == 't' && "from"@[0] == 'f' && "args"@[0] == 'a');
}

/// The whole seconds between two times fit between them, and one more would not; a time that is yet
/// to come is no time ago.
pub proof fn law_whole_seconds(then: u64, now: u64)
    ensures
        then <= now ==> secs_since(then, now) * 1_000_000_000 <= now - then,
        then <= now ==> now - then < (secs_since(then, now) + 1) * 1_000_000_000,
        now <= then ==> secs_since(then, now) == 0,
{
}

/// A peer is reported as what is known of it, with how long ago it was seen, if ever.
pub proof fn law_status(p: PeerView, now: u64)
    ensures
        status_of(p, now).name == p.name,
        status_of(p, now).wg_ip == p.wg_ip,
        status_of(p, now).connected == p.connected,
        status_of(p, now).last_seen_secs is Some <==> p.last_seen is Some,
        status_of(p, now).last_seen_secs matches Some(secs) ==> secs == secs_since(
            p.last_seen->0,
            now,
        ),
{
}

/// What happens to the connection of one peer changes nothing for another.
pub proof fn law_peers_are_apart(
    peers: Map<Seq<char>, PeerView>,
    name: Seq<char>,
    wg_ip: Seq<char>,
    now: u64,
    channel: u64,
    other: Seq<char>,
)
    requires
        other != name,
    ensures
        with_connected(peers, name, wg_ip, now, channel).contains_key(other) == peers.contains_key(
            other,
        ),
        with_disconnected(peers, name).contains_key(other) == peers.contains_key(other),
        with_released(peers, name, channel).contains_key(other) == peers.contains_key(other),
        with_seen(peers, name, now).contains_key(other) == peers.contains_key(other),
        peers.contains_key(other) ==> {
            &&& with_connected(peers, name, wg_ip, now, channel)[other] == peers[other]
            &&& with_disconnected(peers, name)[other] == peers[other]
            &&& with_released(peers, name, channel)[other] == peers[other]
            &&& with_seen(peers, name, now)[other] == peers[other]
        },
{
}

/// A peer that is connected can be sent to over the connection's channel, at once. One whose
/// connection is down cannot, but what else is known of it stays, and it is known as before.
pub proof fn law_connections_come_and_go(
    peers: Map<Seq<char>, PeerView>,
    name: Seq<char>,
    wg_ip: Seq<char>,
    now: u64,
    channel: u64,
)
    ensures
        ({
            let up = with_connected(peers, name, wg_ip, now, channel);
            &&& channel_for(up, name) == Ok::<u64, Seq<char>>(channel)
            &&& has_channel(up, name)
            &&& up[name].name == name && up[name].wg_ip == wg_ip && up[name].last_seen == Some(now)
        }),
        ({
            let down = with_disconnected(peers, name);
            &&& down.contains_key(name) == peers.contains_key(name)
            &&& channel_for(down, name) is Err
            &&& !has_channel(down, name)
            &&& peers.contains_key(name) ==> !down[name].connected && down[name].wg_ip
                == peers[name].wg_ip && down[name].last_seen == peers[name].last_seen
                && down[name].name == peers[name].name
        }),
        peers.contains_key(name) && peers[name].outbound == Some(channel) ==> channel_for(
            with_released(peers, name, channel),
            name,
        ) is Err,
        !(peers.contains_key(name) && peers[name].outbound == Some(channel)) ==> with_released(
            peers,
            name,
            channel,
        ) == peers,
        ({
            let seen = with_seen(peers, name, now);
            &&& seen.contains_key(name) == peers.contains_key(name)
            &&& channel_for(seen, name) == channel_for(peers, name)
            &&& peers.contains_key(name) ==> seen[name].last_seen == Some(now) && seen[name].wg_ip
                == peers[name].wg_ip && seen[name].connected == peers[name].connected
                && seen[name].outbound == peers[name].outbound
        }),
{
}

/// What holds of the peers, that each is known by its name and exactly a connected one can be sent
/// to, holds of them whatever happens to a connection.
pub proof fn law_connected_can_be_sent_to(
    peers: Map<Seq<char>, PeerView>,
    name: Seq<char>,
    wg_ip: Seq<char>,
    now: u64,
    channel: u64,
)
    requires
        can_send_to_connected(peers),
    ensures
        can_send_to_connected(with_connected(peers, name, wg_ip, now, channel)),
        can_send_to_connected(with_disconnected(peers, name)),
        can_send_to_connected(with_released(peers, name, channel)),
        can_send_to_connected(with_seen(peers, name, now)),
        forall|k: Seq<char>| #[trigger]
            peers.contains_key(k) ==> (channel_for(peers, k) is Ok <==> peers[k].connected)
                && peers[k].name == k,
{
}

/// A message goes to the node that its address names, over the channel that is known for it, and to
/// no other; one without such a channel goes nowhere.
pub proof fn law_messages_go_where_they_are_addressed(
    peers: Map<Seq<char>, PeerView>,
    m: MessageView,
    node: Seq<char>,
    channel: u64,
)
    ensures
        route_of(peers, m) == Ok::<(Seq<char>, u64), Seq<char>>((node, channel)) <==> {
            &&& message::header(m, "to"@) matches Some(to) && (address::parse_address(to) matches
                Some(a) && a.node == node)
            &&& peers.contains_key(node)
            &&& peers[node].outbound == Some(channel)
        },
{
}

/// Why a message goes nowhere is told: it has no address, its address is none, or its node is not
/// known or not connected.
pub proof fn law_unroutable_messages_are_explained(
    peers: Map<Seq<char>, PeerView>,
    m: MessageView,
)
    ensures
        match message::header(m, "to"@) {
            None => route_of(peers, m) == Err::<(Seq<char>, u64), Seq<char>>(
                "message has no 'to' address"@,
            ),
            Some(to) => match address::parse_address(to) {
                None => route_of(peers, m) == Err::<(Seq<char>, u64), Seq<char>>(
                    "invalid address: "@ + to,
                ),
                Some(a) => {
                    &&& !peers.contains_key(a.node) ==> route_of(peers, m) == Err::<
                        (Seq<char>, u64),
                        Seq<char>,
                    >("unknown peer: "@ + a.node)
                    &&& peers.contains_key(a.node) && peers[a.node].outbound is None ==> route_of(
                        peers,
                        m,
                    ) == Err::<(Seq<char>, u64), Seq<char>>("peer "@ + a.node + " not connected"@)
                },
            },
        },
{
}

/// A hello tells the node's name in its `from` address and its network address in its arguments.
pub proof fn law_hello_tells_who_it_is(node_name: Seq<char>, wg_ip: Seq<char>)
    ensures
        ({
            let h = hello(node_name, wg_ip);
            &&& message::header(h, "amp"@) == Some("1"@)
            &&& message::header(h, "type"@) == Some("event"@)
            &&& message::header(h, "command"@) == Some("hello"@)
            &&& message::header(h, "from"@) == Some(node_name + ".amp"@)
            &&& message::header(h, "args"@) == Some("{\"wg_ip\":\""@ + wg_ip + "\"}"@)
            &&& h.headers.len() == 5
            &&& h.body.len() == 0
        }),
{
    let h = hello(node_name, wg_ip);
    lemma_hello_keys(node_name, wg_ip);
    strmap::lemma_slot(h.headers, 0);
    strmap::lemma_slot(h.headers, 1);
    strmap::lemma_slot(h.headers, 2);
    strmap::lemma_slot(h.headers, 3);
    strmap::lemma_slot(h.headers, 4);
}

/// A frame makes a node known as `name` exactly where it spells a message with the command `hello`
/// that comes from `name` and the suffix of the mesh.
pub proof fn law_hellos_are_recognized(raw: Seq<char>, name: Seq<char>)
    ensures
        hello_in(raw) == Some(name) <==> (message::parse_message(raw) matches Some(m)
            && message::header(m, "command"@) == Some("hello"@) && message::header(m, "from"@)
            == Some(name + ".amp"@)),
{
    reveal_strlit(".amp");
    let from = name + ".amp"@;
    assert(from.subrange(from.len() - 4, from.len() as int) =~= ".amp"@);
    assert(from.take(from.len() - 4) =~= name);
    if hello_in(raw) == Some(name) {
        let m = message::parse_message(raw)->Some_0;
        let got = message::header(m, "from"@)->0;
        assert(got =~= got.take(got.len() - 4) + got.subrange(got.len() - 4, got.len() as int));
        assert(got =~= from);
    }
}

/// What is known and reported of a peer is what is held of it.
pub proof fn law_peers_say_what_is_known(state: PeerState, status: PeerStatus)
    ensures
        state@.name == state.name@ && state@.wg_ip == state.wg_ip@ && state@.connected
            == state.connected && state@.last_seen == state.last_seen && state@.outbound
            == state.outbound,
        status@.name == status.name@ && status@.wg_ip == status.wg_ip@ && status@.connected
            == status.connected && status@.last_seen_secs == status.last_seen_secs,
{
}

/// The peers that are known are all that are held, each under its key.
pub proof fn law_all_peers_are_known(peers: Map<Seq<char>, PeerState>, k: Seq<char>)
    ensures
        peer_views(peers).contains_key(k) <==> peers.contains_key(k),
        peers.contains_key(k) ==> peer_views(peers)[k] == peers[k]@,
{
}

} // verus!
