//! Media that is relayed from node to node.
use vstd::prelude::*;

use crate::strmap::{StrMap, StrSet};
use crate::text;

verus! {

/// The kinds of media.
#[derive(Debug, Clone, Copy, PartialEq, Eq, Structural)]
pub enum MediaKind {
    Audio,
    Video,
}

/// The name of a kind of media.
pub open spec fn kind_name(kind: MediaKind) -> Seq<char> {
    match kind {
        MediaKind::Audio => "audio"@,
        MediaKind::Video => "video"@,
    }
}

/// The kind of media that `s` names.
pub open spec fn kind_named(s: Seq<char>) -> Option<MediaKind> {
    if s == "audio"@ {
        Some(MediaKind::Audio)
    } else if s == "video"@ {
        Some(MediaKind::Video)
    } else {
        None
    }
}

/// Each kind of media is read from its name.
pub proof fn law_kind_names(kind: MediaKind)
    ensures
        kind_named(kind_name(kind)) == Some(kind),
{
    reveal_strlit("audio");
    reveal_strlit("video");
    assert("audio"@[0] == 'a');
    assert("video"@[0] == 'v');
}

/// A serializable media packet for cross-node relay.
///
/// RTP payload is base64-encoded for safe transport over text WebSocket frames.
/// This adds ~33% overhead but keeps compatibility with the existing AMP text transport.
/// Binary WebSocket frames can be added later as an optimization.
#[derive(Debug)]
pub struct RelayPacket {
    /// Room name
    pub room: String,
    /// Media kind: "audio" or "video"
    pub kind: String,
    /// RTP payload type
    pub pt: u8,
    /// RTP timestamp
    pub time: u32,
    /// Wallclock time (ms since epoch)
    pub wallclock_ms: u64,
    /// Base64-encoded RTP payload
    pub data: String,
}

/// What a [`RelayPacket`] says.
pub struct PacketView {
    pub room: Seq<char>,
    pub kind: Seq<char>,
    pub pt: u8,
    pub time: u32,
    pub wallclock_ms: u64,
    pub data: Seq<char>,
}

impl View for RelayPacket {
    type V = PacketView;

    open spec fn view(&self) -> PacketView {
        PacketView {
            room: self.room@,
            kind: self.kind@,
            pt: self.pt,
            time: self.time,
            wallclock_ms: self.wallclock_ms,
            data: self.data@,
        }
    }
}

/// The text of `bytes` in base64, standard alphabet, with padding.
pub uninterp spec fn base64_text(bytes: Seq<u8>) -> Seq<char>;

/// The bytes that a text stands for in base64, standard alphabet, with padding.
pub uninterp spec fn base64_bytes(text: Seq<char>) -> Option<Seq<u8>>;

/// Encodes with the engine `BASE64_STANDARD` of the crate `base64`. Claimed of it: the text depends
/// on the bytes alone, and decodes to them. Text that no allocation could hold is left out.
#[verifier::external_body]
fn encode_base64(bytes: &[u8]) -> (r: String)
    requires
        (bytes@.len() + 2) / 3 * 4 <= isize::MAX,
    ensures
        r@ == base64_text(bytes@),
        base64_bytes(r@) == Some(bytes@),
{
    base64::Engine::encode(&base64::prelude::BASE64_STANDARD, bytes)
}

/// Decodes with the engine `BASE64_STANDARD` of the crate `base64`. Claimed of it: whether bytes
/// come back, and which, depends on the text alone.
#[verifier::external_body]
fn decode_base64(text: &str) -> (r: Option<Vec<u8>>)
    ensures
        match r {
            Some(v) => base64_bytes(text@) == Some(v@),
            None => base64_bytes(text@) is None,
        },
{
    base64::Engine::decode(&base64::prelude::BASE64_STANDARD, text).ok()
}

impl Clone for RelayPacket {
    fn clone(&self) -> (r: RelayPacket)
        ensures
            r@ == self@,
    {
        RelayPacket {
            room: self.room.clone(),
            kind: self.kind.clone(),
            pt: self.pt,
            time: self.time,
            wallclock_ms: self.wallclock_ms,
            data: self.data.clone(),
        }
    }
}

impl RelayPacket {
    /// Create a relay packet from media data that was received at `wallclock_ms`, in milliseconds
    /// since the epoch.
    pub fn from_media_data(
        room: &str,
        kind: MediaKind,
        pt: u8,
        time: u32,
        wallclock_ms: u64,
        data: &[u8],
    ) -> (r: RelayPacket)
        requires
            (data@.len() + 2) / 3 * 4 <= isize::MAX,
        ensures
            r@ == (PacketView {
                room: room@,
                kind: kind_name(kind),
                pt,
                time,
                wallclock_ms,
                data: base64_text(data@),
            }),
            kind_named(r@.kind) == Some(kind),
            base64_bytes(r@.data) == Some(data@),
    {
        proof {
            law_kind_names(kind);
        }
        RelayPacket {
            room: room.to_owned(),
            kind: match kind {
                MediaKind::Audio => "audio".to_owned(),
                MediaKind::Video => "video".to_owned(),
            },
            pt,
            time,
            wallclock_ms,
            data: encode_base64(data),
        }
    }

    /// Decode the base64 payload.
    pub fn decode_data(&self) -> (r: Option<Vec<u8>>)
        ensures
            match r {
                Some(v) => base64_bytes(self@.data) == Some(v@),
                None => base64_bytes(self@.data) is None,
            },
    {
        decode_base64(self.data.as_str())
    }

    /// Parse the media kind.
    pub fn media_kind(&self) -> (r: Option<MediaKind>)
        ensures
            r == kind_named(self@.kind),
    {
        if text::str_eq(self.kind.as_str(), "audio") {
            Some(MediaKind::Audio)
        } else if text::str_eq(self.kind.as_str(), "video") {
            Some(MediaKind::Video)
        } else {
            None
        }
    }
}

/// Tracks which remote nodes are subscribed to local rooms (outbound relay).
///
/// When node B subscribes to room "demo" on this node, we track it here
/// so we know to forward media data.
#[derive(Debug)]
pub struct OutboundRelays {
    /// room_name → set of node names subscribed
    pub subscriptions: StrMap<StrSet>,
}

impl View for OutboundRelays {
    type V = Map<Seq<char>, Set<Seq<char>>>;

    open spec fn view(&self) -> Map<Seq<char>, Set<Seq<char>>> {
        Map::new(
            |k: Seq<char>| self.subscriptions@.contains_key(k),
            |k: Seq<char>| self.subscriptions@[k]@,
        )
    }
}

/// The nodes that are subscribed to a room.
pub open spec fn nodes_of(subs: Map<Seq<char>, Set<Seq<char>>>, room: Seq<char>) -> Set<Seq<char>> {
    if subs.contains_key(room) {
        subs[room]
    } else {
        Set::empty()
    }
}

/// The subscriptions once `node` has subscribed to `room`.
pub open spec fn subscribed(
    subs: Map<Seq<char>, Set<Seq<char>>>,
    room: Seq<char>,
    node: Seq<char>,
) -> Map<Seq<char>, Set<Seq<char>>> {
    subs.insert(room, nodes_of(subs, room).insert(node))
}

/// The subscriptions once `node` is not subscribed to `room`. A room without nodes is left out.
pub open spec fn unsubscribed(
    subs: Map<Seq<char>, Set<Seq<char>>>,
    room: Seq<char>,
    node: Seq<char>,
) -> Map<Seq<char>, Set<Seq<char>>> {
    if nodes_of(subs, room).remove(node) == Set::<Seq<char>>::empty() {
        subs.remove(room)
    } else {
        subs.insert(room, subs[room].remove(node))
    }
}

/// No room is listed without nodes.
pub open spec fn has_no_idle_room(subs: Map<Seq<char>, Set<Seq<char>>>) -> bool {
    forall|k: Seq<char>| #[trigger] subs.contains_key(k) ==> subs[k] != Set::<Seq<char>>::empty()
}

impl OutboundRelays {
    /// No node is subscribed to any room.
    pub fn new() -> (r: OutboundRelays)
        ensures
            r@ == Map::<Seq<char>, Set<Seq<char>>>::empty(),
    {
        let r: OutboundRelays = OutboundRelays { subscriptions: StrMap::new() };
        assert(r@ =~= Map::<Seq<char>, Set<Seq<char>>>::empty());
        r
    }

    /// Add a remote node as subscriber to a local room.
    pub fn subscribe(&mut self, room: &str, node: &str)
        ensures
            final(self)@ == subscribed(old(self)@, room@, node@),
    {
        let mut nodes: StrSet = match self.subscriptions.take(room) {
            Some(nodes) => nodes,
            None => StrSet::new(),
        };
        nodes.insert(node);
        self.subscriptions.insert(room.to_owned(), nodes);
        assert(self@ =~= subscribed(old(self)@, room@, node@));
    }

    /// Remove a remote node from a local room.
    pub fn unsubscribe(&mut self, room: &str, node: &str)
        ensures
            final(self)@ == unsubscribed(old(self)@, room@, node@),
    {
        match self.subscriptions.take(room) {
            Some(mut nodes) => {
                nodes.remove(node);
                if !nodes.is_empty() {
                    self.subscriptions.insert(room.to_owned(), nodes);
                }
            },
            None => {
                assert(nodes_of(old(self)@, room@).remove(node@) =~= Set::<Seq<char>>::empty());
            },
        }
        assert(self@ =~= unsubscribed(old(self)@, room@, node@));
    }

    /// Get all nodes subscribed to a room.
    pub fn subscribers(&self, room: &str) -> (r: Option<&StrSet>)
        ensures
            match r {
                Some(nodes) => self@.contains_key(room@) && nodes@ == self@[room@],
                None => !self@.contains_key(room@),
            },
    {
        self.subscriptions.get(room)
    }
}

/// Subscribing and unsubscribing never leave a room listed without nodes.
pub proof fn law_no_idle_room(
    subs: Map<Seq<char>, Set<Seq<char>>>,
    room: Seq<char>,
    node: Seq<char>,
)
    requires
        has_no_idle_room(subs),
    ensures
        has_no_idle_room(subscribed(subs, room, node)),
        has_no_idle_room(unsubscribed(subs, room, node)),
{
    assert(nodes_of(subs, room).insert(node).contains(node));
    if !subs.contains_key(room) {
        assert(nodes_of(subs, room).remove(node) =~= Set::<Seq<char>>::empty());
    }
}

/// A node that subscribes is among the nodes of the room; one that unsubscribes is not; and the
/// nodes of every other room, and every other node, stay.
pub proof fn law_subscriptions(
    subs: Map<Seq<char>, Set<Seq<char>>>,
    room: Seq<char>,
    node: Seq<char>,
    other: Seq<char>,
)
    ensures
        nodes_of(subscribed(subs, room, node), room) == nodes_of(subs, room).insert(node),
        nodes_of(unsubscribed(subs, room, node), room) == nodes_of(subs, room).remove(node),
        other != room ==> nodes_of(subscribed(subs, room, node), other) == nodes_of(subs, other),
        other != room ==> nodes_of(unsubscribed(subs, room, node), other) == nodes_of(subs, other),
{
    if !subs.contains_key(room) {
        assert(nodes_of(subs, room).remove(node) =~= Set::<Seq<char>>::empty());
    }
    assert(nodes_of(unsubscribed(subs, room, node), room) =~= nodes_of(subs, room).remove(node));
}

/// A node that was not subscribed, subscribes and unsubscribes leaves everything as it was.
pub proof fn law_subscribe_unsubscribe(
    subs: Map<Seq<char>, Set<Seq<char>>>,
    room: Seq<char>,
    node: Seq<char>,
)
    requires
        has_no_idle_room(subs),
        !nodes_of(subs, room).contains(node),
    ensures
        unsubscribed(subscribed(subs, room, node), room, node) == subs,
{
    assert(nodes_of(subs, room).insert(node).remove(node) =~= nodes_of(subs, room));
    assert(unsubscribed(subscribed(subs, room, node), room, node) =~= subs);
}

/// Tracks which remote rooms this node is subscribed to (inbound relay).
///
/// When we have local subscribers for a room whose publisher is on another node,
/// we request relay from that node and receive media here.
#[derive(Debug)]
pub struct InboundRelays {
    /// room_name → source node name
    pub sources: StrMap<String>,
}

impl View for InboundRelays {
    type V = Map<Seq<char>, Seq<char>>;

    open spec fn view(&self) -> Map<Seq<char>, Seq<char>> {
        Map::new(|k: Seq<char>| self.sources@.contains_key(k), |k: Seq<char>| self.sources@[k]@)
    }
}

impl InboundRelays {
    /// No room is relayed to this node.
    pub fn new() -> (r: InboundRelays)
        ensures
            r@ == Map::<Seq<char>, Seq<char>>::empty(),
    {
        let r: InboundRelays = InboundRelays { sources: StrMap::new() };
        assert(r@ =~= Map::<Seq<char>, Seq<char>>::empty());
        r
    }

    /// Register that we're receiving relay for a room from a source node.
    pub fn register(&mut self, room: &str, source_node: &str)
        ensures
            final(self)@ == old(self)@.insert(room@, source_node@),
    {
        self.sources.insert(room.to_owned(), source_node.to_owned());
        assert(self@ =~= old(self)@.insert(room@, source_node@));
    }

    /// Remove relay registration.
    pub fn remove(&mut self, room: &str)
        ensures
            final(self)@ == old(self)@.remove(room@),
    {
        self.sources.remove(room);
        assert(self@ =~= old(self)@.remove(room@));
    }

    /// Check if we have a relay source for a room.
    pub fn source_for(&self, room: &str) -> (r: Option<&str>)
        ensures
            match r {
                Some(node) => self@.contains_key(room@) && node@ == self@[room@],
                None => !self@.contains_key(room@),
            },
    {
        match self.sources.get(room) {
            Some(node) => Some(node.as_str()),
            None => None,
        }
    }
}

/// A name is read as a kind exactly where the kind has that name, and the two kinds are named
/// `audio` and `video`.
pub proof fn law_kinds_have_names(s: Seq<char>)
    ensures
        kind_named(s) matches Some(kind) ==> kind_name(kind) == s,
        kind_named(s) == Some(MediaKind::Audio) <==> s == "audio"@,
        kind_named(s) == Some(MediaKind::Video) <==> s == "video"@,
{
    law_kind_names(MediaKind::Audio);
    law_kind_names(MediaKind::Video);
}

/// Who is subscribed is told room by room: a node is among the nodes of a room exactly where the
/// room is listed with it.
pub proof fn law_nodes_are_listed(
    subs: Map<Seq<char>, Set<Seq<char>>>,
    room: Seq<char>,
    node: Seq<char>,
)
    ensures
        nodes_of(subs, room).contains(node) <==> subs.contains_key(room) && subs[room].contains(
            node,
        ),
{
}

/// Whether a node is subscribed to a room is changed by its own requests for that room alone; asking
/// again changes nothing.
pub proof fn law_subscriptions_are_apart(
    subs: Map<Seq<char>, Set<Seq<char>>>,
    room: Seq<char>,
    node: Seq<char>,
    other_room: Seq<char>,
    other: Seq<char>,
)
    ensures
        nodes_of(subscribed(subs, room, node), room).contains(node),
        !nodes_of(unsubscribed(subs, room, node), room).contains(node),
        other_room != room || other != node ==> {
            &&& nodes_of(subscribed(subs, room, node), other_room).contains(other) == nodes_of(
                subs,
                other_room,
            ).contains(other)
            &&& nodes_of(unsubscribed(subs, room, node), other_room).contains(other) == nodes_of(
                subs,
                other_room,
            ).contains(other)
        },
        subscribed(subscribed(subs, room, node), room, node) == subscribed(subs, room, node),
        subscribed(subs, room, node).contains_key(other_room) <==> other_room == room
            || subs.contains_key(other_room),
        unsubscribed(subs, room, node).contains_key(other_room) ==> subs.contains_key(other_room),
{
    law_subscriptions(subs, room, node, other_room);
    assert(subscribed(subscribed(subs, room, node), room, node) =~= subscribed(subs, room, node))
        by {
        assert(nodes_of(subs, room).insert(node).insert(node) =~= nodes_of(subs, room).insert(
            node,
        ));
    }
    if !subs.contains_key(room) {
        assert(nodes_of(subs, room).remove(node) =~= Set::<Seq<char>>::empty());
    }
}

/// A packet says all that it holds.
pub proof fn law_packets_say_what_they_hold(packet: RelayPacket)
    ensures
        packet@.room == packet.room@,
        packet@.kind == packet.kind@,
        packet@.pt == packet.pt,
        packet@.time == packet.time,
        packet@.wallclock_ms == packet.wallclock_ms,
        packet@.data == packet.data@,
{
}

/// The subscriptions and the sources of relayed rooms are those that are held.
pub proof fn law_relays_say_what_they_hold(
    outbound: OutboundRelays,
    inbound: InboundRelays,
    k: Seq<char>,
)
    ensures
        outbound@.contains_key(k) <==> outbound.subscriptions@.contains_key(k),
        outbound@.contains_key(k) ==> outbound@[k] == outbound.subscriptions@[k]@,
        inbound@.contains_key(k) <==> inbound.sources@.contains_key(k),
        inbound@.contains_key(k) ==> inbound@[k] == inbound.sources@[k]@,
{
}

} // verus!
