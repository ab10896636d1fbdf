//! The state of the selective forwarding unit, and where it forwards media.
use vstd::prelude::*;

use crate::relay;
use crate::relay::{InboundRelays, MediaKind, OutboundRelays, PacketView, RelayPacket};
use crate::room::{Room, RoomRegistry, RoomView};
use crate::session;
use crate::session::{MediaData, MidView, Session};
use crate::sfu::SfuEvent;
use crate::strmap;
use crate::strmap::StrSet;

verus! {

/// The sessions of the SFU, the rooms that they are in, and the relays to and from other nodes.
#[derive(Debug)]
pub struct SfuState<R> {
    pub sessions: Vec<Session<R>>,
    pub rooms: RoomRegistry,
    pub outbound_relays: OutboundRelays,
    pub inbound_relays: InboundRelays,
}

/// The media lines of each session.
pub open spec fn mids_of<R>(sessions: Seq<Session<R>>) -> Seq<MidView> {
    sessions.map_values(|s: Session<R>| s.mid_by_kind@)
}

/// A media line of a session.
#[derive(Debug)]
pub struct Target {
    pub session: usize,
    pub mid: String,
}

/// What a [`Target`] says.
pub struct TargetView {
    pub session: usize,
    pub mid: Seq<char>,
}

impl View for Target {
    type V = TargetView;

    open spec fn view(&self) -> TargetView {
        TargetView { session: self.session, mid: self.mid@ }
    }
}

/// What the targets say.
pub open spec fn target_views(targets: Seq<Target>) -> Seq<TargetView> {
    targets.map_values(|t: Target| t@)
}

/// Where media of a kind goes for these subscribers, in order: to the media line of that kind of
/// each that has one.
pub open spec fn targets_of(
    mids: Seq<MidView>,
    subscribers: Seq<usize>,
    kind: MediaKind,
) -> Seq<TargetView>
    decreases subscribers.len(),
{
    if subscribers.len() == 0 {
        Seq::empty()
    } else {
        let before = targets_of(mids, subscribers.drop_last(), kind);
        let s = subscribers.last();
        if s < mids.len() {
            match session::mid_of(mids[s as int], kind) {
                Some(mid) => before.push(TargetView { session: s, mid }),
                None => before,
            }
        } else {
            before
        }
    }
}

/// Where media of a publisher goes.
#[derive(Debug)]
pub struct MediaPlan {
    /// What other nodes are sent.
    pub relays: Vec<SfuEvent>,
    /// Where it is written.
    pub targets: Vec<Target>,
}

/// The node that an event hands a packet to, and the packet.
pub open spec fn relay_in(event: SfuEvent) -> Option<(Seq<char>, PacketView)> {
    match event {
        SfuEvent::RelayData { target_node, packet } => Some((target_node@, packet@)),
        _ => None,
    }
}

/// Events that hand `packet` to each of the nodes, and to none twice.
pub open spec fn hands_to_all(
    events: Seq<SfuEvent>,
    nodes: Set<Seq<char>>,
    packet: PacketView,
) -> bool {
    &&& forall|i: int|
        0 <= i < events.len() ==> (relay_in(#[trigger] events[i]) matches Some((node, p))
            && nodes.contains(node) && p == packet)
    &&& forall|node: Seq<char>| #[trigger]
        nodes.contains(node) ==> exists|i: int|
            0 <= i < events.len() && relay_in(#[trigger] events[i]) == Some((node, packet))
    &&& forall|i: int, j: int|
        0 <= i < j < events.len() ==> relay_in(#[trigger] events[i]) != relay_in(
            #[trigger] events[j],
        )
}

/// The packet that hands media to other nodes. Its time is the media's, cut to 32 bits.
pub open spec fn packet_of<F>(
    room: Seq<char>,
    kind: MediaKind,
    data: MediaData<F>,
    wallclock_ms: u64,
) -> PacketView {
    PacketView {
        room,
        kind: relay::kind_name(kind),
        pt: data.pt,
        time: (data.time % 0x1_0000_0000) as u32,
        wallclock_ms,
        data: relay::base64_text(data.data@),
    }
}

/// Where media that the publisher of `room` sends goes: to every node that is subscribed to the
/// room, and to every local subscriber.
pub open spec fn is_plan_for<F>(
    plan: MediaPlan,
    mids: Seq<MidView>,
    room: RoomView,
    subs: Map<Seq<char>, Set<Seq<char>>>,
    kind: MediaKind,
    data: MediaData<F>,
    wallclock_ms: u64,
) -> bool {
    &&& hands_to_all(
        plan.relays@,
        relay::nodes_of(subs, room.name),
        packet_of(room.name, kind, data, wallclock_ms),
    )
    &&& target_views(plan.targets@) == targets_of(mids, room.subscribers, kind)
}

/// A plan that sends nothing anywhere.
pub open spec fn is_empty_plan(plan: MediaPlan) -> bool {
    plan.relays@.len() == 0 && plan.targets@.len() == 0
}

/// Where media of session `source` goes. It goes nowhere if its media line is not known, or if the
/// session publishes in no room.
pub open spec fn is_media_plan<F>(
    plan: MediaPlan,
    mids: Seq<MidView>,
    rooms: Map<Seq<char>, RoomView>,
    subs: Map<Seq<char>, Set<Seq<char>>>,
    source: usize,
    data: MediaData<F>,
    wallclock_ms: u64,
) -> bool {
    match session::kind_of(mids[source as int], data.mid@) {
        None => is_empty_plan(plan),
        Some(kind) => {
            ||| exists|k: Seq<char>| #[trigger]
                rooms.contains_key(k) && rooms[k].publisher == Some(source) && is_plan_for(
                    plan,
                    mids,
                    rooms[k],
                    subs,
                    kind,
                    data,
                    wallclock_ms,
                )
            ||| is_empty_plan(plan) && forall|k: Seq<char>| #[trigger]
                rooms.contains_key(k) ==> rooms[k].publisher != Some(source)
        },
    }
}

/// Where a keyframe request of the subscriber `source` goes in a room: to the media line of that
/// kind of the room's publisher.
pub open spec fn keyframe_target(
    mids: Seq<MidView>,
    room: RoomView,
    source: usize,
    kind: MediaKind,
) -> Option<TargetView> {
    if !room.subscribers.contains(source) {
        None
    } else {
        match room.publisher {
            Some(p) => if p < mids.len() {
                match session::mid_of(mids[p as int], kind) {
                    Some(mid) => Some(TargetView { session: p, mid }),
                    None => None,
                }
            } else {
                None
            },
            None => None,
        }
    }
}

/// Where a keyframe request of session `source` goes: to the publisher of one of the rooms that the
/// session subscribes to, if one of them can be asked.
pub open spec fn is_keyframe_plan(
    plan: Option<TargetView>,
    mids: Seq<MidView>,
    rooms: Map<Seq<char>, RoomView>,
    source: usize,
    mid: Seq<char>,
) -> bool {
    match session::kind_of(mids[source as int], mid) {
        None => plan is None,
        Some(kind) => match plan {
            Some(t) => exists|k: Seq<char>| #[trigger]
                rooms.contains_key(k) && keyframe_target(mids, rooms[k], source, kind) == Some(t),
            None => forall|k: Seq<char>| #[trigger]
                rooms.contains_key(k) ==> keyframe_target(mids, rooms[k], source, kind) is None,
        },
    }
}

/// Where relayed media is written.
#[derive(Debug)]
pub struct RelayPlan {
    /// The media time, in ticks of `rate` per second.
    pub time: u64,
    pub rate: u32,
    pub data: Vec<u8>,
    pub targets: Vec<Target>,
}

/// What a [`RelayPlan`] says.
pub struct RelayPlanView {
    pub time: u64,
    pub rate: u32,
    pub data: Seq<u8>,
    pub targets: Seq<TargetView>,
}

impl View for RelayPlan {
    type V = RelayPlanView;

    open spec fn view(&self) -> RelayPlanView {
        RelayPlanView {
            time: self.time,
            rate: self.rate,
            data: self.data@,
            targets: target_views(self.targets@),
        }
    }
}

/// The standard RTP clock rate of a kind of media: 90 kHz for video, 48 kHz for audio.
pub open spec fn clock_rate_of(kind: MediaKind) -> u32 {
    match kind {
        MediaKind::Video => 90_000,
        MediaKind::Audio => 48_000,
    }
}

/// Where relayed media is written: to every local subscriber of its room. A packet of an unknown
/// kind, with data that is no base64, or for an unknown room goes nowhere.
pub open spec fn relay_plan_of(
    mids: Seq<MidView>,
    rooms: Map<Seq<char>, RoomView>,
    packet: PacketView,
) -> Option<RelayPlanView> {
    match (relay::kind_named(packet.kind), relay::base64_bytes(packet.data)) {
        (Some(kind), Some(data)) => if rooms.contains_key(packet.room) {
            Some(
                RelayPlanView {
                    time: packet.time as u64,
                    rate: clock_rate_of(kind),
                    data,
                    targets: targets_of(mids, rooms[packet.room].subscribers, kind),
                },
            )
        } else {
            None
        },
        _ => None,
    }
}

/// The standard RTP clock rate of a kind of media.
pub fn clock_rate(kind: MediaKind) -> (r: u32)
    ensures
        r == clock_rate_of(kind),
{
    match kind {
        MediaKind::Video => 90_000,
        MediaKind::Audio => 48_000,
    }
}

/// Milliseconds to wait before the sessions are driven forward: 100 when sessions are active, 1000
/// otherwise.
pub fn compute_timeout<R>(sessions: &Vec<Session<R>>) -> (r: u64)
    ensures
        r == (if sessions@.len() == 0 {
            1000u64
        } else {
            100u64
        }),
{
    if sessions.len() == 0 {
        1000
    } else {
        100
    }
}

/// Events that hand `packet` to the members of a list, one by one.
proof fn lemma_hands_to_all(events: Seq<SfuEvent>, members: Seq<Seq<char>>, packet: PacketView)
    requires
        events.len() == members.len(),
        members.no_duplicates(),
        forall|i: int|
            0 <= i < events.len() ==> relay_in(#[trigger] events[i]) == Some((members[i], packet)),
    ensures
        hands_to_all(events, members.to_set(), packet),
{
    let nodes = members.to_set();
    assert forall|i: int| 0 <= i < events.len() implies (relay_in(#[trigger] events[i]) matches Some(
        (node, p),
    ) && nodes.contains(node) && p == packet) by {
        assert(members.contains(members[i]));
    }
    assert forall|node: Seq<char>| #[trigger] nodes.contains(node) implies exists|i: int|
        0 <= i < events.len() && relay_in(#[trigger] events[i]) == Some((node, packet)) by {
        let i = choose|i: int| 0 <= i < members.len() && members[i] == node;
        assert(relay_in(events[i]) == Some((node, packet)));
    }
}

impl<R> SfuState<R> {
    /// Without sessions, rooms and relays.
    pub fn new() -> (r: SfuState<R>)
        ensures
            r.sessions@ == Seq::<Session<R>>::empty(),
            r.rooms@ == Map::<Seq<char>, RoomView>::empty(),
            r.outbound_relays@ == Map::<Seq<char>, Set<Seq<char>>>::empty(),
            r.inbound_relays@ == Map::<Seq<char>, Seq<char>>::empty(),
    {
        SfuState {
            sessions: Vec::new(),
            rooms: RoomRegistry::new(),
            outbound_relays: OutboundRelays::new(),
            inbound_relays: InboundRelays::new(),
        }
    }

    /// Where media of a kind goes for the subscribers of a room.
    fn targets(&self, room: &Room, kind: MediaKind) -> (r: Vec<Target>)
        ensures
            target_views(r@) == targets_of(mids_of(self.sessions@), room@.subscribers, kind),
    {
        let ghost mids = mids_of(self.sessions@);
        let ghost subs = room.subscribers@;
        let mut r: Vec<Target> = Vec::new();
        let mut i: usize = 0;
        assert(target_views(r@) =~= targets_of(mids, subs.take(0), kind));
        while i < room.subscribers.len()
            invariant
                i <= room.subscribers.len(),
                mids == mids_of(self.sessions@),
                subs == room.subscribers@,
                target_views(r@) == targets_of(mids, subs.take(i as int), kind),
            decreases room.subscribers.len() - i,
        {
            let s: usize = room.subscribers[i];
            let ghost before = r@;
            proof {
                assert(subs.take(i + 1).drop_last() =~= subs.take(i as int));
                assert(subs.take(i + 1).last() == s);
            }
            if s < self.sessions.len() {
                assert(mids[s as int] == self.sessions@[s as int].mid_by_kind@);
                if let Some(mid) = self.sessions[s].mid_by_kind.get(kind) {
                    let t: Target = Target { session: s, mid: mid.clone() };
                    assert(target_views(before.push(t)) =~= target_views(before).push(t@));
                    r.push(t);
                }
            }
            i += 1;
        }
        assert(subs.take(subs.len() as int) =~= subs);
        r
    }

    /// What the nodes that are subscribed to a room are sent of its media.
    fn relays<F>(&self, room_name: &str, kind: MediaKind, data: &MediaData<F>, wallclock_ms: u64) -> (r:
        Vec<SfuEvent>)
        requires
            (data.data@.len() + 2) / 3 * 4 <= isize::MAX,
        ensures
            hands_to_all(
                r@,
                relay::nodes_of(self.outbound_relays@, room_name@),
                packet_of(room_name@, kind, *data, wallclock_ms),
            ),
            r@.len() > 0 ==> relay::base64_bytes(relay::base64_text(data.data@)) == Some(
                data.data@,
            ),
    {
        let mut r: Vec<SfuEvent> = Vec::new();
        let set: &StrSet = match self.outbound_relays.subscribers(room_name) {
            Some(set) => set,
            None => {
                return r;
            },
        };
        let packet: RelayPacket = RelayPacket::from_media_data(
            room_name,
            kind,
            data.pt,
            (data.time % 0x1_0000_0000) as u32,
            wallclock_ms,
            data.data.as_slice(),
        );
        let n: usize = set.len();
        let ghost ms = set.members();
        let mut i: usize = 0;
        while i < n
            invariant
                i <= n,
                n == ms.len(),
                ms == set.members(),
                r.len() == i,
                forall|j: int|
                    0 <= j < i ==> relay_in(#[trigger] r@[j]) == Some((ms[j], packet@)),
            decreases n - i,
        {
            r.push(
                SfuEvent::RelayData {
                    target_node: set.member(i).clone(),
                    packet: packet.clone(),
                },
            );
            i += 1;
        }
        proof {
            lemma_hands_to_all(r@, ms, packet@);
        }
        r
    }

    /// Where media of session `source` goes: to each local subscriber of the room that it publishes
    /// in, and to each node that is subscribed to the room.
    pub fn plan_media<F>(&self, source: usize, data: &MediaData<F>, wallclock_ms: u64) -> (r:
        MediaPlan)
        requires
            source < self.sessions@.len(),
            (data.data@.len() + 2) / 3 * 4 <= isize::MAX,
        ensures
            is_media_plan(
                r,
                mids_of(self.sessions@),
                self.rooms@,
                self.outbound_relays@,
                source,
                *data,
                wallclock_ms,
            ),
            r.relays@.len() > 0 ==> relay::base64_bytes(relay::base64_text(data.data@)) == Some(
                data.data@,
            ),
    {
        assert(mids_of(self.sessions@)[source as int] == self.sessions@[source as int].mid_by_kind@);
        let kind: MediaKind = match self.sessions[source].mid_by_kind.kind_on(data.mid.as_str()) {
            Some(kind) => kind,
            None => {
                return MediaPlan { relays: Vec::new(), targets: Vec::new() };
            },
        };
        let room: &Room = match self.rooms.find_publisher_room(source) {
            Some(room) => room,
            None => {
                return MediaPlan { relays: Vec::new(), targets: Vec::new() };
            },
        };
        let relays: Vec<SfuEvent> = self.relays(room.name.as_str(), kind, data, wallclock_ms);
        let targets: Vec<Target> = self.targets(room, kind);
        MediaPlan { relays, targets }
    }

    /// Where a keyframe request of session `source` goes: to the publisher of a room that the
    /// session subscribes to.
    pub fn plan_keyframe(&self, source: usize, mid: &str) -> (r: Option<Target>)
        requires
            source < self.sessions@.len(),
        ensures
            is_keyframe_plan(
                match r {
                    Some(t) => Some(t@),
                    None => None,
                },
                mids_of(self.sessions@),
                self.rooms@,
                source,
                mid@,
            ),
    {
        let ghost mids = mids_of(self.sessions@);
        assert(mids[source as int] == self.sessions@[source as int].mid_by_kind@);
        let kind: MediaKind = match self.sessions[source].mid_by_kind.kind_on(mid) {
            Some(kind) => kind,
            None => {
                return None;
            },
        };
        let n: usize = self.rooms.rooms.len();
        let ghost es = self.rooms.rooms.entries();
        let mut i: usize = 0;
        while i < n
            invariant
                i <= n,
                n == es.len(),
                es == self.rooms.rooms.entries(),
                strmap::distinct_keys(es),
                mids == mids_of(self.sessions@),
                source < self.sessions@.len(),
                session::kind_of(mids[source as int], mid@) == Some(kind),
                forall|j: int|
                    0 <= j < i ==> keyframe_target(mids, (#[trigger] es[j]).1@, source, kind) is None,
            decreases n - i,
        {
            let room: &Room = self.rooms.rooms.value(i);
            if let Some(t) = self.keyframe_in(room, source, kind) {
                assert(self.rooms@.contains_key(es[i as int].0));
                return Some(t);
            }
            i += 1;
        }
        proof {
            assert forall|k: Seq<char>| #[trigger] self.rooms@.contains_key(k) implies keyframe_target(
                mids,
                self.rooms@[k],
                source,
                kind,
            ) is None by {
                let j = strmap::slot(es, k);
                strmap::lemma_slot(es, j);
                assert(keyframe_target(mids, es[j].1@, source, kind) is None);
            }
        }
        None
    }

    /// Where a keyframe request of session `source` goes in a room.
    fn keyframe_in(&self, room: &Room, source: usize, kind: MediaKind) -> (r: Option<Target>)
        ensures
            (match r {
                Some(t) => Some(t@),
                None => None,
            }) == keyframe_target(mids_of(self.sessions@), room@, source, kind),
    {
        let mut i: usize = 0;
        let mut subscribed: bool = false;
        while i < room.subscribers.len()
            invariant
                i <= room.subscribers.len(),
                subscribed == room.subscribers@.take(i as int).contains(source),
            decreases room.subscribers.len() - i,
        {
            let ghost subs = room.subscribers@;
            proof {
                assert(subs.take(i + 1) =~= subs.take(i as int).push(subs[i as int]));
                if subs.take(i as int).contains(source) {
                    let j = choose|j: int| 0 <= j < i && subs.take(i as int)[j] == source;
                    assert(subs.take(i + 1)[j] == source);
                }
                if subs[i as int] == source {
                    assert(subs.take(i + 1)[i as int] == source);
                }
            }
            if room.subscribers[i] == source {
                subscribed = true;
            }
            i += 1;
        }
        assert(room.subscribers@.take(i as int) =~= room.subscribers@);
        if !subscribed {
            return None;
        }
        match room.publisher {
            Some(p) => if p < self.sessions.len() {
                assert(mids_of(self.sessions@)[p as int] == self.sessions@[p as int].mid_by_kind@);
                match self.sessions[p].mid_by_kind.get(kind) {
                    Some(mid) => Some(Target { session: p, mid: mid.clone() }),
                    None => None,
                }
            } else {
                None
            },
            None => None,
        }
    }

    /// Where media that another node handed over is written.
    pub fn plan_relay(&self, packet: &RelayPacket) -> (r: Option<RelayPlan>)
        ensures
            (match r {
                Some(plan) => Some(plan@),
                None => None,
            }) == relay_plan_of(mids_of(self.sessions@), self.rooms@, packet@),
    {
        let kind: MediaKind = match packet.media_kind() {
            Some(kind) => kind,
            None => {
                return None;
            },
        };
        let data: Vec<u8> = match packet.decode_data() {
            Some(data) => data,
            None => {
                return None;
            },
        };
        let room: &Room = match self.rooms.rooms.get(packet.room.as_str()) {
            Some(room) => room,
            None => {
                return None;
            },
        };
        let targets: Vec<Target> = self.targets(room, kind);
        Some(RelayPlan { time: packet.time as u64, rate: clock_rate(kind), data, targets })
    }
}

/// Media goes to every subscriber that has a media line of its kind, on that line, and nowhere
/// else.
pub proof fn law_every_subscriber_is_served(
    mids: Seq<MidView>,
    subscribers: Seq<usize>,
    kind: MediaKind,
    t: TargetView,
)
    ensures
        targets_of(mids, subscribers, kind).contains(t) <==> subscribers.contains(t.session)
            && t.session < mids.len() && session::mid_of(mids[t.session as int], kind) == Some(t.mid),
    decreases subscribers.len(),
{
    let all = targets_of(mids, subscribers, kind);
    if subscribers.len() > 0 {
        let init = subscribers.drop_last();
        let s = subscribers.last();
        let before = targets_of(mids, init, kind);
        law_every_subscriber_is_served(mids, init, kind, t);
        assert(subscribers.contains(t.session) <==> init.contains(t.session) || s == t.session) by {
            assert(subscribers =~= init.push(s));
            if init.contains(t.session) {
                let i = choose|i: int| 0 <= i < init.len() && init[i] == t.session;
                assert(subscribers[i] == t.session);
            }
            if s == t.session {
                assert(subscribers[subscribers.len() - 1] == t.session);
            }
            if subscribers.contains(t.session) && s != t.session {
                let i = choose|i: int| 0 <= i < subscribers.len() && subscribers[i] == t.session;
                assert(init[i] == t.session);
            }
        }
        if all.len() > before.len() {
            let last = all.last();
            assert(all =~= before.push(last));
            if before.contains(t) {
                let i = choose|i: int| 0 <= i < before.len() && before[i] == t;
                assert(all[i] == t);
            }
            if last == t {
                assert(all[all.len() - 1] == t);
            }
            if all.contains(t) && last != t {
                let i = choose|i: int| 0 <= i < all.len() && all[i] == t;
                assert(before[i] == t);
            }
        }
    }
}

/// Media that one node hands to another in a packet is written there as it came in: the same bytes,
/// to the subscribers' lines of the same kind, at the same time cut to 32 bits.
pub proof fn law_relayed_media_arrives<F>(
    mids: Seq<MidView>,
    rooms: Map<Seq<char>, RoomView>,
    room: Seq<char>,
    kind: MediaKind,
    data: MediaData<F>,
    wallclock_ms: u64,
)
    requires
        rooms.contains_key(room),
        relay::base64_bytes(packet_of(room, kind, data, wallclock_ms).data) == Some(data.data@),
    ensures
        relay_plan_of(mids, rooms, packet_of(room, kind, data, wallclock_ms)) == Some(
            RelayPlanView {
                time: (data.time % 0x1_0000_0000) as u64,
                rate: clock_rate_of(kind),
                data: data.data@,
                targets: targets_of(mids, rooms[room].subscribers, kind),
            },
        ),
{
    relay::law_kind_names(kind);
}

/// The index that media is written to is the index of a session: whatever the rooms hold, nothing
/// is written past the end of the sessions.
pub proof fn law_targets_are_sessions(mids: Seq<MidView>, subscribers: Seq<usize>, kind: MediaKind)
    ensures
        forall|i: int|
            0 <= i < targets_of(mids, subscribers, kind).len() ==> (#[trigger] targets_of(
                mids,
                subscribers,
                kind,
            )[i]).session < mids.len(),
{
    let all = targets_of(mids, subscribers, kind);
    assert forall|i: int| 0 <= i < all.len() implies (#[trigger] all[i]).session < mids.len() by {
        law_every_subscriber_is_served(mids, subscribers, kind, all[i]);
        assert(all.contains(all[i]));
    }
}

/// Only what the publisher of a room sends is forwarded.
pub proof fn law_only_publishers_are_forwarded<F>(
    plan: MediaPlan,
    mids: Seq<MidView>,
    rooms: Map<Seq<char>, RoomView>,
    subs: Map<Seq<char>, Set<Seq<char>>>,
    source: usize,
    data: MediaData<F>,
    wallclock_ms: u64,
)
    requires
        is_media_plan(plan, mids, rooms, subs, source, data, wallclock_ms),
        forall|k: Seq<char>| #[trigger]
            rooms.contains_key(k) ==> rooms[k].publisher != Some(source),
    ensures
        is_empty_plan(plan),
{
}

/// No publisher is among the subscribers of its room.
pub open spec fn publishers_apart(rooms: Map<Seq<char>, RoomView>) -> bool {
    forall|k: Seq<char>| #[trigger]
        rooms.contains_key(k) ==> is_publisher_apart(rooms[k])
}

/// The publisher is not among the subscribers.
pub open spec fn is_publisher_apart(room: RoomView) -> bool {
    room.publisher matches Some(p) ==> !room.subscribers.contains(p)
}

/// Where publishers are not among their subscribers, media is forwarded to the other participants
/// of a room alone: never back to its publisher.
pub proof fn law_no_media_comes_back<F>(
    plan: MediaPlan,
    mids: Seq<MidView>,
    rooms: Map<Seq<char>, RoomView>,
    subs: Map<Seq<char>, Set<Seq<char>>>,
    source: usize,
    data: MediaData<F>,
    wallclock_ms: u64,
)
    requires
        is_media_plan(plan, mids, rooms, subs, source, data, wallclock_ms),
        publishers_apart(rooms),
    ensures
        forall|i: int|
            0 <= i < plan.targets@.len() ==> (#[trigger] plan.targets@[i]).session != source,
{
    if plan.targets@.len() > 0 {
        let kind = session::kind_of(mids[source as int], data.mid@)->0;
        let k = choose|k: Seq<char>| #[trigger]
            rooms.contains_key(k) && rooms[k].publisher == Some(source) && is_plan_for(
                plan,
                mids,
                rooms[k],
                subs,
                kind,
                data,
                wallclock_ms,
            );
        let all = targets_of(mids, rooms[k].subscribers, kind);
        assert forall|i: int| 0 <= i < plan.targets@.len() implies (
        #[trigger] plan.targets@[i]).session != source by {
            assert(target_views(plan.targets@)[i] == plan.targets@[i]@);
            assert(all.contains(all[i]));
            law_every_subscriber_is_served(mids, rooms[k].subscribers, kind, all[i]);
            assert(is_publisher_apart(rooms[k]));
        }
    }
}

/// A session that subscribes to a room is answered wherever the room's publisher is one of the
/// sessions and has a media line of the kind that is asked for, whichever of the two came first.
/// With one such room, the request goes to that publisher's line.
pub proof fn law_keyframes_reach_the_publisher(
    plan: Option<TargetView>,
    mids: Seq<MidView>,
    rooms: Map<Seq<char>, RoomView>,
    source: usize,
    mid: Seq<char>,
    kind: MediaKind,
    k: Seq<char>,
    publisher: usize,
    line: Seq<char>,
)
    requires
        is_keyframe_plan(plan, mids, rooms, source, mid),
        session::kind_of(mids[source as int], mid) == Some(kind),
        rooms.contains_key(k),
        rooms[k].subscribers.contains(source),
        rooms[k].publisher == Some(publisher),
        publisher < mids.len(),
        session::mid_of(mids[publisher as int], kind) == Some(line),
    ensures
        plan matches Some(t) && exists|room: Seq<char>| #[trigger]
            rooms.contains_key(room) && rooms[room].subscribers.contains(source)
                && rooms[room].publisher == Some(t.session) && t.session < mids.len()
                && session::mid_of(mids[t.session as int], kind) == Some(t.mid),
        (forall|room: Seq<char>| #[trigger]
            rooms.contains_key(room) && rooms[room].subscribers.contains(source) ==> room == k)
            ==> plan == Some(TargetView { session: publisher, mid: line }),
{
    assert(keyframe_target(mids, rooms[k], source, kind) is Some);
    let t = plan->0;
    let room = choose|room: Seq<char>| #[trigger]
        rooms.contains_key(room) && keyframe_target(mids, rooms[room], source, kind) == Some(t);
    assert(rooms.contains_key(room));
}

/// A request for a keyframe goes nowhere but to the publisher of a room that the session subscribes
/// to, on that publisher's line of the same kind; one on an unknown line goes nowhere.
pub proof fn law_keyframes_go_nowhere_else(
    plan: Option<TargetView>,
    mids: Seq<MidView>,
    rooms: Map<Seq<char>, RoomView>,
    source: usize,
    mid: Seq<char>,
)
    requires
        is_keyframe_plan(plan, mids, rooms, source, mid),
    ensures
        plan matches Some(t) ==> exists|room: Seq<char>, kind: MediaKind|
            rooms.contains_key(room) && rooms[room].subscribers.contains(source)
                && rooms[room].publisher == Some(t.session) && t.session < mids.len()
                && session::mid_of(mids[source as int], kind) == Some(mid)
                && #[trigger] session::mid_of(mids[t.session as int], kind) == Some(t.mid)
                && #[trigger] rooms.contains_key(room),
{
    if let Some(t) = plan {
        let kind = session::kind_of(mids[source as int], mid)->0;
        session::law_kinds_are_found_by_line(mids[source as int], mid);
        let room = choose|room: Seq<char>| #[trigger]
            rooms.contains_key(room) && keyframe_target(mids, rooms[room], source, kind) == Some(t);
        assert(rooms.contains_key(room) && session::mid_of(mids[t.session as int], kind) == Some(
            t.mid,
        ));
    }
}

/// Subscribers are served one by one, in order: what two lists of them get, one behind the other, is
/// what each gets alone, and one subscriber gets one target or none.
pub proof fn law_targets_follow_subscribers(
    mids: Seq<MidView>,
    a: Seq<usize>,
    b: Seq<usize>,
    s: usize,
    kind: MediaKind,
)
    ensures
        targets_of(mids, a + b, kind) == targets_of(mids, a, kind) + targets_of(mids, b, kind),
        s < mids.len() && session::mid_of(mids[s as int], kind) is Some ==> targets_of(
            mids,
            seq![s],
            kind,
        ) == seq![TargetView { session: s, mid: session::mid_of(mids[s as int], kind)->0 }],
        s >= mids.len() || session::mid_of(mids[s as int], kind) is None ==> targets_of(
            mids,
            seq![s],
            kind,
        ).len() == 0,
    decreases b.len(),
{
    let one = seq![s];
    assert(one.drop_last() =~= Seq::<usize>::empty());
    assert(one.last() == s);
    assert(targets_of(mids, one.drop_last(), kind) =~= Seq::<TargetView>::empty());
    if s < mids.len() && session::mid_of(mids[s as int], kind) is Some {
        assert(targets_of(mids, one, kind) =~= seq![
            TargetView { session: s, mid: session::mid_of(mids[s as int], kind)->0 },
        ]);
    }
    if b.len() == 0 {
        assert(a + b =~= a);
        assert(targets_of(mids, a, kind) + targets_of(mids, b, kind) =~= targets_of(mids, a, kind));
    } else {
        law_targets_follow_subscribers(mids, a, b.drop_last(), s, kind);
        assert((a + b).drop_last() =~= a + b.drop_last());
        assert((a + b).last() == b.last());
        assert(targets_of(mids, a + b, kind) =~= targets_of(mids, a, kind) + targets_of(
            mids,
            b,
            kind,
        ));
    }
}

/// What the publisher of one room sends on a known line is written to exactly the lines of that kind
/// of the room's subscribers, and exactly the nodes that are subscribed to the room are handed it:
/// under the room's name, as that kind, with the type and the bytes that it came with.
pub proof fn law_media_reaches_the_room<F>(
    plan: MediaPlan,
    mids: Seq<MidView>,
    rooms: Map<Seq<char>, RoomView>,
    subs: Map<Seq<char>, Set<Seq<char>>>,
    source: usize,
    data: MediaData<F>,
    wallclock_ms: u64,
    kind: MediaKind,
    k: Seq<char>,
    t: TargetView,
    node: Seq<char>,
)
    requires
        is_media_plan(plan, mids, rooms, subs, source, data, wallclock_ms),
        session::kind_of(mids[source as int], data.mid@) == Some(kind),
        rooms.contains_key(k),
        rooms[k].publisher == Some(source),
        forall|other: Seq<char>| #[trigger]
            rooms.contains_key(other) && rooms[other].publisher == Some(source) ==> other == k,
    ensures
        (exists|i: int|
            0 <= i < plan.targets@.len() && (#[trigger] plan.targets@[i]).session == t.session
                && plan.targets@[i].mid@ == t.mid) <==> rooms[k].subscribers.contains(t.session)
            && t.session < mids.len() && session::mid_of(mids[t.session as int], kind) == Some(
            t.mid,
        ),
        plan.targets@.len() <= rooms[k].subscribers.len(),
        target_views(plan.targets@) == targets_of(mids, rooms[k].subscribers, kind),
        (exists|i: int|
            0 <= i < plan.relays@.len() && (#[trigger] plan.relays@[i] matches SfuEvent::RelayData {
                target_node,
                ..
            } && target_node@ == node)) <==> subs.contains_key(rooms[k].name)
            && subs[rooms[k].name].contains(node),
        forall|i: int|
            0 <= i < plan.relays@.len() ==> (#[trigger] plan.relays@[i] matches
                SfuEvent::RelayData { packet, .. } && packet.room@ == rooms[k].name
                && relay::kind_named(packet.kind@) == Some(kind) && packet.pt == data.pt
                && packet.time as nat == data.time as nat % 0x1_0000_0000 && packet.wallclock_ms
                == wallclock_ms && packet.data@ == relay::base64_text(data.data@)),
{
    let room = rooms[k];
    let all = targets_of(mids, room.subscribers, kind);
    let nodes = relay::nodes_of(subs, room.name);
    assert(target_views(plan.targets@) == all);
    relay::law_kind_names(kind);
    lemma_targets_are_few(mids, room.subscribers, kind);
    law_every_subscriber_is_served(mids, room.subscribers, kind, t);
    if exists|i: int|
        0 <= i < plan.targets@.len() && (#[trigger] plan.targets@[i]).session == t.session
            && plan.targets@[i].mid@ == t.mid {
        let i = choose|i: int|
            0 <= i < plan.targets@.len() && (#[trigger] plan.targets@[i]).session == t.session
                && plan.targets@[i].mid@ == t.mid;
        assert(target_views(plan.targets@)[i] == plan.targets@[i]@);
        assert(all[i] == t);
        assert(all.contains(t));
    }
    if all.contains(t) {
        let i = choose|i: int| 0 <= i < all.len() && all[i] == t;
        assert(target_views(plan.targets@)[i] == plan.targets@[i]@);
        assert(plan.targets@[i].session == t.session);
    }
    if nodes.contains(node) {
        let i = choose|i: int|
            0 <= i < plan.relays@.len() && relay_in(#[trigger] plan.relays@[i]) == Some(
                (node, packet_of(room.name, kind, data, wallclock_ms)),
            );
        assert(plan.relays@[i] is RelayData);
    }
    assert forall|i: int| 0 <= i < plan.relays@.len() implies (#[trigger] plan.relays@[i] matches
        SfuEvent::RelayData { packet, target_node } && nodes.contains(target_node@) && packet@
        == packet_of(room.name, kind, data, wallclock_ms)) by {
        assert(relay_in(plan.relays@[i]) is Some);
    }
}

/// No subscriber gets media twice for one place in the list.
proof fn lemma_targets_are_few(mids: Seq<MidView>, subscribers: Seq<usize>, kind: MediaKind)
    ensures
        targets_of(mids, subscribers, kind).len() <= subscribers.len(),
    decreases subscribers.len(),
{
    if subscribers.len() > 0 {
        lemma_targets_are_few(mids, subscribers.drop_last(), kind);
    }
}

/// No node is handed one piece of media twice.
pub proof fn law_nodes_are_handed_media_once(
    events: Seq<SfuEvent>,
    nodes: Set<Seq<char>>,
    packet: PacketView,
    i: int,
    j: int,
)
    requires
        hands_to_all(events, nodes, packet),
        0 <= i < j < events.len(),
    ensures
        events[i] matches SfuEvent::RelayData { target_node: a, .. } && (events[j] matches
            SfuEvent::RelayData { target_node: b, .. } && a@ != b@),
{
    assert(relay_in(events[i]) != relay_in(events[j]));
    assert(relay_in(events[i]) is Some && relay_in(events[j]) is Some);
}

/// Media on a line that the session does not know is not forwarded.
pub proof fn law_unknown_lines_are_not_forwarded<F>(
    plan: MediaPlan,
    mids: Seq<MidView>,
    rooms: Map<Seq<char>, RoomView>,
    subs: Map<Seq<char>, Set<Seq<char>>>,
    source: usize,
    data: MediaData<F>,
    wallclock_ms: u64,
)
    requires
        is_media_plan(plan, mids, rooms, subs, source, data, wallclock_ms),
        forall|kind: MediaKind| #[trigger]
            session::mid_of(mids[source as int], kind) != Some(data.mid@),
    ensures
        plan.relays@.len() == 0,
        plan.targets@.len() == 0,
{
    session::law_kinds_are_found_by_line(mids[source as int], data.mid@);
}

/// Relayed media is written exactly where its kind is known, its data is base64 and its room is
/// there: at its own time, at its kind's clock rate, and to exactly the lines of that kind of the
/// room's subscribers.
pub proof fn law_relayed_media_reaches_the_room(
    mids: Seq<MidView>,
    rooms: Map<Seq<char>, RoomView>,
    packet: PacketView,
    t: TargetView,
)
    ensures
        relay_plan_of(mids, rooms, packet) is Some <==> (packet.kind == "audio"@ || packet.kind
            == "video"@) && relay::base64_bytes(packet.data) is Some && rooms.contains_key(
            packet.room,
        ),
        relay_plan_of(mids, rooms, packet) matches Some(plan) ==> {
            let kind = relay::kind_named(packet.kind)->0;
            &&& plan.time == packet.time
            &&& plan.rate == (if packet.kind == "video"@ {
                90_000u32
            } else {
                48_000u32
            })
            &&& relay::base64_bytes(packet.data) == Some(plan.data)
            &&& plan.targets.contains(t) <==> rooms[packet.room].subscribers.contains(t.session)
                && t.session < mids.len() && session::mid_of(mids[t.session as int], kind) == Some(
                t.mid,
            )
            &&& plan.targets.len() <= rooms[packet.room].subscribers.len()
        },
{
    relay::law_kind_names(MediaKind::Audio);
    relay::law_kind_names(MediaKind::Video);
    if let Some(kind) = relay::kind_named(packet.kind) {
        if rooms.contains_key(packet.room) {
            law_every_subscriber_is_served(mids, rooms[packet.room].subscribers, kind, t);
            lemma_targets_are_few(mids, rooms[packet.room].subscribers, kind);
        }
    }
}

/// The media lines that are planned with are those of the sessions, in order.
pub proof fn law_lines_are_the_sessions<R>(sessions: Seq<Session<R>>, i: int)
    ensures
        mids_of(sessions).len() == sessions.len(),
        0 <= i < sessions.len() ==> mids_of(sessions)[i] == sessions[i].mid_by_kind@,
{
}

/// A plan says where media is written: to each of its targets, in order, with the time, the rate and
/// the bytes that it holds.
pub proof fn law_plans_say_where_media_goes(targets: Seq<Target>, plan: RelayPlan, i: int)
    ensures
        target_views(targets).len() == targets.len(),
        0 <= i < targets.len() ==> target_views(targets)[i].session == targets[i].session
            && target_views(targets)[i].mid == targets[i].mid@,
        plan@.time == plan.time,
        plan@.rate == plan.rate,
        plan@.data == plan.data@,
        plan@.targets == target_views(plan.targets@),
{
}

/// Exactly an event with relayed media hands a packet on: to the node that it names.
pub proof fn law_relays_say_who_is_handed_what(event: SfuEvent)
    ensures
        match event {
            SfuEvent::RelayData { target_node, packet } => relay_in(event) == Some(
                (target_node@, packet@),
            ),
            _ => relay_in(event) is None,
        },
{
}

/// What a publisher sends on a known line always goes to one of the rooms that it publishes in, to
/// all subscribers of that room with a line of the kind, and to nobody else.
pub proof fn law_publishers_are_heard<F>(
    plan: MediaPlan,
    mids: Seq<MidView>,
    rooms: Map<Seq<char>, RoomView>,
    subs: Map<Seq<char>, Set<Seq<char>>>,
    source: usize,
    data: MediaData<F>,
    wallclock_ms: u64,
    kind: MediaKind,
    k: Seq<char>,
)
    requires
        is_media_plan(plan, mids, rooms, subs, source, data, wallclock_ms),
        session::kind_of(mids[source as int], data.mid@) == Some(kind),
        rooms.contains_key(k),
        rooms[k].publisher == Some(source),
    ensures
        exists|room: Seq<char>|
            {
                &&& #[trigger] rooms.contains_key(room)
                &&& rooms[room].publisher == Some(source)
                &&& forall|s: usize| #[trigger]
                    rooms[room].subscribers.contains(s) && s < mids.len() && session::mid_of(
                        mids[s as int],
                        kind,
                    ) is Some ==> exists|i: int|
                        0 <= i < plan.targets@.len() && (#[trigger] plan.targets@[i]).session == s
                            && session::mid_of(mids[s as int], kind) == Some(plan.targets@[i].mid@)
                &&& forall|i: int|
                    0 <= i < plan.targets@.len() ==> {
                        let t = #[trigger] plan.targets@[i];
                        &&& rooms[room].subscribers.contains(t.session)
                        &&& t.session < mids.len()
                        &&& session::mid_of(mids[t.session as int], kind) == Some(t.mid@)
                    }
                &&& forall|node: Seq<char>| #[trigger]
                    relay::nodes_of(subs, rooms[room].name).contains(node) ==> exists|i: int|
                        0 <= i < plan.relays@.len() && (#[trigger] plan.relays@[i] matches
                            SfuEvent::RelayData { target_node, .. } && target_node@ == node)
            },
{
    let room = choose|room: Seq<char>| #[trigger]
        rooms.contains_key(room) && rooms[room].publisher == Some(source) && is_plan_for(
            plan,
            mids,
            rooms[room],
            subs,
            kind,
            data,
            wallclock_ms,
        );
    let r = rooms[room];
    let all = targets_of(mids, r.subscribers, kind);
    assert(target_views(plan.targets@) == all);
    assert forall|s: usize| #[trigger]
        r.subscribers.contains(s) && s < mids.len() && session::mid_of(mids[s as int], kind)
            is Some implies exists|i: int|
        0 <= i < plan.targets@.len() && (#[trigger] plan.targets@[i]).session == s
            && session::mid_of(mids[s as int], kind) == Some(plan.targets@[i].mid@) by {
        let t = TargetView { session: s, mid: session::mid_of(mids[s as int], kind)->0 };
        law_every_subscriber_is_served(mids, r.subscribers, kind, t);
        let i = choose|i: int| 0 <= i < all.len() && all[i] == t;
        assert(target_views(plan.targets@)[i] == plan.targets@[i]@);
        assert(plan.targets@[i].session == s);
    }
    assert forall|i: int| 0 <= i < plan.targets@.len() implies {
        let t = #[trigger] plan.targets@[i];
        &&& r.subscribers.contains(t.session)
        &&& t.session < mids.len()
        &&& session::mid_of(mids[t.session as int], kind) == Some(t.mid@)
    } by {
        assert(target_views(plan.targets@)[i] == plan.targets@[i]@);
        assert(all.contains(all[i]));
        law_every_subscriber_is_served(mids, r.subscribers, kind, all[i]);
    }
    assert forall|node: Seq<char>| #[trigger]
        relay::nodes_of(subs, r.name).contains(node) implies exists|i: int|
        0 <= i < plan.relays@.len() && (#[trigger] plan.relays@[i] matches SfuEvent::RelayData {
            target_node,
            ..
        } && target_node@ == node) by {
        let i = choose|i: int|
            0 <= i < plan.relays@.len() && relay_in(#[trigger] plan.relays@[i]) == Some(
                (node, packet_of(r.name, kind, data, wallclock_ms)),
            );
        assert(plan.relays@[i] is RelayData);
    }
}

} // verus!
