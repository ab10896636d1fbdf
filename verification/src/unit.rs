//! What the selective forwarding unit does about commands and network input, and how it lets go of
//! sessions.
use vstd::prelude::*;

use crate::engine::{HostAddr, HostIp};
use crate::fanout;
use crate::fanout::{RelayPlan, SfuState};
use crate::message::AmpMessage;
use crate::relay;
use crate::room;
use crate::room::{Role, RoomView};
use crate::session;
use crate::session::{OfferResult, PendingOffer, Session};
use crate::sfu::SfuCommand;
use crate::text;

verus! {

/// What comes of a command.
#[derive(Debug)]
pub enum CommandOutcome {
    /// Nothing more is to be done.
    Done,
    /// Ask an engine instance to answer an offer, and say what it answers.
    Ask { pending: PendingOffer<str0m::Rtc>, offer: str0m::change::SdpOffer },
    /// There is a new session. Send the answer, and drain the session.
    Answer { session: usize, answer_msg: AmpMessage },
    /// An offer is not answered, for a reason.
    Refused(String),
    /// Write relayed media, if it goes anywhere.
    Relay(Option<RelayPlan>),
    /// The SFU ends.
    Stop,
}

/// The role that is asked for.
pub open spec fn role_in(role: Option<String>) -> Option<Role> {
    match role {
        Some(name) => room::role_named(name@),
        None => None,
    }
}

/// The rooms once a session has joined the room that it asks for, in the role that it asks for. One
/// that does not ask for both joins none.
pub open spec fn rooms_with(
    rooms: Map<Seq<char>, RoomView>,
    room: Option<String>,
    role: Option<Role>,
    idx: usize,
) -> Map<Seq<char>, RoomView> {
    match (room, role) {
        (Some(name), Some(r)) => room::joined(rooms, name@, idx, r),
        _ => rooms,
    }
}

/// What becomes of the sessions and rooms when an offer comes to `result`.
pub open spec fn is_taken_in<R>(
    before: SfuState<R>,
    after: SfuState<R>,
    room: Option<String>,
    role: Option<Role>,
    result: Result<OfferResult<R>, String>,
    outcome: CommandOutcome,
) -> bool {
    &&& after.outbound_relays == before.outbound_relays
    &&& after.inbound_relays == before.inbound_relays
    &&& match result {
        Ok(offer) => {
            &&& outcome == CommandOutcome::Answer {
                session: before.sessions@.len() as usize,
                answer_msg: offer.answer_msg,
            }
            &&& after.sessions@ == before.sessions@.push(offer.session)
            &&& after.rooms@ == rooms_with(
                before.rooms@,
                room,
                role,
                before.sessions@.len() as usize,
            )
        },
        Err(words) => outcome == CommandOutcome::Refused(words) && after.sessions
            == before.sessions && after.rooms == before.rooms,
    }
}

/// What comes of a command on a host that is reached at `addr`.
pub open spec fn is_command_outcome(
    before: SfuState<str0m::Rtc>,
    after: SfuState<str0m::Rtc>,
    command: SfuCommand,
    addr: HostAddr,
    outcome: CommandOutcome,
) -> bool {
    match command {
        SfuCommand::SdpOffer { request_id, from_addr, to_addr, sdp, room, role } => {
            &&& after == before
            &&& match outcome {
                CommandOutcome::Ask { pending, offer } => session::is_offer_outcome(
                    request_id@,
                    from_addr@,
                    to_addr@,
                    sdp@,
                    addr,
                    room,
                    role_in(role),
                    Ok((pending, offer)),
                ),
                CommandOutcome::Refused(words) => session::is_offer_outcome(
                    request_id@,
                    from_addr@,
                    to_addr@,
                    sdp@,
                    addr,
                    room,
                    role_in(role),
                    Err(words),
                ),
                _ => false,
            }
        },
        SfuCommand::RelaySubscribe { room, from_node } => {
            &&& outcome == CommandOutcome::Done
            &&& after.sessions == before.sessions
            &&& after.rooms == before.rooms
            &&& after.inbound_relays == before.inbound_relays
            &&& after.outbound_relays@ == relay::subscribed(
                before.outbound_relays@,
                room@,
                from_node@,
            )
        },
        SfuCommand::RelayUnsubscribe { room, from_node } => {
            &&& outcome == CommandOutcome::Done
            &&& after.sessions == before.sessions
            &&& after.rooms == before.rooms
            &&& after.inbound_relays == before.inbound_relays
            &&& after.outbound_relays@ == relay::unsubscribed(
                before.outbound_relays@,
                room@,
                from_node@,
            )
        },
        SfuCommand::RelayData { packet } => {
            &&& after == before
            &&& outcome matches CommandOutcome::Relay(plan) && (match plan {
                Some(p) => Some(p@),
                None => None,
            }) == fanout::relay_plan_of(
                fanout::mids_of(before.sessions@),
                before.rooms@,
                packet@,
            )
        },
        SfuCommand::Shutdown => after == before && outcome == CommandOutcome::Stop,
    }
}

/// What becomes of the sessions and rooms once the engine has answered an offer, or not.
pub open spec fn is_answer_outcome(
    before: SfuState<str0m::Rtc>,
    after: SfuState<str0m::Rtc>,
    pending: PendingOffer<str0m::Rtc>,
    answer: Result<str0m::change::SdpAnswer, String>,
    outcome: CommandOutcome,
) -> bool {
    exists|result: Result<OfferResult<str0m::Rtc>, String>|
        {
            &&& #[trigger] session::is_offer_result(pending, answer, result)
            &&& is_taken_in(before, after, pending.room, pending.role, result, outcome)
        }
}

/// The role that is asked for.
fn read_role(role: &Option<String>) -> (r: Option<Role>)
    ensures
        r == role_in(*role),
{
    match role {
        Some(name) => Role::parse(name.as_str()),
        None => None,
    }
}

impl<R> SfuState<R> {
    /// Takes in the session that an offer came to, and lets it join its room.
    pub fn take_in(
        &mut self,
        room: Option<String>,
        role: Option<Role>,
        result: Result<OfferResult<R>, String>,
    ) -> (r: CommandOutcome)
        ensures
            is_taken_in(*old(self), *final(self), room, role, result, r),
    {
        match result {
            Ok(offer) => {
                let idx: usize = self.sessions.len();
                self.sessions.push(offer.session);
                if let (Some(name), Some(role)) = (room, role) {
                    self.rooms.join(name.as_str(), idx, role);
                }
                CommandOutcome::Answer { session: idx, answer_msg: offer.answer_msg }
            },
            Err(words) => CommandOutcome::Refused(words),
        }
    }

    /// The session that a network input is for, where `accepted` says of each session whether its
    /// engine accepts the input: the first whose engine does.
    pub fn session_for(&self, accepted: &Vec<bool>) -> (r: Option<usize>)
        requires
            accepted@.len() == self.sessions@.len(),
        ensures
            match r {
                Some(i) => i < self.sessions@.len() && accepted@[i as int] && forall|j: int|
                    0 <= j < i ==> !#[trigger] accepted@[j],
                None => forall|j: int|
                    0 <= j < self.sessions@.len() ==> !#[trigger] accepted@[j],
            },
    {
        let mut i: usize = 0;
        while i < accepted.len()
            invariant
                i <= accepted@.len(),
                accepted@.len() == self.sessions@.len(),
                forall|j: int| 0 <= j < i ==> !#[trigger] accepted@[j],
            decreases accepted@.len() - i,
        {
            if accepted[i] {
                return Some(i);
            }
            i += 1;
        }
        None
    }
}

impl SfuState<str0m::Rtc> {
    /// What the SFU does about a command. A host that listens at every address is reached at
    /// `default_ip`.
    pub fn on_command(&mut self, command: SfuCommand, local_addr: HostAddr, default_ip: HostIp) -> (r:
        CommandOutcome)
        ensures
            is_command_outcome(
                *old(self),
                *final(self),
                command,
                session::candidate_addr(local_addr, default_ip),
                r,
            ),
    {
        match command {
            SfuCommand::SdpOffer { request_id, from_addr, to_addr, sdp, room, role } => {
                let role: Option<Role> = read_role(&role);
                match Session::handle_sdp_offer(
                    request_id.as_str(),
                    from_addr.as_str(),
                    to_addr.as_str(),
                    sdp.as_str(),
                    local_addr,
                    default_ip,
                    room,
                    role,
                ) {
                    Ok((pending, offer)) => CommandOutcome::Ask { pending, offer },
                    Err(words) => CommandOutcome::Refused(words),
                }
            },
            SfuCommand::RelaySubscribe { room, from_node } => {
                self.outbound_relays.subscribe(room.as_str(), from_node.as_str());
                CommandOutcome::Done
            },
            SfuCommand::RelayUnsubscribe { room, from_node } => {
                self.outbound_relays.unsubscribe(room.as_str(), from_node.as_str());
                CommandOutcome::Done
            },
            SfuCommand::RelayData { packet } => CommandOutcome::Relay(self.plan_relay(&packet)),
            SfuCommand::Shutdown => CommandOutcome::Stop,
        }
    }

    /// What the SFU does once the engine has answered an offer, or said why it does not: it takes in
    /// the new session, and lets it join the room that was asked for.
    pub fn on_answer(
        &mut self,
        pending: PendingOffer<str0m::Rtc>,
        answer: Result<str0m::change::SdpAnswer, String>,
    ) -> (r: CommandOutcome)
        ensures
            is_answer_outcome(*old(self), *final(self), pending, answer, r),
    {
        let room: Option<String> = text::copy_option(&pending.room);
        let role: Option<Role> = pending.role;
        let result: Result<OfferResult<str0m::Rtc>, String> = pending.answered(answer);
        self.take_in(room, role, result)
    }

    /// Lets go of the sessions that are not alive, in order, and of their places in rooms.
    pub fn remove_dead(&mut self)
        ensures
            ({
                let alive = |s: Session<str0m::Rtc>| session::is_session_alive(s);
                let after = cleaned(old(self).sessions@, old(self).rooms@, alive, 0);
                &&& final(self).sessions@ == after.0
                &&& final(self).rooms@ == after.1
            }),
            final(self).outbound_relays == old(self).outbound_relays,
            final(self).inbound_relays == old(self).inbound_relays,
    {
        let ghost alive = |s: Session<str0m::Rtc>| session::is_session_alive(s);
        let mut i: usize = 0;
        while i < self.sessions.len()
            invariant
                i <= self.sessions@.len(),
                alive == (|s: Session<str0m::Rtc>| session::is_session_alive(s)),
                cleaned(self.sessions@, self.rooms@, alive, i as int) == cleaned(
                    old(self).sessions@,
                    old(self).rooms@,
                    alive,
                    0,
                ),
                self.outbound_relays == old(self).outbound_relays,
                self.inbound_relays == old(self).inbound_relays,
            decreases self.sessions@.len() - i,
        {
            if self.sessions[i].is_alive() {
                i += 1;
            } else {
                let _ = self.sessions.remove(i);
                self.rooms.remove_session(i);
            }
        }
    }
}

/// The sessions and rooms once the sessions from the `i`-th on that are not alive are gone.
pub open spec fn cleaned<S>(
    sessions: Seq<S>,
    rooms: Map<Seq<char>, RoomView>,
    alive: spec_fn(S) -> bool,
    i: int,
) -> (Seq<S>, Map<Seq<char>, RoomView>)
    decreases sessions.len() - i,
{
    if i < 0 || i >= sessions.len() {
        (sessions, rooms)
    } else if alive(sessions[i]) {
        cleaned(sessions, rooms, alive, i + 1)
    } else {
        cleaned(
            sessions.remove(i),
            room::all_without_session(rooms, i as usize),
            alive,
            i,
        )
    }
}

/// The sessions of the subscribers of a room.
pub open spec fn subscribers_in<S>(sessions: Seq<S>, room: RoomView) -> Seq<S> {
    room::sessions_at(sessions, room.subscribers)
}

/// The publisher of a room is alive.
pub open spec fn has_publisher<S>(sessions: Seq<S>, room: RoomView, alive: spec_fn(S) -> bool) -> bool {
    room.publisher matches Some(p) && alive(sessions[p as int])
}

/// `after` is `room` with its living members alone, each the session that it was.
pub open spec fn keeps_living_members<S>(
    sessions: Seq<S>,
    room: RoomView,
    alive: spec_fn(S) -> bool,
    left: Seq<S>,
    after: RoomView,
) -> bool {
    &&& after.name == room.name
    &&& subscribers_in(left, after) == subscribers_in(sessions, room).filter(alive)
    &&& after.publisher is Some ==> has_publisher(sessions, room, alive)
        && left[after.publisher->0 as int] == sessions[room.publisher->0 as int]
    &&& has_publisher(sessions, room, alive) ==> after.publisher is Some
}

/// The living members of a room without its `removed`-th session, which is not alive.
proof fn lemma_others_alive<S>(
    sessions: Seq<S>,
    subscribers: Seq<usize>,
    removed: usize,
    alive: spec_fn(S) -> bool,
)
    requires
        removed < sessions.len(),
        !alive(sessions[removed as int]),
    ensures
        room::sessions_at(sessions, room::others(subscribers, removed)).filter(alive)
            == room::sessions_at(sessions, subscribers).filter(alive),
    decreases subscribers.len(),
{
    reveal(Seq::filter);
    let all = room::sessions_at(sessions, subscribers);
    let kept = room::others(subscribers, removed);
    if subscribers.len() > 0 {
        let init = subscribers.drop_last();
        lemma_others_alive(sessions, init, removed, alive);
        assert(all.drop_last() =~= room::sessions_at(sessions, init));
        if subscribers.last() != removed {
            let some = room::sessions_at(sessions, kept);
            assert(some.drop_last() =~= room::sessions_at(
                sessions,
                room::others(init, removed),
            ));
        }
    }
}

/// Letting go of a session that is not alive keeps the living members of a room.
proof fn lemma_remove_keeps<S>(
    sessions: Seq<S>,
    r: RoomView,
    removed: usize,
    alive: spec_fn(S) -> bool,
)
    requires
        removed < sessions.len(),
        room::members_below(r, sessions.len()),
        !alive(sessions[removed as int]),
    ensures
        subscribers_in(
            sessions.remove(removed as int),
            room::without_session(r, removed),
        ).filter(alive) == subscribers_in(sessions, r).filter(alive),
        has_publisher(sessions.remove(removed as int), room::without_session(r, removed), alive)
            == has_publisher(sessions, r, alive),
        has_publisher(sessions, r, alive) ==> sessions.remove(removed as int)[room::without_session(
            r,
            removed,
        ).publisher->0 as int] == sessions[r.publisher->0 as int],
        room::members_below(room::without_session(r, removed), (sessions.len() - 1) as nat),
        room::without_session(r, removed).name == r.name,
{
    room::law_members_keep_their_session(r, sessions, removed);
    lemma_others_alive(sessions, r.subscribers, removed, alive);
}

/// A list of living sessions is all that is left of itself.
proof fn lemma_all_alive<S>(s: Seq<S>, alive: spec_fn(S) -> bool)
    requires
        forall|i: int| 0 <= i < s.len() ==> alive(#[trigger] s[i]),
    ensures
        s.filter(alive) == s,
    decreases s.len(),
{
    reveal(Seq::filter);
    if s.len() > 0 {
        let init = s.drop_last();
        assert forall|i: int| 0 <= i < init.len() implies alive(#[trigger] init[i]) by {
            assert(init[i] == s[i]);
        }
        lemma_all_alive(init, alive);
        assert(init.push(s.last()) =~= s);
        assert(alive(s[s.len() - 1]));
    } else {
        assert(s.filter(alive) =~= s);
    }
}

/// Leaving out one that is not alive leaves the living.
proof fn lemma_filter_remove<S>(s: Seq<S>, i: int, alive: spec_fn(S) -> bool)
    requires
        0 <= i < s.len(),
        !alive(s[i]),
    ensures
        s.remove(i).filter(alive) == s.filter(alive),
    decreases s.len(),
{
    reveal(Seq::filter);
    let rest = s.remove(i);
    if i == s.len() - 1 {
        assert(rest =~= s.drop_last());
    } else {
        lemma_filter_remove(s.drop_last(), i, alive);
        assert(rest.drop_last() =~= s.drop_last().remove(i));
        assert(rest.last() == s.last());
    }
}

/// What is left once the first `i` sessions are known to be alive.
proof fn lemma_cleaned<S>(
    sessions: Seq<S>,
    rooms: Map<Seq<char>, RoomView>,
    alive: spec_fn(S) -> bool,
    i: int,
)
    requires
        0 <= i <= sessions.len() <= usize::MAX,
        forall|j: int| 0 <= j < i ==> alive(#[trigger] sessions[j]),
        room::rooms_of_sessions(rooms, sessions.len()),
    ensures
        ({
            let after = cleaned(sessions, rooms, alive, i);
            &&& after.0 == sessions.filter(alive)
            &&& room::rooms_of_sessions(after.1, after.0.len())
            &&& forall|k: Seq<char>| #[trigger]
                after.1.contains_key(k) ==> rooms.contains_key(k) && keeps_living_members(
                    sessions,
                    rooms[k],
                    alive,
                    after.0,
                    after.1[k],
                )
            &&& forall|k: Seq<char>| #[trigger]
                rooms.contains_key(k) && !after.1.contains_key(k) ==> !has_publisher(
                    sessions,
                    rooms[k],
                    alive,
                ) && subscribers_in(sessions, rooms[k]).filter(alive).len() == 0
        }),
    decreases sessions.len() - i,
{
    let after = cleaned(sessions, rooms, alive, i);
    if i == sessions.len() {
        lemma_all_alive(sessions, alive);
        assert forall|k: Seq<char>| #[trigger] after.1.contains_key(k) implies keeps_living_members(
            sessions,
            rooms[k],
            alive,
            after.0,
            after.1[k],
        ) by {
            let subs = subscribers_in(sessions, rooms[k]);
            assert forall|j: int| 0 <= j < subs.len() implies alive(#[trigger] subs[j]) by {
                assert(rooms[k].subscribers[j] < sessions.len());
                assert(alive(sessions[rooms[k].subscribers[j] as int]));
            }
            lemma_all_alive(subs, alive);
        }
    } else if alive(sessions[i]) {
        lemma_cleaned(sessions, rooms, alive, i + 1);
    } else {
        let rest = sessions.remove(i);
        let removed = i as usize;
        let fewer = room::all_without_session(rooms, removed);
        room::law_remove_keeps_rooms(rooms, sessions.len(), removed);
        lemma_cleaned(rest, fewer, alive, i);
        lemma_filter_remove(sessions, i, alive);
        assert forall|k: Seq<char>| #[trigger] after.1.contains_key(k) implies rooms.contains_key(k)
            && keeps_living_members(sessions, rooms[k], alive, after.0, after.1[k]) by {
            assert(fewer.contains_key(k));
            lemma_remove_keeps(sessions, rooms[k], removed, alive);
        }
        assert forall|k: Seq<char>| #[trigger]
            rooms.contains_key(k) && !after.1.contains_key(k) implies !has_publisher(
            sessions,
            rooms[k],
            alive,
        ) && subscribers_in(sessions, rooms[k]).filter(alive).len() == 0 by {
            lemma_remove_keeps(sessions, rooms[k], removed, alive);
            let less = room::without_session(rooms[k], removed);
            if !fewer.contains_key(k) {
                assert(subscribers_in(rest, less).len() == 0);
                lemma_all_alive(subscribers_in(rest, less), alive);
            }
        }
    }
}

/// Letting go of the sessions that are not alive leaves exactly the living, in order. Every room
/// keeps its living members, each the session that it was, and a room without living members is
/// gone. What holds of the rooms of the sessions holds of them afterwards.
pub proof fn law_cleanup<S>(
    sessions: Seq<S>,
    rooms: Map<Seq<char>, RoomView>,
    alive: spec_fn(S) -> bool,
)
    requires
        sessions.len() <= usize::MAX,
        room::rooms_of_sessions(rooms, sessions.len()),
    ensures
        ({
            let after = cleaned(sessions, rooms, alive, 0);
            &&& after.0 == sessions.filter(alive)
            &&& room::rooms_of_sessions(after.1, after.0.len())
            &&& forall|k: Seq<char>| #[trigger]
                after.1.contains_key(k) ==> rooms.contains_key(k) && keeps_living_members(
                    sessions,
                    rooms[k],
                    alive,
                    after.0,
                    after.1[k],
                )
            &&& forall|k: Seq<char>| #[trigger]
                rooms.contains_key(k) && !after.1.contains_key(k) ==> !has_publisher(
                    sessions,
                    rooms[k],
                    alive,
                ) && subscribers_in(sessions, rooms[k]).filter(alive).len() == 0
        }),
{
    lemma_cleaned(sessions, rooms, alive, 0);
}

/// Whatever comes of a command, the sessions and the rooms stay what they were.
pub proof fn law_commands_keep_sessions(
    before: SfuState<str0m::Rtc>,
    after: SfuState<str0m::Rtc>,
    command: SfuCommand,
    addr: HostAddr,
    outcome: CommandOutcome,
)
    requires
        is_command_outcome(before, after, command, addr, outcome),
    ensures
        after.sessions == before.sessions,
        after.rooms == before.rooms,
{
}

/// Whatever the engine answers, the rooms stay rooms of the sessions. Exactly an answer adds a
/// session, behind the others.
pub proof fn law_answers_keep_rooms(
    before: SfuState<str0m::Rtc>,
    after: SfuState<str0m::Rtc>,
    pending: PendingOffer<str0m::Rtc>,
    answer: Result<str0m::change::SdpAnswer, String>,
    outcome: CommandOutcome,
)
    requires
        is_answer_outcome(before, after, pending, answer, outcome),
        room::rooms_of_sessions(before.rooms@, before.sessions@.len()),
    ensures
        room::rooms_of_sessions(after.rooms@, after.sessions@.len()),
        outcome is Answer <==> session::answer_words(answer) is Ok,
        outcome is Answer ==> after.sessions@.len() == before.sessions@.len() + 1
            && after.sessions@.drop_last() == before.sessions@,
        outcome !is Answer ==> after.sessions == before.sessions,
{
    let n = before.sessions@.len();
    if outcome is Answer {
        assert(before.sessions.len() == n);
        assert(after.sessions@.drop_last() =~= before.sessions@);
        assert(room::rooms_of_sessions(before.rooms@, n + 1)) by {
            assert forall|k: Seq<char>| #[trigger]
                before.rooms@.contains_key(k) implies room::members_below(
                before.rooms@[k],
                n + 1,
            ) by {
                assert(room::members_below(before.rooms@[k], n));
            }
        }
        if let (Some(name), Some(r)) = (pending.room, pending.role) {
            room::law_join_keeps_rooms(before.rooms@, n + 1, name@, n as usize, r);
        }
    }
}

/// Letting a new session join keeps publishers apart from their subscribers.
proof fn lemma_join_apart(rooms: Map<Seq<char>, RoomView>, name: Seq<char>, newest: usize, role: Role)
    requires
        room::rooms_of_sessions(rooms, newest as nat),
        fanout::publishers_apart(rooms),
    ensures
        fanout::publishers_apart(room::joined(rooms, name, newest, role)),
{
    let after = room::joined(rooms, name, newest, role);
    assert forall|k: Seq<char>| #[trigger]
        after.contains_key(k) implies fanout::is_publisher_apart(after[k]) by {
        if k != name {
            assert(rooms.contains_key(k));
        } else {
            let r = room::room_or_new(rooms, name);
            assert(room::members_below(r, newest as nat));
            assert(fanout::is_publisher_apart(r));
            let more = room::with_member(r, newest, role);
            if more.publisher is Some && more.subscribers.contains(more.publisher->0) {
                let p = more.publisher->0;
                let j = choose|j: int| 0 <= j < more.subscribers.len() && more.subscribers[j] == p;
                if j < r.subscribers.len() {
                    assert(more.subscribers[j] == r.subscribers[j]);
                    assert(r.subscribers.contains(p));
                    assert(r.subscribers[j] < newest);
                }
            }
        }
    }
}

/// Removing a session keeps publishers apart from their subscribers.
proof fn lemma_remove_apart(rooms: Map<Seq<char>, RoomView>, removed: usize)
    requires
        fanout::publishers_apart(rooms),
    ensures
        fanout::publishers_apart(room::all_without_session(rooms, removed)),
{
    let after = room::all_without_session(rooms, removed);
    assert forall|k: Seq<char>| #[trigger]
        after.contains_key(k) implies fanout::is_publisher_apart(after[k]) by {
        assert(rooms.contains_key(k));
        let r = rooms[k];
        let less = room::without_session(r, removed);
        room::lemma_others(r.subscribers, removed);
        if less.publisher is Some && less.subscribers.contains(less.publisher->0) {
            let p = r.publisher->0;
            let kept = room::others(r.subscribers, removed);
            let j = choose|j: int|
                0 <= j < less.subscribers.len() && less.subscribers[j] == less.publisher->0;
            assert(less.subscribers[j] == room::shifted(kept[j], removed));
            assert(r.subscribers.contains(kept[j]));
            assert(kept[j] == p);
        }
    }
}

/// Letting go of sessions keeps publishers apart from their subscribers.
pub proof fn law_cleanup_keeps_publishers_apart<S>(
    sessions: Seq<S>,
    rooms: Map<Seq<char>, RoomView>,
    alive: spec_fn(S) -> bool,
    i: int,
)
    requires
        fanout::publishers_apart(rooms),
    ensures
        fanout::publishers_apart(cleaned(sessions, rooms, alive, i).1),
    decreases sessions.len() - i,
{
    if 0 <= i < sessions.len() {
        if alive(sessions[i]) {
            law_cleanup_keeps_publishers_apart(sessions, rooms, alive, i + 1);
        } else {
            lemma_remove_apart(rooms, i as usize);
            law_cleanup_keeps_publishers_apart(
                sessions.remove(i),
                room::all_without_session(rooms, i as usize),
                alive,
                i,
            );
        }
    }
}

/// Whatever the engine answers, publishers stay apart from their subscribers.
pub proof fn law_answers_keep_publishers_apart(
    before: SfuState<str0m::Rtc>,
    after: SfuState<str0m::Rtc>,
    pending: PendingOffer<str0m::Rtc>,
    answer: Result<str0m::change::SdpAnswer, String>,
    outcome: CommandOutcome,
)
    requires
        is_answer_outcome(before, after, pending, answer, outcome),
        room::rooms_of_sessions(before.rooms@, before.sessions@.len()),
        fanout::publishers_apart(before.rooms@),
    ensures
        fanout::publishers_apart(after.rooms@),
{
    if outcome is Answer {
        assert(before.sessions.len() == before.sessions@.len());
        if let (Some(name), Some(r)) = (pending.room, pending.role) {
            lemma_join_apart(before.rooms@, name@, before.sessions@.len() as usize, r);
        }
    }
}

/// A node that asks for a room's media, or asks no longer, is from then on among the nodes of that
/// room, or not; all other subscriptions stay.
pub proof fn law_relay_commands_change_subscriptions(
    before: SfuState<str0m::Rtc>,
    after: SfuState<str0m::Rtc>,
    command: SfuCommand,
    addr: HostAddr,
    outcome: CommandOutcome,
    room: Seq<char>,
    node: Seq<char>,
)
    requires
        is_command_outcome(before, after, command, addr, outcome),
    ensures
        relay::nodes_of(after.outbound_relays@, room).contains(node) <==> (match command {
            SfuCommand::RelaySubscribe { room: r, from_node } => (r@ == room && from_node@ == node)
                || relay::nodes_of(before.outbound_relays@, room).contains(node),
            SfuCommand::RelayUnsubscribe { room: r, from_node } => !(r@ == room && from_node@
                == node) && relay::nodes_of(before.outbound_relays@, room).contains(node),
            _ => relay::nodes_of(before.outbound_relays@, room).contains(node),
        }),
        after.inbound_relays == before.inbound_relays,
{
    match command {
        SfuCommand::RelaySubscribe { room: r, from_node } => {
            relay::law_subscriptions_are_apart(
                before.outbound_relays@,
                r@,
                from_node@,
                room,
                node,
            );
        },
        SfuCommand::RelayUnsubscribe { room: r, from_node } => {
            relay::law_subscriptions_are_apart(
                before.outbound_relays@,
                r@,
                from_node@,
                room,
                node,
            );
        },
        _ => {},
    }
}

/// Each command comes to what it asks for: an offer is asked about or refused, relayed media is
/// planned, a relay request is done, and only the command to shut down ends the SFU.
pub proof fn law_commands_are_done(
    before: SfuState<str0m::Rtc>,
    after: SfuState<str0m::Rtc>,
    command: SfuCommand,
    addr: HostAddr,
    outcome: CommandOutcome,
)
    requires
        is_command_outcome(before, after, command, addr, outcome),
    ensures
        outcome is Stop <==> command is Shutdown,
        outcome is Ask || outcome is Refused <==> command is SdpOffer,
        outcome is Relay <==> command is RelayData,
        outcome is Done <==> command is RelaySubscribe || command is RelayUnsubscribe,
        command matches SfuCommand::SdpOffer { sdp, .. } ==> (outcome is Ask
            <==> crate::engine::spells_offer(sdp@) && crate::engine::is_reachable_ip(addr.ip)),
        command matches SfuCommand::SdpOffer { request_id, from_addr, to_addr, room, role, .. } ==> (
        outcome matches CommandOutcome::Ask { pending, .. } ==> pending.request_id@ == request_id@
            && pending.from_addr@ == from_addr@ && pending.to_addr@ == to_addr@ && pending.room
            == room && pending.role == role_in(role)),
        command matches SfuCommand::RelayData { packet } ==> (outcome matches CommandOutcome::Relay(
            plan,
        ) && (plan is Some <==> relay::kind_named(packet@.kind) is Some && relay::base64_bytes(
            packet@.data,
        ) is Some && before.rooms@.contains_key(packet@.room)) && (plan matches Some(p)
            ==> fanout::relay_plan_of(
            fanout::mids_of(before.sessions@),
            before.rooms@,
            packet@,
        ) == Some(p@))),
{
    if let SfuCommand::SdpOffer { request_id, from_addr, to_addr, sdp, room, role } = command {
        let r = match outcome {
            CommandOutcome::Ask { pending, offer } => Ok((pending, offer)),
            CommandOutcome::Refused(words) => Err(words),
            _ => arbitrary(),
        };
        session::law_offers_are_asked(
            request_id@,
            from_addr@,
            to_addr@,
            sdp@,
            addr,
            room,
            role_in(role),
            r,
        );
    }
}

/// A role is asked for by its name; one without a name, or by another, asks for none.
pub proof fn law_asked_role(role: Option<String>)
    ensures
        role_in(role) == Some(Role::Publisher) <==> (role matches Some(s) && s@ == "publisher"@),
        role_in(role) == Some(Role::Subscriber) <==> (role matches Some(s) && s@ == "subscriber"@),
{
    if let Some(s) = role {
        room::law_roles_have_names(s@);
    }
}

/// A session that is taken in is the last one, and joins the room and takes the role that were asked
/// for: as the room's publisher, or behind its other subscribers. Without both it joins no room. No
/// other room changes, nor does a refused offer change any.
pub proof fn law_new_sessions_join_their_room<R>(
    before: SfuState<R>,
    after: SfuState<R>,
    name: Option<String>,
    role: Option<Role>,
    result: Result<OfferResult<R>, String>,
    outcome: CommandOutcome,
    other: Seq<char>,
)
    requires
        is_taken_in(before, after, name, role, result, outcome),
    ensures
        outcome is Answer <==> result is Ok,
        outcome is Refused <==> result is Err,
        result matches Ok(offer) ==> {
            let newest = before.sessions@.len();
            &&& after.sessions@.len() == newest + 1
            &&& after.sessions@.last() == offer.session
            &&& before.sessions@.is_prefix_of(after.sessions@)
            &&& outcome == (CommandOutcome::Answer {
                session: newest as usize,
                answer_msg: offer.answer_msg,
            })
            &&& name is Some && role == Some(Role::Publisher)
                ==> after.rooms@.contains_key(name->0@) && after.rooms@[name->0@].publisher == Some(
                newest as usize,
            )
            &&& name is Some && role == Some(Role::Subscriber)
                ==> after.rooms@.contains_key(name->0@)
                && after.rooms@[name->0@].subscribers.len() > 0
                && after.rooms@[name->0@].subscribers.last() == newest as usize
            &&& name is Some && role is Some ==> after.rooms@ == room::joined(
                before.rooms@,
                name->0@,
                newest as usize,
                role->0,
            )
            &&& name is None || role is None ==> after.rooms@ == before.rooms@
        },
        result matches Err(words) ==> outcome == CommandOutcome::Refused(words)
            && after.sessions@ == before.sessions@ && after.rooms@ == before.rooms@,
        !(name matches Some(n) && n@ == other) && before.rooms@.contains_key(other)
            ==> after.rooms@.contains_key(other) && after.rooms@[other] == before.rooms@[other],
        after.outbound_relays == before.outbound_relays,
        after.inbound_relays == before.inbound_relays,
{
}

/// Once the engine has answered an offer, there is one more session: around the engine that was
/// asked, in the room and the role that were asked for, and the answer goes to who asked. An offer
/// that is not answered changes nothing.
pub proof fn law_answers_join_the_room_asked_for(
    before: SfuState<str0m::Rtc>,
    after: SfuState<str0m::Rtc>,
    pending: PendingOffer<str0m::Rtc>,
    answer: Result<str0m::change::SdpAnswer, String>,
    outcome: CommandOutcome,
)
    requires
        is_answer_outcome(before, after, pending, answer, outcome),
    ensures
        match outcome {
            CommandOutcome::Answer { session, answer_msg } => {
                let newest = before.sessions@.len();
                &&& session == newest as usize
                &&& after.sessions@.len() == newest + 1
                &&& after.sessions@.last().rtc == pending.rtc
                &&& after.sessions@.last().id@ == pending.request_id@
                &&& after.sessions@.last().room == pending.room
                &&& after.sessions@.last().role == pending.role
                &&& after.sessions@.last().alive
                &&& pending.room is Some && pending.role is Some ==> after.rooms@ == room::joined(
                    before.rooms@,
                    pending.room->0@,
                    newest as usize,
                    pending.role->0,
                )
                &&& pending.room is None || pending.role is None ==> after.rooms@ == before.rooms@
                &&& crate::message::header(answer_msg@, "to"@) == Some(pending.from_addr@)
                &&& crate::message::header(answer_msg@, "reply-to"@) == Some(pending.request_id@)
                &&& answer is Ok && crate::engine::answer_text(answer->Ok_0) == Ok::<
                    Seq<char>,
                    Seq<char>,
                >(answer_msg@.body)
            },
            CommandOutcome::Refused(words) => {
                &&& after.sessions == before.sessions
                &&& after.rooms == before.rooms
                &&& answer matches Err(e) ==> words@ == "accept_offer failed: "@ + e@
            },
            _ => false,
        },
        after.outbound_relays == before.outbound_relays,
        after.inbound_relays == before.inbound_relays,
{
    let result = choose|result: Result<OfferResult<str0m::Rtc>, String>|
        {
            &&& #[trigger] session::is_offer_result(pending, answer, result)
            &&& is_taken_in(before, after, pending.room, pending.role, result, outcome)
        };
    session::law_answered_offers_become_sessions(pending, answer, result);
}

/// What letting go of sessions leaves of a room, told session by session: the subscribers that live,
/// in order, and the publisher if it lives. The room stays exactly where one of them is left.
pub proof fn law_cleanup_keeps_the_living<S>(
    sessions: Seq<S>,
    rooms: Map<Seq<char>, RoomView>,
    alive: spec_fn(S) -> bool,
    k: Seq<char>,
)
    requires
        sessions.len() <= usize::MAX,
        room::rooms_of_sessions(rooms, sessions.len()),
        rooms.contains_key(k),
    ensures
        ({
            let after = cleaned(sessions, rooms, alive, 0);
            let living = rooms[k].subscribers.map_values(|i: usize| sessions[i as int]).filter(
                alive,
            );
            let left = after.1[k].subscribers.map_values(|i: usize| after.0[i as int]);
            let sends = rooms[k].publisher is Some && alive(
                sessions[rooms[k].publisher->0 as int],
            );
            &&& after.0 == sessions.filter(alive)
            &&& after.1.contains_key(k) <==> living.len() > 0 || sends
            &&& after.1.contains_key(k) ==> {
                &&& after.1[k].name == rooms[k].name
                &&& left == living
                &&& after.1[k].publisher is Some <==> sends
                &&& sends ==> after.0[after.1[k].publisher->0 as int]
                    == sessions[rooms[k].publisher->0 as int]
            }
        }),
{
    law_cleanup(sessions, rooms, alive);
    let after = cleaned(sessions, rooms, alive, 0);
    if after.1.contains_key(k) {
        assert(keeps_living_members(sessions, rooms[k], alive, after.0, after.1[k]));
        assert(!room::is_vacant(after.1[k]));
        assert(subscribers_in(after.0, after.1[k]).len() == after.1[k].subscribers.len());
    }
}

} // verus!
