//! Rooms: who sends and who watches.
use vstd::prelude::*;

use crate::strmap::StrMap;
use crate::text;

verus! {

/// Role of a session within a room.
#[derive(Debug, Clone, Copy, PartialEq, Eq, Structural)]
pub enum Role {
    Publisher,
    Subscriber,
}

/// The role that `s` names.
pub open spec fn role_named(s: Seq<char>) -> Option<Role> {
    if s == "publisher"@ {
        Some(Role::Publisher)
    } else if s == "subscriber"@ {
        Some(Role::Subscriber)
    } else {
        None
    }
}

impl Role {
    /// The role that `s` names.
    pub fn parse(s: &str) -> (r: Option<Role>)
        ensures
            r == role_named(s@),
    {
        if text::str_eq(s, "publisher") {
            Some(Role::Publisher)
        } else if text::str_eq(s, "subscriber") {
            Some(Role::Subscriber)
        } else {
            None
        }
    }
}

/// A room containing one optional publisher and N subscribers.
#[derive(Debug)]
pub struct Room {
    pub name: String,
    /// Session index of the publisher (into the sessions Vec).
    pub publisher: Option<usize>,
    /// Session indices of subscribers.
    pub subscribers: Vec<usize>,
}

/// What a [`Room`] holds.
pub struct RoomView {
    pub name: Seq<char>,
    pub publisher: Option<usize>,
    pub subscribers: Seq<usize>,
}

impl View for Room {
    type V = RoomView;

    open spec fn view(&self) -> RoomView {
        RoomView {
            name: self.name@,
            publisher: self.publisher,
            subscribers: self.subscribers@,
        }
    }
}

/// Registry of active rooms, keyed by room name.
#[derive(Debug)]
pub struct RoomRegistry {
    pub rooms: StrMap<Room>,
}

impl View for RoomRegistry {
    type V = Map<Seq<char>, RoomView>;

    open spec fn view(&self) -> Map<Seq<char>, RoomView> {
        Map::new(|k: Seq<char>| self.rooms@.contains_key(k), |k: Seq<char>| self.rooms@[k]@)
    }
}

/// The room of a name: the one that is there, or a new one without members.
pub open spec fn room_or_new(rooms: Map<Seq<char>, RoomView>, name: Seq<char>) -> RoomView {
    if rooms.contains_key(name) {
        rooms[name]
    } else {
        RoomView { name, publisher: None, subscribers: Seq::empty() }
    }
}

/// The room once session `idx` has joined it: as its publisher, in place of any other, or as one
/// more subscriber.
pub open spec fn with_member(room: RoomView, idx: usize, role: Role) -> RoomView {
    match role {
        Role::Publisher => RoomView { publisher: Some(idx), ..room },
        Role::Subscriber => RoomView { subscribers: room.subscribers.push(idx), ..room },
    }
}

/// The rooms once session `idx` has joined.
pub open spec fn joined(
    rooms: Map<Seq<char>, RoomView>,
    name: Seq<char>,
    idx: usize,
    role: Role,
) -> Map<Seq<char>, RoomView> {
    rooms.insert(name, with_member(room_or_new(rooms, name), idx, role))
}

/// The index of a session once session `removed`, another one, is gone.
pub open spec fn shifted(i: usize, removed: usize) -> usize {
    if i > removed {
        (i - 1) as usize
    } else {
        i
    }
}

/// The subscribers but for `removed`, in order.
pub open spec fn others(subscribers: Seq<usize>, removed: usize) -> Seq<usize>
    decreases subscribers.len(),
{
    if subscribers.len() == 0 {
        Seq::empty()
    } else {
        let before = others(subscribers.drop_last(), removed);
        if subscribers.last() == removed {
            before
        } else {
            before.push(subscribers.last())
        }
    }
}

/// The room once session `removed` is gone: it is no member any more, and every other member has
/// the index that its session has now.
pub open spec fn without_session(room: RoomView, removed: usize) -> RoomView {
    RoomView {
        name: room.name,
        publisher: match room.publisher {
            Some(p) => if p == removed {
                None
            } else {
                Some(shifted(p, removed))
            },
            None => None,
        },
        subscribers: others(room.subscribers, removed).map_values(
            |i: usize| shifted(i, removed),
        ),
    }
}

/// A room without members.
pub open spec fn is_vacant(room: RoomView) -> bool {
    room.publisher is None && room.subscribers.len() == 0
}

/// The rooms once session `removed` is gone. A room that lost its last member is gone too.
pub open spec fn all_without_session(
    rooms: Map<Seq<char>, RoomView>,
    removed: usize,
) -> Map<Seq<char>, RoomView> {
    Map::new(
        |k: Seq<char>| rooms.contains_key(k) && !is_vacant(without_session(rooms[k], removed)),
        |k: Seq<char>| without_session(rooms[k], removed),
    )
}

/// The index of a session once session `removed` is gone.
fn shift_index(i: usize, removed: usize) -> (r: usize)
    ensures
        r == shifted(i, removed),
{
    if i > removed {
        i - 1
    } else {
        i
    }
}

impl Room {
    /// The room once session `removed` is gone.
    fn without(&self, removed: usize) -> (r: Room)
        ensures
            r@ == without_session(self@, removed),
    {
        let publisher: Option<usize> = match self.publisher {
            Some(p) => if p == removed {
                None
            } else {
                Some(shift_index(p, removed))
            },
            None => None,
        };
        let ghost f = |i: usize| shifted(i, removed);
        let ghost subs = self.subscribers@;
        let mut subscribers: Vec<usize> = Vec::new();
        let mut i: usize = 0;
        assert(subscribers@ =~= others(subs.take(0), removed).map_values(f));
        while i < self.subscribers.len()
            invariant
                i <= self.subscribers.len(),
                subs == self.subscribers@,
                f == (|i: usize| shifted(i, removed)),
                subscribers@ == others(subs.take(i as int), removed).map_values(f),
            decreases self.subscribers.len() - i,
        {
            let s: usize = self.subscribers[i];
            let ghost before = others(subs.take(i as int), removed);
            proof {
                assert(subs.take(i + 1).drop_last() =~= subs.take(i as int));
                assert(subs.take(i + 1).last() == s);
                assert(before.push(s).map_values(f) =~= before.map_values(f).push(f(s)));
            }
            if s != removed {
                subscribers.push(shift_index(s, removed));
            }
            i += 1;
        }
        assert(subs.take(subs.len() as int) =~= subs);
        Room { name: self.name.clone(), publisher, subscribers }
    }
}

impl RoomRegistry {
    /// The registry without rooms.
    pub fn new() -> (r: RoomRegistry)
        ensures
            r@ == Map::<Seq<char>, RoomView>::empty(),
    {
        let r: RoomRegistry = RoomRegistry { rooms: StrMap::new() };
        assert(r@ =~= Map::<Seq<char>, RoomView>::empty());
        r
    }

    /// Join a session to a room. Creates the room if it doesn't exist.
    pub fn join(&mut self, room_name: &str, idx: usize, role: Role)
        ensures
            final(self)@ == joined(old(self)@, room_name@, idx, role),
    {
        let mut room: Room = match self.rooms.take(room_name) {
            Some(room) => room,
            None => Room {
                name: room_name.to_owned(),
                publisher: None,
                subscribers: Vec::new(),
            },
        };
        assert(room@ == room_or_new(old(self)@, room_name@));
        match role {
            Role::Publisher => {
                room.publisher = Some(idx);
            },
            Role::Subscriber => {
                room.subscribers.push(idx);
            },
        }
        self.rooms.insert(room_name.to_owned(), room);
        assert(self@ =~= joined(old(self)@, room_name@, idx, role));
    }

    /// Remove a session from all rooms. Adjusts indices > removed_idx by -1.
    /// Cleans up empty rooms. Call this when a session is removed from the sessions Vec.
    pub fn remove_session(&mut self, removed_idx: usize)
        ensures
            final(self)@ == all_without_session(old(self)@, removed_idx),
    {
        let n: usize = self.rooms.len();
        let ghost es = self.rooms.entries();
        let ghost removed = removed_idx;
        let mut kept: StrMap<Room> = StrMap::new();
        let mut i: usize = 0;
        while i < n
            invariant
                i <= n,
                n == es.len(),
                *self == *old(self),
                es == self.rooms.entries(),
                removed == removed_idx,
                crate::strmap::distinct_keys(es),
                forall|k: Seq<char>| #[trigger]
                    kept@.contains_key(k) <==> exists|j: int|
                        0 <= j < i && (#[trigger] es[j]).0 == k && !is_vacant(
                            without_session(es[j].1@, removed),
                        ),
                forall|j: int|
                    0 <= j < i && !is_vacant(without_session((#[trigger] es[j]).1@, removed))
                        ==> kept@.contains_key(es[j].0) && kept@[es[j].0]@ == without_session(
                        es[j].1@,
                        removed,
                    ),
            decreases n - i,
        {
            let room: Room = self.rooms.value(i).without(removed_idx);
            let vacant: bool = room.publisher.is_none() && room.subscribers.len() == 0;
            let ghost before = kept@;
            if !vacant {
                kept.insert(self.rooms.key(i).clone(), room);
            }
            proof {
                assert forall|k: Seq<char>| #[trigger]
                    kept@.contains_key(k) <==> exists|j: int|
                        0 <= j < i + 1 && (#[trigger] es[j]).0 == k && !is_vacant(
                            without_session(es[j].1@, removed),
                        ) by {
                    if kept@.contains_key(k) {
                        if k == es[i as int].0 && !vacant {
                            assert(es[i as int].0 == k);
                        } else {
                            assert(before.contains_key(k));
                        }
                    }
                    if exists|j: int|
                        0 <= j < i + 1 && (#[trigger] es[j]).0 == k && !is_vacant(
                            without_session(es[j].1@, removed),
                        ) {
                        let j = choose|j: int|
                            0 <= j < i + 1 && (#[trigger] es[j]).0 == k && !is_vacant(
                                without_session(es[j].1@, removed),
                            );
                        if j < i {
                            assert(before.contains_key(k));
                        }
                    }
                }
                assert forall|j: int|
                    0 <= j < i + 1 && !is_vacant(
                        without_session((#[trigger] es[j]).1@, removed),
                    ) implies kept@.contains_key(es[j].0) && kept@[es[j].0]@ == without_session(
                    es[j].1@,
                    removed,
                ) by {
                    if j < i {
                        assert(es[j].0 != es[i as int].0);
                    }
                }
            }
            i += 1;
        }
        proof {
            let want = all_without_session(old(self)@, removed);
            let got = RoomRegistry { rooms: kept }@;
            assert forall|k: Seq<char>| #[trigger] got.contains_key(k) == want.contains_key(k) by {
                if got.contains_key(k) {
                    let j = choose|j: int|
                        0 <= j < n && (#[trigger] es[j]).0 == k && !is_vacant(
                            without_session(es[j].1@, removed),
                        );
                    crate::strmap::lemma_slot(es, j);
                }
                if want.contains_key(k) {
                    let j = crate::strmap::slot(es, k);
                    crate::strmap::lemma_slot(es, j);
                    assert(es[j].0 == k);
                }
            }
            assert forall|k: Seq<char>| #[trigger]
                got.contains_key(k) implies got[k] == want[k] by {
                let j = choose|j: int|
                    0 <= j < n && (#[trigger] es[j]).0 == k && !is_vacant(
                        without_session(es[j].1@, removed),
                    );
                crate::strmap::lemma_slot(es, j);
            }
            assert(got =~= want);
        }
        self.rooms = kept;
    }

    /// Find the room where the given session index is the publisher.
    pub fn find_publisher_room(&self, idx: usize) -> (r: Option<&Room>)
        ensures
            match r {
                Some(room) => room.publisher == Some(idx) && exists|k: Seq<char>| #[trigger]
                    self@.contains_key(k) && self@[k] == room@,
                None => forall|k: Seq<char>| #[trigger]
                    self@.contains_key(k) ==> self@[k].publisher != Some(idx),
            },
    {
        let n: usize = self.rooms.len();
        let ghost es = self.rooms.entries();
        let mut i: usize = 0;
        while i < n
            invariant
                i <= n,
                n == es.len(),
                es == self.rooms.entries(),
                crate::strmap::distinct_keys(es),
                forall|j: int| 0 <= j < i ==> (#[trigger] es[j]).1.publisher != Some(idx),
            decreases n - i,
        {
            let room: &Room = self.rooms.value(i);
            if let Some(p) = room.publisher {
                if p == idx {
                    assert(self@.contains_key(es[i as int].0));
                    return Some(room);
                }
            }
            i += 1;
        }
        assert forall|k: Seq<char>| #[trigger] self@.contains_key(k) implies self@[k].publisher
            != Some(idx) by {
            let j = crate::strmap::slot(es, k);
            crate::strmap::lemma_slot(es, j);
            assert(es[j].1.publisher != Some(idx));
        }
        None
    }
}

/// Every member of the room is one of `n` sessions.
pub open spec fn members_below(room: RoomView, n: nat) -> bool {
    &&& room.publisher matches Some(p) ==> p < n
    &&& forall|i: int| 0 <= i < room.subscribers.len() ==> (#[trigger] room.subscribers[i]) < n
}

/// What holds of the rooms of `n` sessions: each has its own name and a member, and its members
/// are among the sessions.
pub open spec fn rooms_of_sessions(rooms: Map<Seq<char>, RoomView>, n: nat) -> bool {
    forall|k: Seq<char>| #[trigger]
        rooms.contains_key(k) ==> rooms[k].name == k && !is_vacant(rooms[k]) && members_below(
            rooms[k],
            n,
        )
}

/// The sessions at the given indices.
pub open spec fn sessions_at<S>(sessions: Seq<S>, indices: Seq<usize>) -> Seq<S> {
    indices.map_values(|i: usize| sessions[i as int])
}

/// Removing a session from the list of sessions and from its rooms leaves every other member the
/// session it was: the publisher that stays is the same session, and so are the subscribers, in
/// order.
pub proof fn law_members_keep_their_session<S>(room: RoomView, sessions: Seq<S>, removed: usize)
    requires
        removed < sessions.len(),
        members_below(room, sessions.len()),
    ensures
        members_below(without_session(room, removed), sessions.remove(removed as int).len()),
        without_session(room, removed).publisher is Some <==> room.publisher is Some
            && room.publisher != Some(removed),
        without_session(room, removed).publisher matches Some(q) ==> sessions.remove(
            removed as int,
        )[q as int] == sessions[room.publisher->0 as int],
        sessions_at(
            sessions.remove(removed as int),
            without_session(room, removed).subscribers,
        ) == sessions_at(sessions, others(room.subscribers, removed)),
{
    lemma_others(room.subscribers, removed);
    let kept = others(room.subscribers, removed);
    let after = sessions.remove(removed as int);
    let moved = without_session(room, removed).subscribers;
    assert forall|i: int| 0 <= i < kept.len() implies kept[i] < sessions.len() && after[moved[i] as int]
        == sessions[kept[i] as int] && moved[i] < after.len() by {
        assert(room.subscribers.contains(kept[i]));
        let j = choose|j: int|
            0 <= j < room.subscribers.len() && room.subscribers[j] == kept[i];
        assert(room.subscribers[j] < sessions.len());
        assert(kept[i] != removed);
    }
    assert(sessions_at(after, moved) =~= sessions_at(sessions, kept));
}

/// What [`others`] keeps, it had, and is not `removed`.
pub proof fn lemma_others(subscribers: Seq<usize>, removed: usize)
    ensures
        forall|i: int|
            0 <= i < others(subscribers, removed).len() ==> {
                &&& subscribers.contains(#[trigger] others(subscribers, removed)[i])
                &&& others(subscribers, removed)[i] != removed
            },
    decreases subscribers.len(),
{
    if subscribers.len() > 0 {
        let init = subscribers.drop_last();
        lemma_others(init, removed);
        let all = others(subscribers, removed);
        let before = others(init, removed);
        assert forall|i: int| 0 <= i < all.len() implies subscribers.contains(#[trigger] all[i])
            && all[i] != removed by {
            if i < before.len() {
                assert(all[i] == before[i]);
                let j = choose|j: int| 0 <= j < init.len() && init[j] == before[i];
                assert(subscribers[j] == all[i]);
            } else {
                assert(subscribers[subscribers.len() - 1] == all[i]);
            }
        }
    }
}

/// Subscribers that are all below `removed` stay as they are.
proof fn lemma_others_below(subscribers: Seq<usize>, removed: usize)
    requires
        forall|i: int| 0 <= i < subscribers.len() ==> (#[trigger] subscribers[i]) < removed,
    ensures
        others(subscribers, removed) == subscribers,
        others(subscribers, removed).map_values(|i: usize| shifted(i, removed)) == subscribers,
    decreases subscribers.len(),
{
    if subscribers.len() > 0 {
        let init = subscribers.drop_last();
        assert forall|i: int| 0 <= i < init.len() implies (#[trigger] init[i]) < removed by {
            assert(init[i] == subscribers[i]);
        }
        lemma_others_below(init, removed);
        assert(init.push(subscribers.last()) =~= subscribers);
        assert(subscribers[subscribers.len() - 1] < removed);
    }
    assert(others(subscribers, removed).map_values(|i: usize| shifted(i, removed)) =~= subscribers);
}

/// Joining one of the sessions keeps what holds of the rooms.
pub proof fn law_join_keeps_rooms(
    rooms: Map<Seq<char>, RoomView>,
    n: nat,
    name: Seq<char>,
    idx: usize,
    role: Role,
)
    requires
        rooms_of_sessions(rooms, n),
        idx < n,
    ensures
        rooms_of_sessions(joined(rooms, name, idx, role), n),
{
    let new = joined(rooms, name, idx, role);
    assert forall|k: Seq<char>| #[trigger] new.contains_key(k) implies new[k].name == k
        && !is_vacant(new[k]) && members_below(new[k], n) by {
        if k != name {
            assert(rooms.contains_key(k));
        } else {
            let room = room_or_new(rooms, name);
            let more = with_member(room, idx, role);
            assert(members_below(room, n));
            assert forall|i: int| 0 <= i < more.subscribers.len() implies (
            #[trigger] more.subscribers[i]) < n by {
                if i < room.subscribers.len() {
                    assert(more.subscribers[i] == room.subscribers[i]);
                }
            }
        }
    }
}

/// Removing one of the sessions keeps what holds of the rooms, for the sessions that are left.
pub proof fn law_remove_keeps_rooms(rooms: Map<Seq<char>, RoomView>, n: nat, removed: usize)
    requires
        rooms_of_sessions(rooms, n),
        removed < n,
    ensures
        rooms_of_sessions(all_without_session(rooms, removed), (n - 1) as nat),
{
    let new = all_without_session(rooms, removed);
    assert forall|k: Seq<char>| #[trigger] new.contains_key(k) implies new[k].name == k
        && !is_vacant(new[k]) && members_below(new[k], (n - 1) as nat) by {
        assert(rooms.contains_key(k));
        let sessions = Seq::new(n, |i: int| i);
        law_members_keep_their_session(rooms[k], sessions, removed);
    }
}

/// A session that joins as the newest and is removed leaves the rooms as they were, unless it took
/// the place of another publisher.
pub proof fn law_join_remove(
    rooms: Map<Seq<char>, RoomView>,
    name: Seq<char>,
    newest: usize,
    role: Role,
)
    requires
        forall|k: Seq<char>| #[trigger]
            rooms.contains_key(k) ==> !is_vacant(rooms[k]) && members_below(
                rooms[k],
                newest as nat,
            ),
        role == Role::Publisher && rooms.contains_key(name) ==> rooms[name].publisher is None,
    ensures
        all_without_session(joined(rooms, name, newest, role), newest) == rooms,
{
    let more = joined(rooms, name, newest, role);
    let back = all_without_session(more, newest);
    assert forall|k: Seq<char>| more.contains_key(k) implies without_session(#[trigger] more[k], newest)
        == room_or_new(rooms, k) by {
        let room = room_or_new(rooms, k);
        assert(members_below(room, newest as nat)) by {
            if rooms.contains_key(k) {
            }
        }
        lemma_others_below(room.subscribers, newest);
        if k == name && role == Role::Subscriber {
            let pushed = room.subscribers.push(newest);
            assert(pushed.drop_last() =~= room.subscribers);
        }
    }
    assert forall|k: Seq<char>| #[trigger] back.contains_key(k) == rooms.contains_key(k) by {
        if more.contains_key(k) {
            assert(without_session(more[k], newest) == room_or_new(rooms, k));
        }
    }
    assert forall|k: Seq<char>| #[trigger] back.contains_key(k) implies back[k] == rooms[k] by {
        assert(without_session(more[k], newest) == room_or_new(rooms, k));
    }
    assert(back =~= rooms);
}

/// A session that joins becomes the publisher of the room that it names, or its last subscriber. All
/// else in that room, and every other room, stays; a room that was not there has no other member.
pub proof fn law_join(
    rooms: Map<Seq<char>, RoomView>,
    name: Seq<char>,
    idx: usize,
    role: Role,
    other: Seq<char>,
)
    ensures
        ({
            let after = joined(rooms, name, idx, role);
            let before = if rooms.contains_key(name) {
                rooms[name].subscribers
            } else {
                Seq::<usize>::empty()
            };
            let sender = if rooms.contains_key(name) {
                rooms[name].publisher
            } else {
                None::<usize>
            };
            &&& after.contains_key(name)
            &&& rooms.contains_key(name) ==> after[name].name == rooms[name].name
            &&& !rooms.contains_key(name) ==> after[name].name == name
            &&& role == Role::Publisher ==> after[name].publisher == Some(idx)
                && after[name].subscribers == before
            &&& role == Role::Subscriber ==> after[name].publisher == sender
                && after[name].subscribers.len() == before.len() + 1
                && after[name].subscribers.last() == idx && before.is_prefix_of(
                after[name].subscribers,
            )
            &&& other != name ==> after.contains_key(other) == rooms.contains_key(other)
            &&& other != name && rooms.contains_key(other) ==> after[other] == rooms[other]
        }),
{
}

/// A session that is removed is no member of any room any more, and every other member stays in its
/// place, at the index that its session has now. A room stays exactly where it has a member left.
pub proof fn law_remove(rooms: Map<Seq<char>, RoomView>, removed: usize, k: Seq<char>)
    ensures
        ({
            let after = all_without_session(rooms, removed);
            let left = rooms[k].subscribers.filter(|i: usize| i != removed);
            let moved = |i: usize|
                if i > removed {
                    (i - 1) as usize
                } else {
                    i
                };
            &&& after.contains_key(k) ==> rooms.contains_key(k)
            &&& rooms.contains_key(k) ==> (after.contains_key(k) <==> left.len() > 0 || (
            rooms[k].publisher matches Some(p) && p != removed))
            &&& after.contains_key(k) ==> {
                &&& after[k].name == rooms[k].name
                &&& after[k].subscribers == left.map_values(moved)
                &&& match rooms[k].publisher {
                    Some(p) => if p == removed {
                        after[k].publisher is None
                    } else {
                        after[k].publisher == Some(moved(p))
                    },
                    None => after[k].publisher is None,
                }
            }
        }),
{
    let left = rooms[k].subscribers.filter(|i: usize| i != removed);
    let moved = |i: usize|
        if i > removed {
            (i - 1) as usize
        } else {
            i
        };
    lemma_others_filter(rooms[k].subscribers, removed);
    assert(left.map_values(moved) =~= others(rooms[k].subscribers, removed).map_values(
        |i: usize| shifted(i, removed),
    ));
}

/// Leaving `removed` out keeps what is different from it.
proof fn lemma_others_filter(subscribers: Seq<usize>, removed: usize)
    ensures
        others(subscribers, removed) == subscribers.filter(|i: usize| i != removed),
    decreases subscribers.len(),
{
    reveal(Seq::filter);
    if subscribers.len() > 0 {
        lemma_others_filter(subscribers.drop_last(), removed);
    }
}

/// A role is read from its name alone.
pub proof fn law_roles_have_names(s: Seq<char>)
    ensures
        role_named(s) == Some(Role::Publisher) <==> s == "publisher"@,
        role_named(s) == Some(Role::Subscriber) <==> s == "subscriber"@,
{
    reveal_strlit("publisher");
    reveal_strlit("subscriber");
    assert("publisher"@.len() == 9 && "subscriber"@.len() == 10);
}

/// A room says its name, its publisher and its subscribers, and the registry says all its rooms.
pub proof fn law_rooms_say_who_is_there(room: Room, registry: RoomRegistry, k: Seq<char>)
    ensures
        room@.name == room.name@,
        room@.publisher == room.publisher,
        room@.subscribers == room.subscribers@,
        registry@.contains_key(k) <==> registry.rooms@.contains_key(k),
        registry@.contains_key(k) ==> registry@[k] == registry.rooms@[k]@,
{
}

} // verus!
