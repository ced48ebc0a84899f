//! The gateway's picture of the rooms that the user is in. Rooms are found
//! by identifier and, where they have one, by name.

use crate::schema::{Room, RoomView};
use crate::text::same;
use vstd::prelude::*;

verus! {

/// The views of a list of rooms, one by one.
pub open spec fn room_views(rooms: Seq<Room>) -> Seq<RoomView> {
    Seq::new(rooms.len(), |i: int| rooms[i]@)
}

/// The first room of `rooms` whose identifier is `id`.
pub open spec fn by_id(rooms: Seq<RoomView>, id: Seq<char>) -> Option<RoomView>
    decreases rooms.len(),
{
    if rooms.len() == 0 {
        None
    } else if rooms[0].id() == id {
        Some(rooms[0])
    } else {
        by_id(rooms.drop_first(), id)
    }
}

/// The first room of `rooms` whose name is `name`.
pub open spec fn by_name(rooms: Seq<RoomView>, name: Seq<char>) -> Option<RoomView>
    decreases rooms.len(),
{
    if rooms.len() == 0 {
        None
    } else if rooms[0].name() == Some(name) {
        Some(rooms[0])
    } else {
        by_name(rooms.drop_first(), name)
    }
}

/// Whether two rooms cannot both stand in one session: they have the same
/// identifier, or they both have a name and it is the same.
pub open spec fn clash(a: RoomView, b: RoomView) -> bool {
    a.id() == b.id() || (a.name() is Some && a.name() == b.name())
}

/// No two rooms have the same identifier, and no two the same name.
pub open spec fn distinct(rooms: Seq<RoomView>) -> bool {
    forall|i: int, j: int|
        0 <= i < j < rooms.len() ==> !clash(#[trigger] rooms[i], #[trigger] rooms[j])
}

/// The rooms that have neither the identifier `id` nor, where one is
/// given, the name `name`.
pub open spec fn apart(id: Seq<char>, name: Option<Seq<char>>) -> spec_fn(RoomView) -> bool {
    |r: RoomView| r.id() != id && !(name is Some && r.name() == name)
}

/// `rooms` with `room` added at the end, in place of every room that it
/// clashes with.
pub open spec fn with_room(rooms: Seq<RoomView>, room: RoomView) -> Seq<RoomView> {
    rooms.filter(apart(room.id(), room.name())).push(room)
}

/// `rooms` without the rooms whose identifier is `id`.
pub open spec fn without_id(rooms: Seq<RoomView>, id: Seq<char>) -> Seq<RoomView> {
    rooms.filter(apart(id, None))
}

/// The session that holds the rooms of `rooms`, added one after the other.
pub open spec fn collected(rooms: Seq<RoomView>) -> Seq<RoomView>
    decreases rooms.len(),
{
    if rooms.len() == 0 {
        Seq::empty()
    } else {
        with_room(collected(rooms.drop_last()), rooms.last())
    }
}

/// Where no room before place `i` has the identifier `id`, the search for
/// `id` goes on from place `i`.
pub proof fn lemma_by_id_skips(rooms: Seq<RoomView>, id: Seq<char>, i: int)
    requires
        0 <= i <= rooms.len(),
        forall|j: int| 0 <= j < i ==> (#[trigger] rooms[j]).id() != id,
    ensures
        by_id(rooms, id) == by_id(rooms.skip(i), id),
    decreases i,
{
    if i > 0 {
        lemma_by_id_skips(rooms.drop_first(), id, i - 1);
        assert(rooms.drop_first().skip(i - 1) == rooms.skip(i));
    } else {
        assert(rooms.skip(0) == rooms);
    }
}

/// Where no room before place `i` is called `name`, the search for `name`
/// goes on from place `i`.
pub proof fn lemma_by_name_skips(rooms: Seq<RoomView>, name: Seq<char>, i: int)
    requires
        0 <= i <= rooms.len(),
        forall|j: int| 0 <= j < i ==> (#[trigger] rooms[j]).name() != Some(name),
    ensures
        by_name(rooms, name) == by_name(rooms.skip(i), name),
    decreases i,
{
    if i > 0 {
        lemma_by_name_skips(rooms.drop_first(), name, i - 1);
        assert(rooms.drop_first().skip(i - 1) == rooms.skip(i));
    } else {
        assert(rooms.skip(0) == rooms);
    }
}

/// In a session every room is found by its identifier, and every room that
/// has a name is found by its name as well.
pub proof fn lemma_rooms_reachable(rooms: Seq<RoomView>, i: int)
    requires
        distinct(rooms),
        0 <= i < rooms.len(),
    ensures
        by_id(rooms, rooms[i].id()) == Some(rooms[i]),
        rooms[i].name() is Some ==> by_name(rooms, rooms[i].name()->0) == Some(rooms[i]),
{
    assert forall|j: int| 0 <= j < i implies (#[trigger] rooms[j]).id() != rooms[i].id() by {
        assert(!clash(rooms[j], rooms[i]));
    }
    lemma_by_id_skips(rooms, rooms[i].id(), i);
    assert(rooms.skip(i)[0] == rooms[i]);
    if rooms[i].name() is Some {
        let name = rooms[i].name()->0;
        assert forall|j: int| 0 <= j < i implies (#[trigger] rooms[j]).name() != Some(name) by {
            assert(!clash(rooms[j], rooms[i]));
        }
        lemma_by_name_skips(rooms, name, i);
    }
}

/// A room that a search by identifier finds is in the session and has that
/// identifier; a search that finds none shows that no room has it.
pub proof fn lemma_by_id_found(rooms: Seq<RoomView>, id: Seq<char>)
    ensures
        match by_id(rooms, id) {
            Some(room) => rooms.contains(room) && room.id() == id,
            None => forall|i: int| 0 <= i < rooms.len() ==> (#[trigger] rooms[i]).id() != id,
        },
    decreases rooms.len(),
{
    if rooms.len() > 0 {
        if rooms[0].id() != id {
            let rest = rooms.drop_first();
            lemma_by_id_found(rest, id);
            match by_id(rest, id) {
                Some(room) => {
                    let k = choose|k: int| 0 <= k < rest.len() && rest[k] == room;
                    assert(rooms[k + 1] == room);
                },
                None => {
                    assert forall|i: int| 0 <= i < rooms.len() implies (#[trigger] rooms[i]).id()
                        != id by {
                        if i > 0 {
                            assert(rest[i - 1] == rooms[i]);
                        }
                    }
                },
            }
        } else {
            assert(rooms[0] == rooms[0]);
        }
    }
}

/// Filtering the tail of a sequence from place `i` keeps or drops the item
/// at `i` and filters what follows it.
proof fn lemma_filter_from<A>(s: Seq<A>, i: int, keep: spec_fn(A) -> bool)
    requires
        0 <= i < s.len(),
    ensures
        s.skip(i).filter(keep) == if keep(s[i]) {
            seq![s[i]] + s.skip(i + 1).filter(keep)
        } else {
            s.skip(i + 1).filter(keep)
        },
{
    let x = s[i];
    assert(s.skip(i) == seq![x] + s.skip(i + 1));
    Seq::filter_distributes_over_add(seq![x], s.skip(i + 1), keep);
    reveal_with_fuel(Seq::filter, 2);
    assert(seq![x].drop_last() == Seq::<A>::empty());
    assert(seq![x].filter(keep) == if keep(x) {
        seq![x]
    } else {
        Seq::<A>::empty()
    });
    assert(Seq::<A>::empty() + s.skip(i + 1).filter(keep) == s.skip(i + 1).filter(keep));
}

/// The text of a name, if there is one.
spec fn text_of(name: Option<&str>) -> Option<Seq<char>> {
    match name {
        Some(name) => Some(name@),
        None => None,
    }
}

/// The rooms that the user is in.
pub struct Session {
    rooms: Vec<Room>,
}

impl View for Session {
    type V = Seq<RoomView>;

    closed spec fn view(&self) -> Seq<RoomView> {
        room_views(self.rooms@)
    }
}

impl Session {
    /// No two rooms of the session have the same identifier or the same name.
    pub open spec fn wf(&self) -> bool {
        distinct(self@)
    }

    /// A session without rooms.
    pub fn new() -> (s: Session)
        ensures
            s.wf(),
            s@ == Seq::<RoomView>::empty(),
    {
        let s = Session { rooms: Vec::new() };
        assert(s@ =~= Seq::<RoomView>::empty());
        s
    }

    /// The session that holds `rooms`; where two of them clash, the later
    /// one stays.
    pub fn from_rooms(rooms: Vec<Room>) -> (s: Session)
        ensures
            s.wf(),
            s@ == collected(room_views(rooms@)),
    {
        let mut s = Session::new();
        let mut rooms = rooms;
        let ghost all = room_views(rooms@);
        assert(all.take(0) == Seq::<RoomView>::empty());
        assert(all.skip(0) == all);
        while rooms.len() > 0
            invariant
                s.wf(),
                rooms@.len() <= all.len(),
                room_views(rooms@) == all.skip(all.len() - rooms@.len()),
                s@ == collected(all.take(all.len() - rooms@.len())),
            decreases rooms@.len(),
        {
            let ghost before = rooms@;
            let ghost done = all.len() - rooms@.len();
            let room = rooms.remove(0);
            proof {
                assert(room_views(before)[0] == room@);
                assert(all[done] == room@);
                assert(all.take(done + 1).drop_last() == all.take(done));
                assert forall|k: int| 0 <= k < rooms@.len() implies room_views(rooms@)[k]
                    == all.skip(done + 1)[k] by {
                    assert(room_views(before)[k + 1] == all.skip(done)[k + 1]);
                }
                assert(room_views(rooms@) =~= all.skip(done + 1));
            }
            s.insert(room);
        }
        assert(all.take(all.len() as int) == all);
        s
    }

    /// The rooms of the session.
    pub fn rooms(&self) -> (rooms: &Vec<Room>)
        ensures
            room_views(rooms@) == self@,
    {
        &self.rooms
    }

    /// The room whose identifier is `id`, if the session holds one.
    pub fn room_by_id(&self, id: &str) -> (room: Option<&Room>)
        ensures
            match room {
                Some(r) => by_id(self@, id@) == Some(r@),
                None => by_id(self@, id@) is None,
            },
    {
        let mut i: usize = 0;
        while i < self.rooms.len()
            invariant
                i <= self.rooms@.len(),
                forall|j: int| 0 <= j < i ==> (#[trigger] self@[j]).id() != id@,
            decreases self.rooms@.len() - i,
        {
            if same(self.rooms[i].id().as_str(), id) {
                proof {
                    lemma_by_id_skips(self@, id@, i as int);
                    assert(self@.skip(i as int)[0] == self.rooms@[i as int]@);
                }
                return Some(&self.rooms[i]);
            }
            i += 1;
        }
        proof {
            lemma_by_id_skips(self@, id@, i as int);
            assert(self@.skip(i as int).len() == 0);
        }
        None
    }

    /// The room that is called `name`, if the session holds one.
    pub fn room_by_name(&self, name: &str) -> (room: Option<&Room>)
        ensures
            match room {
                Some(r) => by_name(self@, name@) == Some(r@),
                None => by_name(self@, name@) is None,
            },
    {
        let mut i: usize = 0;
        while i < self.rooms.len()
            invariant
                i <= self.rooms@.len(),
                forall|j: int| 0 <= j < i ==> (#[trigger] self@[j]).name() != Some(name@),
            decreases self.rooms@.len() - i,
        {
            let found = match self.rooms[i].name() {
                Some(n) => same(n.as_str(), name),
                None => false,
            };
            if found {
                proof {
                    lemma_by_name_skips(self@, name@, i as int);
                    assert(self@.skip(i as int)[0] == self.rooms@[i as int]@);
                }
                return Some(&self.rooms[i]);
            }
            i += 1;
        }
        proof {
            lemma_by_name_skips(self@, name@, i as int);
            assert(self@.skip(i as int).len() == 0);
        }
        None
    }

    /// Takes out of the session every room that has the identifier `id`
    /// or, where one is given, the name `name`, and says whether there was
    /// one.
    fn take_out(&mut self, id: &str, name: Option<&str>) -> (found: bool)
        requires
            old(self).wf(),
        ensures
            final(self).wf(),
            final(self)@ == old(self)@.filter(apart(id@, text_of(name))),
            forall|j: int|
                0 <= j < final(self)@.len() ==> apart(id@, text_of(name))(
                    #[trigger] final(self)@[j],
                ),
            found == exists|j: int|
                0 <= j < old(self)@.len() && !apart(id@, text_of(name))(#[trigger] old(self)@[j]),
    {
        let ghost keep = apart(id@, text_of(name));
        let ghost before = self@;
        let mut found = false;
        let mut i: usize = self.rooms.len();
        proof {
            assert(before.skip(i as int) == Seq::<RoomView>::empty());
            reveal_with_fuel(Seq::filter, 1);
            assert(before.take(i as int) + before.skip(i as int).filter(keep) == before);
        }
        while i > 0
            invariant
                i <= self.rooms@.len(),
                i <= before.len(),
                self.wf(),
                keep == apart(id@, text_of(name)),
                self@ == before.take(i as int) + before.skip(i as int).filter(keep),
                forall|j: int| i <= j < self@.len() ==> keep(#[trigger] self@[j]),
                found == exists|j: int| i <= j < before.len() && !keep(#[trigger] before[j]),
            decreases i,
        {
            i -= 1;
            let hit = same(self.rooms[i].id().as_str(), id) || match (self.rooms[i].name(), name) {
                (Some(a), Some(b)) => same(a.as_str(), b),
                _ => false,
            };
            let ghost x = before[i as int];
            let ghost rest = before.skip(i + 1).filter(keep);
            let ghost cur = self@;
            proof {
                assert(cur[i as int] == x);
                assert(hit == !keep(x));
                lemma_filter_from(before, i as int, keep);
                assert(before.take(i + 1) == before.take(i as int).push(x));
            }
            if hit {
                self.rooms.remove(i);
                found = true;
                proof {
                    assert(self@ =~= cur.remove(i as int));
                    assert(cur.remove(i as int) =~= before.take(i as int) + rest);
                }
            } else {
                proof {
                    assert(cur =~= before.take(i as int) + (seq![x] + rest));
                }
            }
        }
        proof {
            assert(before.take(0) == Seq::<RoomView>::empty());
            assert(before.skip(0) == before);
            assert(self@ =~= before.filter(keep));
        }
        found
    }

    /// Adds `room`. Rooms with the same identifier or the same name leave
    /// the session: the identifier decides which room is meant.
    pub fn insert(&mut self, room: Room)
        requires
            old(self).wf(),
        ensures
            final(self).wf(),
            final(self)@ == with_room(old(self)@, room@),
    {
        let name = match room.name() {
            Some(name) => Some(name.as_str()),
            None => None,
        };
        self.take_out(room.id().as_str(), name);
        let ghost kept = self@;
        self.rooms.push(room);
        assert(self@ =~= kept.push(room@));
    }

    /// Takes the room whose identifier is `id` out of the session, and says
    /// whether there was one.
    pub fn remove(&mut self, id: &str) -> (found: bool)
        requires
            old(self).wf(),
        ensures
            final(self).wf(),
            found == by_id(old(self)@, id@) is Some,
            final(self)@ == without_id(old(self)@, id@),
    {
        proof {
            lemma_by_id_found(self@, id@);
        }
        self.take_out(id, None)
    }
}

} // verus!
