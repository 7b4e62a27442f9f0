use vstd::prelude::*;
use crate::chars::{i64_to_string, push_str, signed_decimal, string_from_chars};
use crate::client::EntityId;
use crate::ids::RoomId;
use crate::persist::room::{direction_word, Direction};
use crate::persist::{BindView, StatementView};
use std::collections::HashMap;

verus! {

/// The direction on the other side of an exit.
pub open spec fn opposite(d: Direction) -> Direction {
    match d {
        Direction::North => Direction::South,
        Direction::East => Direction::West,
        Direction::South => Direction::North,
        Direction::West => Direction::East,
        Direction::Up => Direction::Down,
        Direction::Down => Direction::Up,
    }
}

/// How going a direction is said: "to the north", ..., "above", "below".
pub open spec fn to_phrase(d: Direction) -> Seq<char> {
    match d {
        Direction::North => "to the north"@,
        Direction::East => "to the east"@,
        Direction::South => "to the south"@,
        Direction::West => "to the west"@,
        Direction::Up => "above"@,
        Direction::Down => "below"@,
    }
}

/// How coming from a direction is said: "from the north", ..., "from above", "from below".
pub open spec fn from_phrase(d: Direction) -> Seq<char> {
    match d {
        Direction::North => "from the north"@,
        Direction::East => "from the east"@,
        Direction::South => "from the south"@,
        Direction::West => "from the west"@,
        Direction::Up => "from above"@,
        Direction::Down => "from below"@,
    }
}

impl Direction {
    pub fn opposite(&self) -> (o: Direction)
        ensures
            o == opposite(*self),
    {
        match self {
            Direction::North => Direction::South,
            Direction::East => Direction::West,
            Direction::South => Direction::North,
            Direction::West => Direction::East,
            Direction::Up => Direction::Down,
            Direction::Down => Direction::Up,
        }
    }

    pub fn as_to_str(&self) -> (s: &'static str)
        ensures
            s@ == to_phrase(*self),
    {
        match self {
            Direction::North => "to the north",
            Direction::East => "to the east",
            Direction::South => "to the south",
            Direction::West => "to the west",
            Direction::Up => "above",
            Direction::Down => "below",
        }
    }

    pub fn as_from_str(&self) -> (s: &'static str)
        ensures
            s@ == from_phrase(*self),
    {
        match self {
            Direction::North => "from the north",
            Direction::East => "from the east",
            Direction::South => "from the south",
            Direction::West => "from the west",
            Direction::Up => "from above",
            Direction::Down => "from below",
        }
    }
}

/// Going a direction and coming back the other way leads the same way again.
pub proof fn opposite_is_an_involution(d: Direction)
    ensures
        opposite(opposite(d)) == d,
        opposite(d) != d,
{
}

/// The six directions in the order rooms list their exits.
pub open spec fn all_directions() -> Seq<Direction> {
    seq![Direction::North, Direction::East, Direction::South, Direction::West, Direction::Up, Direction::Down]
}

/// A room: its id, where its exits lead, and the players in it, in the order they came.
pub struct Room {
    id: RoomId,
    north: Option<EntityId>,
    east: Option<EntityId>,
    south: Option<EntityId>,
    west: Option<EntityId>,
    up: Option<EntityId>,
    down: Option<EntityId>,
    players: Vec<EntityId>,
}

/// The index of the first occurrence of an entity in a list; the length where there is none.
pub open spec fn position_of(s: Seq<EntityId>, e: EntityId) -> int
    decreases s.len(),
{
    if s.len() == 0 {
        0
    } else if s[0] == e {
        0
    } else {
        1 + position_of(s.drop_first(), e)
    }
}

impl Room {
    pub closed spec fn slot(&self, d: Direction) -> Option<EntityId> {
        match d {
            Direction::North => self.north,
            Direction::East => self.east,
            Direction::South => self.south,
            Direction::West => self.west,
            Direction::Up => self.up,
            Direction::Down => self.down,
        }
    }

    /// Where each exit leads.
    pub open spec fn exits(&self) -> Map<Direction, EntityId> {
        Map::new(|d: Direction| self.slot(d) is Some, |d: Direction| self.slot(d)->0)
    }

    pub closed spec fn room_id(&self) -> RoomId {
        self.id
    }

    /// The players in the room.
    pub closed spec fn present(&self) -> Seq<EntityId> {
        self.players@
    }

    /// A room with no exits and nobody in it.
    pub fn new(id: RoomId) -> (r: Room)
        ensures
            r.room_id() == id,
            r.exits() == Map::<Direction, EntityId>::empty(),
            r.present() == Seq::<EntityId>::empty(),
    {
        let r = Room { id, north: None, east: None, south: None, west: None, up: None, down: None, players: Vec::new() };
        assert(r.exits() =~= Map::<Direction, EntityId>::empty());
        r
    }

    pub fn id(&self) -> (i: RoomId)
        ensures
            i == self.room_id(),
    {
        self.id
    }

    /// Where the exit in a direction leads, if there is one.
    pub fn exit(&self, d: Direction) -> (r: Option<EntityId>)
        ensures
            r == (if self.exits().contains_key(d) { Some(self.exits()[d]) } else { None }),
    {
        match d {
            Direction::North => self.north,
            Direction::East => self.east,
            Direction::South => self.south,
            Direction::West => self.west,
            Direction::Up => self.up,
            Direction::Down => self.down,
        }
    }

    fn set_slot(&mut self, d: Direction, to: Option<EntityId>)
        ensures
            final(self).room_id() == old(self).room_id(),
            final(self).present() == old(self).present(),
            forall|g: Direction| #[trigger] final(self).slot(g) == (if g == d { to } else { old(self).slot(g) }),
    {
        match d {
            Direction::North => self.north = to,
            Direction::East => self.east = to,
            Direction::South => self.south = to,
            Direction::West => self.west = to,
            Direction::Up => self.up = to,
            Direction::Down => self.down = to,
        }
    }

    /// Adds or replaces the exit in a direction.
    pub fn insert_exit(&mut self, d: Direction, to: EntityId)
        ensures
            final(self).room_id() == old(self).room_id(),
            final(self).present() == old(self).present(),
            final(self).exits() == old(self).exits().insert(d, to),
    {
        self.set_slot(d, Some(to));
        assert(self.exits() =~= old(self).exits().insert(d, to));
    }

    /// Removes the exit in a direction and tells where it led.
    pub fn remove_exit(&mut self, d: Direction) -> (r: Option<EntityId>)
        ensures
            r == (if old(self).exits().contains_key(d) { Some(old(self).exits()[d]) } else { None }),
            final(self).room_id() == old(self).room_id(),
            final(self).present() == old(self).present(),
            final(self).exits() == old(self).exits().remove(d),
    {
        let r = self.exit(d);
        self.set_slot(d, None);
        assert(self.exits() =~= old(self).exits().remove(d));
        r
    }

    /// Removes every exit that leads to a room.
    pub fn remove_exits_to(&mut self, to: EntityId)
        ensures
            final(self).room_id() == old(self).room_id(),
            final(self).present() == old(self).present(),
            final(self).exits() == old(self).exits().restrict(
                old(self).exits().dom().filter(|d: Direction| old(self).exits()[d] != to),
            ),
    {
        if self.north == Some(to) { self.north = None; }
        if self.east == Some(to) { self.east = None; }
        if self.south == Some(to) { self.south = None; }
        if self.west == Some(to) { self.west = None; }
        if self.up == Some(to) { self.up = None; }
        if self.down == Some(to) { self.down = None; }
        assert(self.exits() =~= old(self).exits().restrict(
            old(self).exits().dom().filter(|d: Direction| old(self).exits()[d] != to),
        ));
    }

    /// The exits in the order north, east, south, west, up, down.
    pub fn exit_list(&self) -> (v: Vec<(Direction, EntityId)>)
        ensures
            v@ == all_directions().filter(|d: Direction| self.exits().contains_key(d)).map_values(
                |d: Direction| (d, self.exits()[d]),
            ),
    {
        let mut v: Vec<(Direction, EntityId)> = Vec::new();
        let ghost all = all_directions();
        let ghost has = |d: Direction| self.exits().contains_key(d);
        let ghost pair = |d: Direction| (d, self.exits()[d]);
        let mut k: usize = 0;
        while k < 6
            invariant
                k <= 6,
                all == all_directions(),
                has == (|d: Direction| self.exits().contains_key(d)),
                pair == (|d: Direction| (d, self.exits()[d])),
                v@ == all.take(k as int).filter(has).map_values(pair),
            decreases 6 - k,
        {
            let d = match k {
                0 => Direction::North,
                1 => Direction::East,
                2 => Direction::South,
                3 => Direction::West,
                4 => Direction::Up,
                _ => Direction::Down,
            };
            assert(all[k as int] == d);
            let ghost before = all.take(k as int);
            assert(all.take(k + 1) =~= before.push(d));
            proof { before.lemma_filter_push(d, has); }
            match self.exit(d) {
                Some(e) => {
                    v.push((d, e));
                    assert(before.push(d).filter(has) == before.filter(has).push(d));
                    assert(v@ =~= before.push(d).filter(has).map_values(pair));
                },
                None => {
                    assert(before.push(d).filter(has) == before.filter(has));
                },
            }
            k = k + 1;
        }
        assert(all.take(6) =~= all);
        v
    }

    /// Adds a player to the room.
    pub fn insert_player(&mut self, p: EntityId)
        ensures
            final(self).room_id() == old(self).room_id(),
            final(self).exits() == old(self).exits(),
            final(self).present() == old(self).present().push(p),
    {
        self.players.push(p);
        assert(self.exits() =~= old(self).exits());
    }

    /// Removes the first occurrence of a player from the room.
    pub fn remove_player(&mut self, p: EntityId)
        ensures
            final(self).room_id() == old(self).room_id(),
            final(self).exits() == old(self).exits(),
            final(self).present() == (if old(self).present().contains(p) {
                old(self).present().remove(position_of(old(self).present(), p))
            } else {
                old(self).present()
            }),
    {
        let mut i: usize = 0;
        proof {
            assert(self.players@.subrange(0, self.players@.len() as int) == self.players@);
        }
        while i < self.players.len()
            invariant
                i <= self.players.len(),
                self.players@ == old(self).players@,
                self.id == old(self).id,
                self.exits() == old(self).exits(),
                forall|k: int| 0 <= k < i ==> self.players@[k] != p,
                position_of(self.players@.subrange(i as int, self.players@.len() as int), p) + i
                    == position_of(self.players@, p),
            decreases self.players.len() - i,
        {
            if self.players[i] == p {
                proof {
                    let t = self.players@.subrange(i as int, self.players@.len() as int);
                    assert(t[0] == p);
                }
                self.players.remove(i);
                assert(self.exits() =~= old(self).exits());
                return;
            }
            proof {
                let t = self.players@.subrange(i as int, self.players@.len() as int);
                assert(t.drop_first() == self.players@.subrange(i + 1, self.players@.len() as int));
            }
            i = i + 1;
        }
    }

    /// The players in the room.
    pub fn get_players(&self) -> (v: Vec<EntityId>)
        ensures
            v@ == self.present(),
    {
        self.players.clone()
    }
}

/// The entities of the rooms, by id, and the highest id handed out.
pub struct Rooms {
    by_id: HashMap<i64, EntityId>,
    highest_id: i64,
}

impl Rooms {
    pub closed spec fn entities(&self) -> Map<i64, EntityId> {
        self.by_id@
    }

    pub closed spec fn highest(&self) -> i64 {
        self.highest_id
    }

    pub fn new(highest_id: i64) -> (r: Self)
        ensures
            r.entities() == Map::<i64, EntityId>::empty(),
            r.highest() == highest_id,
    {
        Rooms { by_id: HashMap::new(), highest_id }
    }

    pub fn insert(&mut self, id: RoomId, entity: EntityId)
        ensures
            final(self).entities() == old(self).entities().insert(id.0, entity),
            final(self).highest() == old(self).highest(),
    {
        self.by_id.insert(id.0, entity);
    }

    pub fn remove(&mut self, id: RoomId)
        ensures
            final(self).entities() == old(self).entities().remove(id.0),
            final(self).highest() == old(self).highest(),
    {
        self.by_id.remove(&id.0);
    }

    pub fn by_id(&self, id: RoomId) -> (e: Option<EntityId>)
        ensures
            e == (if self.entities().contains_key(id.0) { Some(self.entities()[id.0]) } else { None }),
    {
        match self.by_id.get(&id.0) {
            Some(e) => Some(*e),
            None => None,
        }
    }

    /// Hands out the next id.
    pub fn next_id(&mut self) -> (id: RoomId)
        requires
            old(self).highest() < i64::MAX,
        ensures
            id.0 == old(self).highest() + 1,
            final(self).highest() == old(self).highest() + 1,
            final(self).entities() == old(self).entities(),
    {
        self.highest_id = self.highest_id + 1;
        RoomId(self.highest_id)
    }
}

} // verus!
