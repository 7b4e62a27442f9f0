use vstd::prelude::*;
use crate::chars::{i64_to_string, push_str, signed_decimal, string_from_chars};
use crate::client::EntityId;
use crate::ids::{ObjectId, PlayerId, RoomId};
use crate::items::in_room;
use crate::persist::room::{direction_word, AddExit, Create, Delete, Direction, RemoveExit};
use crate::persist::{group_statements, BindView, StatementView, UpdateGroup, Updates};
use crate::rooms::{opposite, to_phrase, Room, Rooms};
use crate::types::Contents;

verus! {

/// The id of the room everything falls back to.
pub open spec fn void_room_id() -> RoomId {
    RoomId(0)
}

/// The stored change: a new room with the default name and description.
pub open spec fn room_created(id: RoomId) -> Seq<StatementView> {
    seq![StatementView {
        sql: "INSERT INTO rooms (id, name, description) VALUES (?, ?, ?)"@,
        binds: seq![BindView::Int(id.0), BindView::Text("Room"@), BindView::Text("An empty room."@)],
    }]
}

/// The stored change: an exit from one room to another.
pub open spec fn exit_added(from: RoomId, to: RoomId, d: Direction) -> Seq<StatementView> {
    seq![StatementView {
        sql: "INSERT INTO exits (room_from, room_to, direction) VALUES (?, ?, ?)"@,
        binds: seq![BindView::Int(from.0), BindView::Int(to.0), BindView::Text(direction_word(d))],
    }]
}

/// The stored change: the exit of a room in a direction is gone.
pub open spec fn exit_removed(id: RoomId, d: Direction) -> Seq<StatementView> {
    seq![StatementView {
        sql: "DELETE FROM exits WHERE room_from = ? AND direction = ?"@,
        binds: seq![BindView::Int(id.0), BindView::Text(direction_word(d))],
    }]
}

/// The stored change: a room is deleted.
pub open spec fn room_deleted(id: RoomId) -> Seq<StatementView> {
    seq![StatementView { sql: "DELETE FROM rooms WHERE id = ?"@, binds: seq![BindView::Int(id.0)] }]
}

/// The stored change: a player is now in a room.
pub open spec fn player_placed(p: PlayerId, r: RoomId) -> Seq<StatementView> {
    seq![StatementView {
        sql: "UPDATE players SET room = ? WHERE id = ?"@,
        binds: seq![BindView::Int(r.0), BindView::Int(p.0)],
    }]
}

/// What creating a room stores, in one group: the room, and where a direction is given the
/// exits both ways.
pub open spec fn creation_plan(from: RoomId, id: RoomId, direction: Option<Direction>) -> Seq<StatementView> {
    match direction {
        Some(d) => group_statements(seq![room_created(id), exit_added(from, id, d), exit_added(id, from, opposite(d))]),
        None => group_statements(seq![room_created(id)]),
    }
}

/// Whether creating a room in this direction is refused: an exit already leads that way.
pub open spec fn already_exists(direction: Option<Direction>, current: Room) -> bool {
    direction matches Some(d) && current.exits().contains_key(d)
}

fn say(a: &str, b: &str, c: &str) -> (s: String)
    ensures
        s@ == a@ + b@ + c@,
{
    let mut out: Vec<char> = Vec::new();
    push_str(&mut out, a);
    push_str(&mut out, b);
    push_str(&mut out, c);
    string_from_chars(&out)
}

fn say5(a: &str, b: &str, c: &str, d: &str, e: &str) -> (s: String)
    ensures
        s@ == a@ + b@ + c@ + d@ + e@,
{
    let mut out: Vec<char> = Vec::new();
    push_str(&mut out, a);
    push_str(&mut out, b);
    push_str(&mut out, c);
    push_str(&mut out, d);
    push_str(&mut out, e);
    string_from_chars(&out)
}

/// Creates a room: unless an exit already leads the given way, the next room id is handed
/// out, the new room is returned (with an exit back where a direction is given, for the
/// caller to place, register and link), the change is stored, and told.
pub fn room_create_system(direction: Option<Direction>, current_entity: EntityId, current: &Room, rooms: &mut Rooms,
    updates: &mut Updates) -> (r: (String, Option<Room>))
    requires
        already_exists(direction, *current) || old(rooms).highest() < i64::MAX,
    ensures
        already_exists(direction, *current) ==> {
            &&& r.0@ == "A room already exists "@ + to_phrase(direction->0) + "."@
            &&& r.1 is None
            &&& final(rooms).entities() == old(rooms).entities() && final(rooms).highest() == old(rooms).highest()
            &&& final(updates).pending() == old(updates).pending()
        },
        !already_exists(direction, *current) ==> {
            let id = RoomId((old(rooms).highest() + 1) as i64);
            &&& r.1 matches Some(room) && room.room_id() == id && room.present() == Seq::<EntityId>::empty()
                && room.exits() == (match direction {
                    Some(d) => Map::<Direction, EntityId>::empty().insert(opposite(d), current_entity),
                    None => Map::<Direction, EntityId>::empty(),
                })
            &&& final(rooms).highest() == old(rooms).highest() + 1
            &&& final(rooms).entities() == old(rooms).entities()
            &&& final(updates).pending() == old(updates).pending().push(creation_plan(current.room_id(), id, direction))
            &&& r.0@ == "Created room "@ + signed_decimal(id.0 as int) + (match direction {
                Some(d) => " "@ + to_phrase(d),
                None => Seq::<char>::empty(),
            }) + "."@
        },
{
    if let Some(d) = direction {
        if current.exit(d).is_some() {
            return (say("A room already exists ", d.as_to_str(), "."), None);
        }
    }
    let new_id = rooms.next_id();
    let mut room = Room::new(new_id);
    let first = Create::new(new_id, "Room".to_owned(), "An empty room.".to_owned()).statements();
    let mut group = UpdateGroup::new(vec![first]);
    let number = i64_to_string(new_id.0);
    let message = match direction {
        Some(d) => {
            room.insert_exit(d.opposite(), current_entity);
            group.append(AddExit::new(current.id(), new_id, d).statements());
            group.append(AddExit::new(new_id, current.id(), d.opposite()).statements());
            say5("Created room ", number.as_str(), " ", d.as_to_str(), ".")
        },
        None => say("Created room ", number.as_str(), "."),
    };
    proof {
        reveal_with_fuel(group_statements, 4);
        match direction {
            Some(d) => {
                assert(group.changes() =~= seq![room_created(new_id), exit_added(current.room_id(), new_id, d),
                    exit_added(new_id, current.room_id(), opposite(d))]);
                assert(room.exits() =~= Map::<Direction, EntityId>::empty().insert(opposite(d), current_entity));
            },
            None => {
                assert(group.changes() =~= seq![room_created(new_id)]);
            },
        }
    }
    updates.persist(group.statements());
    (message, Some(room))
}

/// Links the current room to another in a direction (one way); told and stored where the
/// destination exists.
pub fn room_link_system(direction: Direction, destination: RoomId, rooms: &Rooms, current: &mut Room,
    updates: &mut Updates) -> (msg: String)
    ensures
        !rooms.entities().contains_key(destination.0) ==> {
            &&& msg@ == "Room "@ + signed_decimal(destination.0 as int) + " does not exist."@
            &&& *final(current) == *old(current)
            &&& final(updates).pending() == old(updates).pending()
        },
        rooms.entities().contains_key(destination.0) ==> {
            &&& msg@ == "Linked "@ + direction_word(direction) + " exit to room "@ + signed_decimal(destination.0 as int) + "."@
            &&& final(current).exits() == old(current).exits().insert(direction, rooms.entities()[destination.0])
            &&& final(current).room_id() == old(current).room_id()
            &&& final(current).present() == old(current).present()
            &&& final(updates).pending() == old(updates).pending().push(exit_added(old(current).room_id(), destination, direction))
        },
{
    let number = i64_to_string(destination.0);
    match rooms.by_id(destination) {
        None => say("Room ", number.as_str(), " does not exist."),
        Some(to) => {
            current.insert_exit(direction, to);
            updates.persist(AddExit::new(current.id(), destination, direction).statements());
            say5("Linked ", direction.as_str(), " exit to room ", number.as_str(), ".")
        },
    }
}

/// Removes the exit of the current room in a direction; the removal is stored either way.
pub fn room_unlink_system(direction: Direction, current: &mut Room, updates: &mut Updates) -> (msg: String)
    ensures
        final(current).exits() == old(current).exits().remove(direction),
        final(current).room_id() == old(current).room_id(),
        final(current).present() == old(current).present(),
        final(updates).pending() == old(updates).pending().push(exit_removed(old(current).room_id(), direction)),
        msg@ == (if old(current).exits().contains_key(direction) { "Removed exit "@ } else { "There is no exit "@ })
            + to_phrase(direction) + "."@,
{
    let removed = current.remove_exit(direction).is_some();
    updates.persist(RemoveExit::new(current.id(), direction).statements());
    if removed {
        say("Removed exit ", direction.as_to_str(), ".")
    } else {
        say("There is no exit ", direction.as_to_str(), ".")
    }
}

/// What the players of a removed room are told.
pub open spec fn disintegration_notice() -> Seq<char> {
    "The world begins to disintigrate around you."@
}

/// Removes a room that is not the void room: its players and objects go to the void room, it
/// leaves the rooms, and the deletion and the new places are stored. `player_ids` and
/// `object_ids` are the stored ids of the room's players and objects. The caller removes the
/// exits that led to it from every room (`Room::remove_exits_to`). Returns the message and the
/// notices for the players who were in it.
pub fn room_remove_system(room: &Room, objects: &Contents, void_room: &mut Room, void_contents: &mut Contents,
    rooms: &mut Rooms, player_ids: &Vec<PlayerId>, object_ids: &Vec<ObjectId>, updates: &mut Updates)
    -> (r: (String, Vec<(EntityId, String)>))
    ensures
        room.room_id() == void_room_id() ==> {
            &&& r.0@ == "You cannot remove the void room."@
            &&& r.1@.len() == 0
            &&& *final(void_room) == *old(void_room)
            &&& final(void_contents).view_objects() == old(void_contents).view_objects()
            &&& final(rooms).entities() == old(rooms).entities() && final(rooms).highest() == old(rooms).highest()
            &&& final(updates).pending() == old(updates).pending()
        },
        room.room_id() != void_room_id() ==> {
            &&& r.0@ == "Room "@ + signed_decimal(room.room_id().0 as int) + " removed."@
            &&& r.1@.len() == room.present().len()
            &&& forall|k: int| 0 <= k < r.1@.len() ==> #[trigger] r.1@[k].0 == room.present()[k]
                && r.1@[k].1@ == disintegration_notice()
            &&& final(void_room).present() == old(void_room).present() + room.present()
            &&& final(void_room).exits() == old(void_room).exits()
            &&& final(void_room).room_id() == old(void_room).room_id()
            &&& final(void_contents).view_objects() == old(void_contents).view_objects() + objects.view_objects()
            &&& final(rooms).entities() == old(rooms).entities().remove(room.room_id().0)
            &&& final(rooms).highest() == old(rooms).highest()
            &&& final(updates).pending() == old(updates).pending().push(room_deleted(room.room_id()))
                + player_ids@.map_values(|p: PlayerId| player_placed(p, void_room_id()))
                + object_ids@.map_values(|o: ObjectId| in_room(void_room_id(), o))
        },
{
    let room_id = room.id();
    if room_id.0 == 0 {
        return (crate::client::owned("You cannot remove the void room."), Vec::new());
    }
    let players = room.get_players();
    let mut notices: Vec<(EntityId, String)> = Vec::new();
    let mut i: usize = 0;
    while i < players.len()
        invariant
            i <= players.len(),
            players@ == room.present(),
            void_room.present() == old(void_room).present() + players@.take(i as int),
            void_room.exits() == old(void_room).exits(),
            void_room.room_id() == old(void_room).room_id(),
            notices@.len() == i,
            forall|k: int| 0 <= k < i ==> #[trigger] notices@[k].0 == players@[k] && notices@[k].1@ == disintegration_notice(),
        decreases players.len() - i,
    {
        void_room.insert_player(players[i]);
        notices.push((players[i], crate::client::owned("The world begins to disintigrate around you.")));
        assert(players@.take(i + 1) =~= players@.take(i as int).push(players@[i as int]));
        i = i + 1;
    }
    assert(players@.take(players.len() as int) =~= players@);
    let list = objects.get_objects();
    let mut j: usize = 0;
    while j < list.len()
        invariant
            j <= list.len(),
            list@ == objects.view_objects(),
            void_contents.view_objects() == old(void_contents).view_objects() + list@.take(j as int),
        decreases list.len() - j,
    {
        void_contents.insert(list[j]);
        assert(list@.take(j + 1) =~= list@.take(j as int).push(list@[j as int]));
        j = j + 1;
    }
    assert(list@.take(list.len() as int) =~= list@);
    rooms.remove(room_id);
    updates.persist(Delete::new(room_id).statements());
    let ghost base = updates.pending();
    let void_id = RoomId(0);
    let mut a: usize = 0;
    while a < player_ids.len()
        invariant
            a <= player_ids.len(),
            void_id == void_room_id(),
            updates.pending() == base + player_ids@.take(a as int).map_values(|p: PlayerId| player_placed(p, void_room_id())),
        decreases player_ids.len() - a,
    {
        updates.persist(crate::persist::player::Room::new(player_ids[a], void_id).statements());
        assert(player_ids@.take(a + 1) =~= player_ids@.take(a as int).push(player_ids@[a as int]));
        assert(player_ids@.take(a + 1).map_values(|p: PlayerId| player_placed(p, void_room_id()))
            =~= player_ids@.take(a as int).map_values(|p: PlayerId| player_placed(p, void_room_id()))
                .push(player_placed(player_ids@[a as int], void_room_id())));
        a = a + 1;
    }
    assert(player_ids@.take(player_ids.len() as int) =~= player_ids@);
    let ghost middle = updates.pending();
    let mut b: usize = 0;
    while b < object_ids.len()
        invariant
            b <= object_ids.len(),
            void_id == void_room_id(),
            updates.pending() == middle + object_ids@.take(b as int).map_values(|o: ObjectId| in_room(void_room_id(), o)),
        decreases object_ids.len() - b,
    {
        updates.persist(crate::persist::room::AddObject::new(void_id, object_ids[b]).statements());
        assert(object_ids@.take(b + 1) =~= object_ids@.take(b as int).push(object_ids@[b as int]));
        assert(object_ids@.take(b + 1).map_values(|o: ObjectId| in_room(void_room_id(), o))
            =~= object_ids@.take(b as int).map_values(|o: ObjectId| in_room(void_room_id(), o))
                .push(in_room(void_room_id(), object_ids@[b as int])));
        b = b + 1;
    }
    assert(object_ids@.take(object_ids.len() as int) =~= object_ids@);
    let number = i64_to_string(room_id.0);
    (say("Room ", number.as_str(), " removed."), notices)
}

} // verus!
