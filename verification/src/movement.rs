use vstd::prelude::*;
use crate::chars::{i64_to_string, push_str, signed_decimal, string_from_chars};
use crate::client::{owned, EntityId};
use crate::ids::{Id, RoomId};
use crate::items::{in_room, out_of_room};
use crate::persist::room::Direction;
use crate::persist::{group_statements, StatementView, UpdateGroup, Updates};
use crate::room_admin::player_placed;
use crate::rooms::{from_phrase, to_phrase, Room, Rooms};

verus! {

/// What moving someone decides: where they go and who is told what.
pub struct MovePlan {
    pub destination: EntityId,
    pub notices: Vec<(EntityId, String)>,
}

/// Notices as plain values.
pub open spec fn notices_view(v: Seq<(EntityId, String)>) -> Seq<(EntityId, Seq<char>)> {
    v.map_values(|n: (EntityId, String)| (n.0, n.1@))
}

/// The players of a room other than the one who acts.
pub open spec fn others(players: Seq<EntityId>, actor: EntityId) -> Seq<EntityId> {
    players.filter(not_actor(actor))
}

/// Whether a player is not the one who acts.
pub open spec fn not_actor(actor: EntityId) -> spec_fn(EntityId) -> bool {
    |p: EntityId| p != actor
}

/// A notice of a text to a player.
pub open spec fn notice_of(text: Seq<char>) -> spec_fn(EntityId) -> (EntityId, Seq<char>) {
    |p: EntityId| (p, text)
}

/// The same text for each of a list of players.
pub open spec fn addressed(players: Seq<EntityId>, text: Seq<char>) -> Seq<(EntityId, Seq<char>)> {
    players.map_values(notice_of(text))
}

/// Whether the exit of a room in a direction leads to a room.
pub open spec fn leads_to(room: Room, d: Direction, to: EntityId) -> bool {
    room.exits().contains_key(d) && room.exits()[d] == to
}

/// The first direction, in the order north, east, south, west, up, down, whose exit leads to
/// a room.
pub open spec fn way_back(room: Room, to: EntityId) -> Option<Direction> {
    if leads_to(room, Direction::North, to) {
        Some(Direction::North)
    } else if leads_to(room, Direction::East, to) {
        Some(Direction::East)
    } else if leads_to(room, Direction::South, to) {
        Some(Direction::South)
    } else if leads_to(room, Direction::West, to) {
        Some(Direction::West)
    } else if leads_to(room, Direction::Up, to) {
        Some(Direction::Up)
    } else if leads_to(room, Direction::Down, to) {
        Some(Direction::Down)
    } else {
        None
    }
}

/// What those in the destination are told when someone arrives.
pub open spec fn arrival_text(name: Seq<char>, back: Option<Direction>) -> Seq<char> {
    match back {
        Some(d) => name + " arrives "@ + from_phrase(d) + "."@,
        None => name + " appears."@,
    }
}

/// What walking stores: a player's new room, or an object leaving one room for another.
pub open spec fn walk_plan(id: Id, from: RoomId, to: RoomId) -> Seq<StatementView> {
    match id {
        Id::Player(p) => player_placed(p, to),
        Id::Object(o) => group_statements(seq![out_of_room(from, o), in_room(to, o)]),
        _ => seq![],
    }
}

fn tell_others(notices: &mut Vec<(EntityId, String)>, room: &Room, actor: EntityId, text: &str)
    ensures
        notices_view(final(notices)@) == notices_view(old(notices)@) + addressed(others(room.present(), actor), text@),
{
    let players = room.get_players();
    let ghost keep = not_actor(actor);
    let ghost say = notice_of(text@);
    let mut i: usize = 0;
    while i < players.len()
        invariant
            i <= players.len(),
            players@ == room.present(),
            keep == not_actor(actor),
            say == notice_of(text@),
            notices_view(notices@) == notices_view(old(notices)@) + players@.take(i as int).filter(keep).map_values(say),
        decreases players.len() - i,
    {
        let p = players[i];
        let ghost before = players@.take(i as int);
        assert(players@.take(i + 1) =~= before.push(p));
        proof { before.lemma_filter_push(p, keep); }
        let ghost v0 = notices@;
        if p != actor {
            notices.push((p, owned(text)));
            assert(notices_view(notices@) =~= notices_view(v0).push((p, text@)));
            assert(before.push(p).filter(keep).map_values(say) =~= before.filter(keep).map_values(say).push((p, text@)));
        }
        i = i + 1;
    }
    assert(players@.take(players.len() as int) =~= players@);
}

fn leads(room: &Room, d: Direction, to: EntityId) -> (b: bool)
    ensures
        b == leads_to(*room, d, to),
{
    match room.exit(d) {
        Some(e) => e == to,
        None => false,
    }
}

fn find_way_back(room: &Room, to: EntityId) -> (r: Option<Direction>)
    ensures
        r == way_back(*room, to),
{
    if leads(room, Direction::North, to) {
        Some(Direction::North)
    } else if leads(room, Direction::East, to) {
        Some(Direction::East)
    } else if leads(room, Direction::South, to) {
        Some(Direction::South)
    } else if leads(room, Direction::West, to) {
        Some(Direction::West)
    } else if leads(room, Direction::Up, to) {
        Some(Direction::Up)
    } else if leads(room, Direction::Down, to) {
        Some(Direction::Down)
    } else {
        None
    }
}

fn join3(a: &str, b: &str, c: &str) -> (s: String)
    ensures
        s@ == a@ + b@ + c@,
{
    let mut out: Vec<char> = Vec::new();
    push_str(&mut out, a);
    push_str(&mut out, b);
    push_str(&mut out, c);
    string_from_chars(&out)
}

fn join4(a: &str, b: &str, c: &str, d: &str) -> (s: String)
    ensures
        s@ == a@ + b@ + c@ + d@,
{
    let mut out: Vec<char> = Vec::new();
    push_str(&mut out, a);
    push_str(&mut out, b);
    push_str(&mut out, c);
    push_str(&mut out, d);
    string_from_chars(&out)
}

/// Moves a player or an object through the exit of its room in a direction. `destination` is
/// the room that exit leads to, where there is one. Those left behind and those arrived among
/// are told, and the new place is stored; the caller moves the mover there (and has a
/// player look).
pub fn move_system(actor: EntityId, id: Id, name: &str, direction: Direction, origin_entity: EntityId,
    origin: &Room, destination: Option<&Room>, updates: &mut Updates) -> (r: Result<MovePlan, String>)
    requires
        (destination is Some) == origin.exits().contains_key(direction),
        origin.exits().contains_key(direction) ==> (id is Player || id is Object),
    ensures
        !origin.exits().contains_key(direction) ==> {
            &&& r matches Err(m) && m@ == "There is no exit "@ + to_phrase(direction) + "."@
            &&& final(updates).pending() == old(updates).pending()
        },
        origin.exits().contains_key(direction) ==> {
            &&& r matches Ok(plan) && plan.destination == origin.exits()[direction]
                && notices_view(plan.notices@)
                == addressed(others(origin.present(), actor), name@ + " leaves "@ + to_phrase(direction) + "."@)
                + addressed(others(destination->0.present(), actor), arrival_text(name@, way_back(*destination->0, origin_entity)))
            &&& final(updates).pending() == old(updates).pending().push(
                walk_plan(id, origin.room_id(), destination->0.room_id()))
        },
{
    let to = match origin.exit(direction) {
        None => return Err(join3("There is no exit ", direction.as_to_str(), ".")),
        Some(e) => e,
    };
    let dest = match destination {
        Some(d) => d,
        None => return Err(join3("There is no exit ", direction.as_to_str(), ".")),
    };
    let mut notices: Vec<(EntityId, String)> = Vec::new();
    let leave = join4(name, " leaves ", direction.as_to_str(), ".");
    tell_others(&mut notices, origin, actor, leave.as_str());
    let arrive = match find_way_back(dest, origin_entity) {
        Some(back) => join4(name, " arrives ", back.as_from_str(), "."),
        None => join3(name, " appears.", ""),
    };
    proof {
        reveal_strlit("");
        assert(name@ + " appears."@ + ""@ =~= name@ + " appears."@);
    }
    tell_others(&mut notices, dest, actor, arrive.as_str());
    match id {
        Id::Player(p) => {
            updates.persist(crate::persist::player::Room::new(p, dest.id()).statements());
        },
        Id::Object(o) => {
            let first = crate::persist::room::RemoveObject::new(origin.id(), o).statements();
            let mut group = UpdateGroup::new(vec![first]);
            group.append(crate::persist::room::AddObject::new(dest.id(), o).statements());
            proof {
                reveal_with_fuel(group_statements, 3);
                assert(group.changes() =~= seq![out_of_room(origin.room_id(), o), in_room(dest.room_id(), o)]);
            }
            updates.persist(group.statements());
        },
        _ => {},
    }
    Ok(MovePlan { destination: to, notices })
}

/// Teleports a player to a room by id: where the room exists, those left behind and those
/// arrived among are told and the new room is stored; the caller moves the player there (and
/// has them look). `destination` is that room, where it exists.
pub fn teleport_system(actor: EntityId, id: Id, name: &str, room_id: RoomId, rooms: &Rooms, origin: &Room,
    destination: Option<&Room>, updates: &mut Updates) -> (r: Result<MovePlan, String>)
    requires
        (destination is Some) == rooms.entities().contains_key(room_id.0),
        rooms.entities().contains_key(room_id.0) ==> id is Player,
    ensures
        !rooms.entities().contains_key(room_id.0) ==> {
            &&& r matches Err(m) && m@ == "Room "@ + signed_decimal(room_id.0 as int) + " doesn't exist."@
            &&& final(updates).pending() == old(updates).pending()
        },
        rooms.entities().contains_key(room_id.0) ==> {
            &&& r matches Ok(plan) && plan.destination == rooms.entities()[room_id.0]
                && notices_view(plan.notices@)
                == addressed(others(origin.present(), actor), name@ + " disappears in the blink of an eye."@)
                + addressed(others(destination->0.present(), actor), name@ + " appears in a flash of light."@)
            &&& final(updates).pending() == old(updates).pending().push(player_placed(id->Player_0, room_id))
        },
{
    let to = match rooms.by_id(room_id) {
        None => {
            let number = i64_to_string(room_id.0);
            return Err(join3("Room ", number.as_str(), " doesn't exist."));
        },
        Some(e) => e,
    };
    let dest = match destination {
        Some(d) => d,
        None => {
            let number = i64_to_string(room_id.0);
            return Err(join3("Room ", number.as_str(), " doesn't exist."));
        },
    };
    let mut notices: Vec<(EntityId, String)> = Vec::new();
    let leave = join3(name, " disappears in the blink of an eye.", "");
    let arrive = join3(name, " appears in a flash of light.", "");
    proof {
        reveal_strlit("");
        assert(name@ + " disappears in the blink of an eye."@ + ""@ =~= name@ + " disappears in the blink of an eye."@);
        assert(name@ + " appears in a flash of light."@ + ""@ =~= name@ + " appears in a flash of light."@);
    }
    tell_others(&mut notices, origin, actor, leave.as_str());
    tell_others(&mut notices, dest, actor, arrive.as_str());
    if let Id::Player(p) = id {
        updates.persist(crate::persist::player::Room::new(p, room_id).statements());
    }
    Ok(MovePlan { destination: to, notices })
}

/// The one who moves is never among those told of it.
pub proof fn mover_is_not_told(players: Seq<EntityId>, actor: EntityId, text: Seq<char>)
    ensures
        forall|k: int| 0 <= k < addressed(others(players, actor), text).len()
            ==> #[trigger] addressed(others(players, actor), text)[k].0 != actor,
{
    let kept = others(players, actor);
    assert forall|k: int| 0 <= k < addressed(kept, text).len() implies #[trigger] addressed(kept, text)[k].0 != actor by {
        players.filter_lemma(not_actor(actor));
        assert(kept.contains(kept[k]));
        assert(not_actor(actor)(kept[k]));
    }
}

/// A player leaves the world: the others in their room are told, they leave the room, and
/// the objects they carry go with them (returned for the caller to despawn with the player).
pub fn despawn_player(player: EntityId, name: &str, room: &mut Room, carried: &crate::types::Contents)
    -> (r: (Vec<(EntityId, String)>, Vec<EntityId>))
    ensures
        notices_view(r.0@) == addressed(others(old(room).present(), player), name@ + " leaves."@),
        r.1@ == carried.view_objects(),
        final(room).room_id() == old(room).room_id(),
        final(room).exits() == old(room).exits(),
        final(room).present() == (if old(room).present().contains(player) {
            old(room).present().remove(crate::rooms::position_of(old(room).present(), player))
        } else {
            old(room).present()
        }),
{
    let mut notices: Vec<(EntityId, String)> = Vec::new();
    let text = join3(name, " leaves.", "");
    proof {
        reveal_strlit("");
        assert(name@ + " leaves."@ + ""@ =~= name@ + " leaves."@);
    }
    tell_others(&mut notices, room, player, text.as_str());
    let objects = carried.get_objects();
    room.remove_player(player);
    (notices, objects)
}

} // verus!
