use remud::client::EntityId;
use remud::ids::{Id, ObjectId, PlayerId, RoomId};
use remud::movement::{move_system, teleport_system};
use remud::persist::room::Direction;
use remud::persist::Updates;
use remud::room_admin::{room_create_system, room_link_system, room_remove_system, room_unlink_system};
use remud::rooms::{Room, Rooms};
use remud::types::Contents;

#[test]
fn directions_have_opposites_and_phrases() {
    assert_eq!(Direction::North.opposite(), Direction::South);
    assert_eq!(Direction::Up.opposite(), Direction::Down);
    assert_eq!(Direction::West.opposite(), Direction::East);
    assert_eq!(Direction::East.as_to_str(), "to the east");
    assert_eq!(Direction::Down.as_from_str(), "from below");
}

#[test]
fn room_exits_are_set_and_removed() {
    let mut room = Room::new(RoomId(1));
    assert_eq!(room.exit(Direction::North), None);
    room.insert_exit(Direction::North, EntityId(7));
    room.insert_exit(Direction::Up, EntityId(8));
    room.insert_exit(Direction::East, EntityId(7));
    assert_eq!(room.exit(Direction::North), Some(EntityId(7)));
    assert_eq!(
        room.exit_list(),
        vec![(Direction::North, EntityId(7)), (Direction::East, EntityId(7)), (Direction::Up, EntityId(8))]
    );
    assert_eq!(room.remove_exit(Direction::Up), Some(EntityId(8)));
    assert_eq!(room.remove_exit(Direction::Up), None);
    room.remove_exits_to(EntityId(7));
    assert!(room.exit_list().is_empty());
}

#[test]
fn rooms_are_created_with_a_way_back() {
    let mut current = Room::new(RoomId(1));
    let mut rooms = Rooms::new(4);
    let mut updates = Updates::default();
    let (m, made) = room_create_system(Some(Direction::North), EntityId(50), &current, &mut rooms, &mut updates);
    assert_eq!(m, "Created room 5 to the north.");
    let made = made.unwrap();
    assert_eq!(made.id(), RoomId(5));
    assert_eq!(made.exit(Direction::South), Some(EntityId(50)));
    assert_eq!(updates.take_updates()[0].len(), 3);

    current.insert_exit(Direction::North, EntityId(51));
    let (m, made) = room_create_system(Some(Direction::North), EntityId(50), &current, &mut rooms, &mut updates);
    assert_eq!(m, "A room already exists to the north.");
    assert!(made.is_none());
    assert!(updates.take_updates().is_empty());

    let (m, made) = room_create_system(None, EntityId(50), &current, &mut rooms, &mut updates);
    assert_eq!(m, "Created room 6.");
    assert!(made.unwrap().exit_list().is_empty());
    assert_eq!(updates.take_updates()[0].len(), 1);
}

#[test]
fn rooms_are_linked_and_unlinked() {
    let mut current = Room::new(RoomId(1));
    let mut rooms = Rooms::new(9);
    rooms.insert(RoomId(2), EntityId(22));
    let mut updates = Updates::default();
    assert_eq!(room_link_system(Direction::West, RoomId(3), &rooms, &mut current, &mut updates), "Room 3 does not exist.");
    assert_eq!(room_link_system(Direction::West, RoomId(2), &rooms, &mut current, &mut updates), "Linked west exit to room 2.");
    assert_eq!(current.exit(Direction::West), Some(EntityId(22)));
    assert_eq!(room_unlink_system(Direction::West, &mut current, &mut updates), "Removed exit to the west.");
    assert_eq!(room_unlink_system(Direction::Up, &mut current, &mut updates), "There is no exit above.");
    assert_eq!(updates.take_updates().len(), 3);
}

#[test]
fn removing_a_room_empties_it_into_the_void() {
    let mut room = Room::new(RoomId(3));
    room.insert_player(EntityId(100));
    let mut objects = Contents::new();
    objects.insert(EntityId(200));
    let mut void_room = Room::new(RoomId(0));
    let mut void_contents = Contents::new();
    let mut rooms = Rooms::new(3);
    rooms.insert(RoomId(3), EntityId(30));
    let mut updates = Updates::default();
    let players = vec![PlayerId(1)];
    let ids = vec![ObjectId::try_from_i64(9).ok().unwrap()];

    let (m, notices) = room_remove_system(&Room::new(RoomId(0)), &objects, &mut Room::new(RoomId(0)),
        &mut Contents::new(), &mut rooms, &players, &ids, &mut updates);
    assert_eq!(m, "You cannot remove the void room.");
    assert!(notices.is_empty());

    let (m, notices) = room_remove_system(&room, &objects, &mut void_room, &mut void_contents, &mut rooms, &players, &ids, &mut updates);
    assert_eq!(m, "Room 3 removed.");
    assert_eq!(notices, vec![(EntityId(100), "The world begins to disintigrate around you.".to_string())]);
    assert_eq!(void_room.get_players(), vec![EntityId(100)]);
    assert_eq!(void_contents.get_objects(), vec![EntityId(200)]);
    assert_eq!(rooms.by_id(RoomId(3)), None);
    assert_eq!(updates.take_updates().len(), 3);
}

#[test]
fn walking_tells_both_rooms() {
    let mut origin = Room::new(RoomId(1));
    origin.insert_exit(Direction::North, EntityId(20));
    origin.insert_player(EntityId(5));
    origin.insert_player(EntityId(6));
    let mut dest = Room::new(RoomId(2));
    dest.insert_exit(Direction::South, EntityId(10));
    dest.insert_player(EntityId(7));
    let mut updates = Updates::default();

    let r = move_system(EntityId(5), Id::Player(PlayerId(1)), "Ann", Direction::East, EntityId(10), &origin, None, &mut updates);
    assert_eq!(r.err().unwrap(), "There is no exit to the east.");

    let plan = move_system(EntityId(5), Id::Player(PlayerId(1)), "Ann", Direction::North, EntityId(10), &origin, Some(&dest), &mut updates)
        .ok()
        .unwrap();
    assert_eq!(plan.destination, EntityId(20));
    assert_eq!(
        plan.notices,
        vec![
            (EntityId(6), "Ann leaves to the north.".to_string()),
            (EntityId(7), "Ann arrives from the south.".to_string()),
        ]
    );
    assert_eq!(updates.take_updates().len(), 1);

    let lone = Room::new(RoomId(2));
    let oid = ObjectId::try_from_i64(3).ok().unwrap();
    let plan = move_system(EntityId(9), Id::Object(oid), "a ball", Direction::North, EntityId(10), &origin, Some(&lone), &mut updates)
        .ok()
        .unwrap();
    assert_eq!(plan.notices[0], (EntityId(5), "a ball leaves to the north.".to_string()));
    assert_eq!(plan.notices.len(), 2);
    assert_eq!(updates.take_updates()[0].len(), 2);
}

#[test]
fn teleporting_flashes() {
    let mut origin = Room::new(RoomId(1));
    origin.insert_player(EntityId(5));
    origin.insert_player(EntityId(6));
    let dest = Room::new(RoomId(4));
    let mut rooms = Rooms::new(4);
    rooms.insert(RoomId(4), EntityId(40));
    let mut updates = Updates::default();
    let r = teleport_system(EntityId(5), Id::Player(PlayerId(1)), "Ann", RoomId(8), &rooms, &origin, None, &mut updates);
    assert_eq!(r.err().unwrap(), "Room 8 doesn't exist.");
    let plan = teleport_system(EntityId(5), Id::Player(PlayerId(1)), "Ann", RoomId(4), &rooms, &origin, Some(&dest), &mut updates)
        .ok()
        .unwrap();
    assert_eq!(plan.destination, EntityId(40));
    assert_eq!(plan.notices, vec![(EntityId(6), "Ann disappears in the blink of an eye.".to_string())]);
    assert_eq!(updates.take_updates().len(), 1);
}

#[test]
fn leaving_the_world() {
    let mut room = Room::new(RoomId(1));
    room.insert_player(EntityId(5));
    room.insert_player(EntityId(6));
    let mut carried = Contents::new();
    carried.insert(EntityId(90));
    let (notices, gone) = remud::movement::despawn_player(EntityId(5), "Ann", &mut room, &carried);
    assert_eq!(notices, vec![(EntityId(6), "Ann leaves.".to_string())]);
    assert_eq!(gone, vec![EntityId(90)]);
    assert_eq!(room.get_players(), vec![EntityId(6)]);
}
