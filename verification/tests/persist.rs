use remud::ids::{Id, ObjectId, PlayerId, PrototypeId, RoomId};
use remud::persist::room::{AddExit, AddRegions, Delete, Direction, RegionStep, RemoveExit, RemoveRegions, SetRegions};
use remud::persist::player::Room;
use remud::persist::script::{Attach, Create, Detach, Remove, Update};
use remud::persist::{BindValue, Statement, UpdateGroup, Updates};
use remud::persist::player::{AddObject as PlayerAdd, Description as PlayerDesc, Flags as PlayerFlags, RemoveObject as PlayerRemove};
use remud::persist::room::{AddObject, Create as RoomCreate, Description, Name, RemoveObject};
use remud::object::{Flags, InheritableFields};
use remud::persist::object::{Create as ObjectCreate, Inherit, Keywords, Remove as ObjectRemove};
use remud::scripts::{ScriptName, ScriptTrigger, TriggerEvent};

fn show(v: &[Statement]) -> Vec<String> {
    v.iter()
        .map(|s| {
            let binds: Vec<String> = s
                .binds
                .iter()
                .map(|b| match b {
                    BindValue::Text(t) => format!("'{}'", t),
                    BindValue::Int(i) => format!("{}", i),
                    BindValue::Bool(b) => format!("{}", b),
                })
                .collect();
            format!("{} [{}]", s.sql, binds.join(", "))
        })
        .collect()
}

fn name(s: &str) -> ScriptName {
    ScriptName::try_from_string(s.to_string()).ok().unwrap()
}

#[test]
fn script_records() {
    let c = Create::new("s".to_string(), "Say".to_string(), "x".to_string());
    assert_eq!(show(&c.statements()), vec!["INSERT INTO scripts (name, trigger, code) VALUES (?, ?, ?) ['s', 'Say', 'x']"]);
    let u = Update::new("s".to_string(), "Say".to_string(), "y".to_string());
    assert_eq!(show(&u.statements()), vec!["UPDATE scripts SET trigger = ?, code = ? WHERE name = ? ['Say', 'y', 's']"]);
    let r = Remove::new("s".to_string());
    assert_eq!(show(&r.statements()), vec!["DELETE FROM scripts WHERE name = ? ['s']"]);
}

#[test]
fn attach_to_player_and_object() {
    let a = Attach::new(Id::Player(PlayerId(7)), name("greet"), ScriptTrigger::PreEvent(TriggerEvent::Say), None);
    assert_eq!(
        show(&a.statements()),
        vec!["INSERT INTO player_scripts (player_id, kind, script, trigger) VALUES (?, ?, ?, ?) ['7', 'PreEvent', 'greet', 'Say']"]
    );
    let obj = ObjectId::try_from_i64(12).ok().unwrap();
    let proto = PrototypeId::try_from_i64(3).ok().unwrap();
    let a = Attach::new(Id::Object(obj), name("tick"), ScriptTrigger::Timer("t1".to_string()), Some(proto));
    assert_eq!(
        show(&a.statements()),
        vec![
            "INSERT INTO object_scripts SELECT * FROM prototype_scripts WHERE prototype_scripts.prototype_id = ? [3]",
            "UPDATE objects SET inherit_scripts = false WHERE id = ? [12]",
            "INSERT INTO object_scripts (object_id, kind, script, trigger) VALUES (?, ?, ?, ?) ['12', 'Timer', 'tick', 't1']",
        ]
    );
}

#[test]
fn detach_from_room() {
    let d = Detach::new(Id::Room(RoomId(-4)), name("init"), ScriptTrigger::Init, None);
    assert_eq!(
        show(&d.statements()),
        vec!["DELETE FROM room_scripts WHERE room_id = ? AND kind = ? AND script = ? AND trigger = ? ['-4', 'Init', 'init', '']"]
    );
}

#[test]
fn room_records() {
    assert_eq!(
        show(&AddExit::new(RoomId(1), RoomId(2), Direction::North).statements()),
        vec!["INSERT INTO exits (room_from, room_to, direction) VALUES (?, ?, ?) [1, 2, 'north']"]
    );
    assert_eq!(
        show(&RemoveExit::new(RoomId(1), Direction::Down).statements()),
        vec!["DELETE FROM exits WHERE room_from = ? AND direction = ? [1, 'down']"]
    );
    assert_eq!(show(&Delete::new(RoomId(9)).statements()), vec!["DELETE FROM rooms WHERE id = ? [9]"]);
    assert_eq!(show(&Room::new(PlayerId(5), RoomId(6)).statements()), vec!["UPDATE players SET room = ? WHERE id = ? [6, 5]"]);
}

#[test]
fn region_steps() {
    let regions = vec!["north".to_string(), "town".to_string()];
    let add = AddRegions::new(RoomId(1), regions.clone()).steps();
    assert_eq!(add.len(), 2);
    assert!(matches!(&add[1], RegionStep::Link(RoomId(1), n) if n == "town"));
    let remove = RemoveRegions::new(RoomId(1), regions.clone()).steps();
    assert!(matches!(&remove[0], RegionStep::Unlink(RoomId(1), n) if n == "north"));
    let set = SetRegions::new(RoomId(2), regions).steps();
    assert_eq!(set.len(), 3);
    assert!(matches!(&set[0], RegionStep::ClearRoom(RoomId(2))));
    assert!(matches!(&set[2], RegionStep::Link(RoomId(2), n) if n == "town"));
}

#[test]
fn player_and_room_records() {
    let o = ObjectId::try_from_i64(9).ok().unwrap();
    assert_eq!(
        show(&PlayerAdd::new(PlayerId(2), o).statements()),
        vec!["INSERT INTO player_objects (player_id, object_id) VALUES (?, ?) [2, 9]"]
    );
    assert_eq!(
        show(&PlayerRemove::new(PlayerId(2), o).statements()),
        vec!["DELETE FROM player_objects WHERE player_id = ? AND object_id = ? [2, 9]"]
    );
    assert_eq!(
        show(&PlayerDesc::new(PlayerId(2), "tall".to_string()).statements()),
        vec!["UPDATE players SET description = ? WHERE id = ? ['tall', 2]"]
    );
    assert_eq!(
        show(&PlayerFlags::new(PlayerId(2), 1).statements()),
        vec!["UPDATE players SET flags = ? WHERE id = ? [1, 2]"]
    );
    assert_eq!(
        show(&RoomCreate::new(RoomId(3), "Hall".to_string(), "Long.".to_string()).statements()),
        vec!["INSERT INTO rooms (id, name, description) VALUES (?, ?, ?) [3, 'Hall', 'Long.']"]
    );
    assert_eq!(
        show(&AddObject::new(RoomId(3), o).statements()),
        vec!["INSERT INTO room_objects (room_id, object_id) VALUES (?, ?) [3, 9]"]
    );
    assert_eq!(
        show(&RemoveObject::new(RoomId(3), o).statements()),
        vec!["DELETE FROM room_objects WHERE room_id = ? AND object_id = ? [3, 9]"]
    );
    assert_eq!(
        show(&Name::new(RoomId(3), "Den".to_string()).statements()),
        vec!["UPDATE rooms SET name = ? WHERE id = ? ['Den', 3]"]
    );
    assert_eq!(
        show(&Description::new(RoomId(3), "Dim.".to_string()).statements()),
        vec!["UPDATE rooms SET description = ? WHERE id = ? ['Dim.', 3]"]
    );
}

#[test]
fn object_records() {
    let o = ObjectId::try_from_i64(9).ok().unwrap();
    let p = PrototypeId::try_from_i64(4).ok().unwrap();
    assert_eq!(
        show(&ObjectCreate::new(o, p).statements()),
        vec!["INSERT INTO objects (id, prototype_id, inherit_scripts, name) VALUES (?, ?, ?, NULL) [9, 4, true]"]
    );
    assert_eq!(
        show(&Inherit::new(o, vec![InheritableFields::Name, InheritableFields::Scripts]).statements()),
        vec![
            "UPDATE objects SET name = null WHERE id = ? [9]",
            "UPDATE objects SET inherit_scripts = true WHERE id = ? [9]",
            "DELETE FROM object_scripts WHERE object_id = ? [9]",
        ]
    );
    assert_eq!(
        show(&Keywords::new(o, vec!["red".to_string(), "box".to_string()]).statements()),
        vec!["UPDATE objects SET keywords = ? WHERE id = ? ['red,box', 9]"]
    );
    assert_eq!(show(&ObjectRemove::new(o).statements()), vec!["DELETE FROM objects WHERE id = ? [9]"]);
    assert_eq!(
        show(&remud::persist::object::Flags::new(o, Flags::fixed()).statements()),
        vec!["UPDATE objects SET flags = ? WHERE id = ? [1, 9]"]
    );
}

#[test]
fn queued_updates_come_out_in_order() {
    let mut u = Updates::default();
    u.persist(Room::new(PlayerId(1), RoomId(2)).statements());
    u.persist(Delete::new(RoomId(5)).statements());
    u.reload(PrototypeId::try_from_i64(3).ok().unwrap());
    let taken = u.take_updates();
    assert_eq!(taken.len(), 2);
    assert_eq!(show(&taken[0]), vec!["UPDATE players SET room = ? WHERE id = ? [2, 1]"]);
    assert!(u.take_updates().is_empty());
    assert_eq!(u.take_reloads().len(), 1);
    assert!(u.take_reloads().is_empty());
    let mut g = UpdateGroup::new(taken);
    g.append(Room::new(PlayerId(7), RoomId(8)).statements());
    let all = g.statements();
    assert_eq!(show(&all).last().unwrap(), "UPDATE players SET room = ? WHERE id = ? [8, 7]");
}
