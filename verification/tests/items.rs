use remud::client::EntityId;
use remud::ids::{Id, ObjectId, PlayerId, RoomId};
use remud::items::{drop_system, get_system, object_inherit_fields_system, object_remove_system, ObjectFields, ObjectRecord};
use remud::ids::Objects;
use remud::object::{Flags, InheritableFields, Keywords, ObjectFlags};
use remud::rows::Object;
use remud::types::{Description, Named};
use remud::persist::Updates;
use remud::types::Contents;

fn record(e: u64, id: i64, name: &str, words: &[&str], flags: Flags) -> ObjectRecord {
    ObjectRecord {
        entity: EntityId(e),
        id: ObjectId::try_from_i64(id).ok().unwrap(),
        name: name.to_string(),
        keywords: Keywords::from_list(words.iter().map(|w| w.to_string()).collect()),
        flags,
    }
}

fn words(s: &str) -> Vec<String> {
    s.split(' ').map(|w| w.to_string()).collect()
}

#[test]
fn picking_up_and_dropping() {
    let records = vec![
        record(10, 1, "a statue", &["statue"], Flags::fixed()),
        record(11, 2, "a coin", &["shiny", "coin"], Flags::empty()),
    ];
    let me = Id::Player(PlayerId(5));
    let mut mine = Contents::new();
    let mut room = Contents::new();
    room.insert(EntityId(10));
    room.insert(EntityId(11));
    let mut updates = Updates::default();

    let (m, moved) = get_system(EntityId(1), me, &mut mine, RoomId(3), &mut room, &records, &words("statue"), &mut updates);
    assert_eq!(m, "Try as you might, you cannot pick up a statue.");
    assert_eq!(moved, None);

    let (m, moved) = get_system(EntityId(1), me, &mut mine, RoomId(3), &mut room, &records, &words("coin"), &mut updates);
    assert_eq!(m, "You pick up a coin.");
    assert_eq!(moved, Some(EntityId(11)));
    assert_eq!(mine.get_objects(), vec![EntityId(11)]);
    assert_eq!(room.get_objects(), vec![EntityId(10)]);
    assert_eq!(updates.take_updates().len(), 2);

    let (m, _) = get_system(EntityId(1), me, &mut mine, RoomId(3), &mut room, &records, &words("red ball"), &mut updates);
    assert_eq!(m, "You find no object called \"red ball\" to pick up.");

    let (m, _) = drop_system(me, &mut mine, RoomId(3), &mut room, &records, &words("lamp"), &mut updates);
    assert_eq!(m, "You don't have \"lamp\".");
    let (m, moved) = drop_system(me, &mut mine, RoomId(3), &mut room, &records, &words("shiny"), &mut updates);
    assert_eq!(m, "You drop a coin.");
    assert_eq!(moved, Some(EntityId(11)));
    assert!(mine.is_empty());
    assert_eq!(room.get_objects(), vec![EntityId(10), EntityId(11)]);
    assert_eq!(updates.take_updates().len(), 2);
}

#[test]
fn removing_objects() {
    let oid = ObjectId::try_from_i64(8).ok().unwrap();
    let mut objects = Objects::new(8);
    objects.insert(oid, EntityId(20));
    let mut place = Contents::new();
    place.insert(EntityId(19));
    place.insert(EntityId(20));
    let mut updates = Updates::default();
    let (m, gone) = object_remove_system(oid, &mut objects, &mut place, &mut updates);
    assert_eq!(m, "Removed object 8.");
    assert_eq!(gone, Some(EntityId(20)));
    assert_eq!(place.get_objects(), vec![EntityId(19)]);
    assert_eq!(objects.by_id(oid), None);
    let (m, gone) = object_remove_system(oid, &mut objects, &mut place, &mut updates);
    assert_eq!(m, "Object 8 not found.");
    assert_eq!(gone, None);
    assert_eq!(updates.take_updates().len(), 1);
}

fn fields(name: &str, description: &str, flags: i64, words: &[&str]) -> ObjectFields {
    ObjectFields {
        named: Named::from_string(name.to_string()),
        description: Description::from_string(description.to_string()),
        flags: ObjectFlags::from_i64(flags),
        keywords: Keywords::from_list(words.iter().map(|w| w.to_string()).collect()),
        hooks: None,
    }
}

#[test]
fn inheriting_fields_from_the_prototype() {
    let oid = ObjectId::try_from_i64(4).ok().unwrap();
    let mut object = Object::new(oid, EntityId(30), false);
    let mut mine = fields("a dented cup", "Dented.", 0, &["cup"]);
    let proto = fields("a cup", "A plain cup.", 1, &["cup", "plain"]);
    let mut updates = Updates::default();

    let m = object_inherit_fields_system(oid, false, &mut object, &mut mine, &proto, &vec![InheritableFields::Name], &mut updates);
    assert_eq!(m, "Object 4 not found.");
    assert_eq!(mine.named.as_str(), "a dented cup");
    assert_eq!(updates.take_updates().len(), 0);

    let list = vec![InheritableFields::Name, InheritableFields::Flags, InheritableFields::Scripts];
    let m = object_inherit_fields_system(oid, true, &mut object, &mut mine, &proto, &list, &mut updates);
    assert_eq!(m, "Object 4 fields set to inherit.");
    assert_eq!(mine.named.as_str(), "a cup");
    assert_eq!(mine.description.as_str(), "Dented.");
    assert!(mine.flags.contains(Flags::fixed()));
    assert_eq!(mine.keywords.get_list(), vec!["cup".to_string()]);
    assert!(object.inherit_scripts());
    assert_eq!(updates.take_updates().len(), 1);
}
