use remud::client::EntityId;
use remud::ids::{ObjectId, Objects, PrototypeId, Prototypes, RoomId};
use remud::object::{Flags, Keywords, Mode, ObjectFlags};
use remud::object_admin::{object_create_system, update_keywords_system, update_object_flags_system};
use remud::persist::Updates;

fn list(words: &[&str]) -> Vec<String> {
    words.iter().map(|w| w.to_string()).collect()
}

#[test]
fn keywords_are_added_removed_and_set() {
    let id = ObjectId::try_from_i64(3).ok().unwrap();
    let mut k = Keywords::from_list(list(&["red", "ball"]));
    let mut updates = Updates::default();
    assert_eq!(update_keywords_system(id, false, Mode::Add, &list(&["x"]), &mut k, &mut updates), "Object 3 not found.");
    assert_eq!(update_keywords_system(id, true, Mode::Add, &list(&["toy", "red"]), &mut k, &mut updates), "Updated object 3 keywords.");
    assert_eq!(k.get_list(), list(&["ball", "red", "toy"]));
    update_keywords_system(id, true, Mode::Add, &list(&["toy", "red"]), &mut k, &mut updates);
    assert_eq!(k.get_list(), list(&["ball", "red", "toy"]));
    update_keywords_system(id, true, Mode::Remove, &list(&["red"]), &mut k, &mut updates);
    assert_eq!(k.get_list(), list(&["ball", "toy"]));
    update_keywords_system(id, true, Mode::Replace, &list(&["cup"]), &mut k, &mut updates);
    assert_eq!(k.get_list(), list(&["cup"]));
    assert_eq!(updates.take_updates().len(), 4);
}

#[test]
fn flags_are_set_and_cleared() {
    let id = ObjectId::try_from_i64(3).ok().unwrap();
    let mut f = ObjectFlags::new();
    let mut updates = Updates::default();
    assert_eq!(update_object_flags_system(id, true, &list(&["heavy"]), false, &mut f, &mut updates),
        "Invalid object flag: heavy. Valid flags: fixed, subtle.");
    assert_eq!(update_object_flags_system(id, true, &list(&["Fixed", "subtle"]), false, &mut f, &mut updates),
        "Updated object 3 flags.");
    assert!(f.contains(Flags::fixed()) && f.contains(Flags::subtle()));
    update_object_flags_system(id, true, &list(&["subtle"]), true, &mut f, &mut updates);
    assert!(f.contains(Flags::fixed()) && !f.contains(Flags::subtle()));
    assert_eq!(update_object_flags_system(id, false, &list(&["fixed"]), true, &mut f, &mut updates), "Object 3 not found.");
    assert_eq!(updates.take_updates().len(), 2);
}

#[test]
fn objects_are_created_from_prototypes() {
    let mut prototypes = Prototypes::new(1);
    prototypes.insert(PrototypeId::try_from_i64(1).ok().unwrap(), EntityId(70));
    let mut objects = Objects::new(11);
    let mut updates = Updates::default();
    let (m, id) = object_create_system(PrototypeId::try_from_i64(2).ok().unwrap(), &prototypes, &mut objects, RoomId(1), &mut updates);
    assert_eq!(m, "Prototype 2 does not exist.");
    assert!(id.is_none());
    let (m, id) = object_create_system(PrototypeId::try_from_i64(1).ok().unwrap(), &prototypes, &mut objects, RoomId(1), &mut updates);
    assert_eq!(m, "Created object 12.");
    assert_eq!(id.unwrap().get(), 12);
    assert_eq!(updates.take_updates()[0].len(), 2);
}
