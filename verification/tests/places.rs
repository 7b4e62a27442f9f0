use remud::client::EntityId;
use remud::places::Places;

#[test]
fn entities_are_found_in_their_rooms() {
    let mut p = Places::new();
    p.add_room(EntityId(1));
    p.set_location(EntityId(2), EntityId(1));
    p.set_container(EntityId(3), EntityId(2));
    p.set_container(EntityId(4), EntityId(3));
    assert_eq!(p.location_of(EntityId(1)), EntityId(1));
    assert_eq!(p.location_of(EntityId(2)), EntityId(1));
    assert_eq!(p.location_of(EntityId(3)), EntityId(1));
    assert_eq!(p.location_of(EntityId(4)), EntityId(1));
}
