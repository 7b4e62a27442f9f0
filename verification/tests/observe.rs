use remud::client::EntityId;
use remud::object::{sort_strings, Flags};
use remud::observe::{exits_message, inventory_message, look_at_messages, look_message, who_message};
use remud::persist::room::Direction;
use remud::targeting::Target;
use remud::actions::{Action, Shutdown, Who};
use remud::ids::RoomId;
use remud::observe::login_notices;
use remud::types::Configuration;

#[test]
fn exit_lists() {
    assert_eq!(exits_message(&vec![]), "This room has no obvious exits.");
    assert_eq!(exits_message(&vec![Direction::Up]), "There is an exit up.");
    assert_eq!(
        exits_message(&vec![Direction::West, Direction::East, Direction::North]),
        "There are exits east, north, and west."
    );
}

#[test]
fn online_players() {
    assert_eq!(
        who_message(&vec!["Zed".to_string(), "Ann".to_string(), "Ann".to_string()]),
        "Online players:\r\n  Ann\r\n  Ann\r\n  Zed"
    );
    assert_eq!(who_message(&vec![]), "Online players:\r\n");
    assert_eq!(sort_strings(&vec!["b".to_string(), "a".to_string(), "b".to_string()]), vec!["a", "b", "b"]);
}

#[test]
fn room_descriptions() {
    let me = EntityId(1);
    let players = vec![(me, "Me".to_string()), (EntityId(2), "Bo".to_string())];
    let objects = vec![("a lamp".to_string(), Flags::empty()), ("dust".to_string(), Flags::subtle())];
    assert_eq!(
        look_message(me, "Hall", "A long hall.", &players, &objects),
        "|white|Hall|-|\r\nA long hall.\r\nBo is here.\r\nYou see a lamp."
    );
    let players = vec![(EntityId(3), "Cy".to_string()), (EntityId(2), "Bo".to_string())];
    assert_eq!(
        look_message(me, "Hall", "A long hall.", &players, &vec![]),
        "|white|Hall|-|\r\nA long hall.\r\nBo and Cy are here."
    );
    assert_eq!(look_message(me, "Void", "", &vec![], &vec![]), "|white|Void|-|\r\n");
}

#[test]
fn looking_at_things() {
    let t = Target { entity: EntityId(4), name: "a lamp".to_string(), desc: "It glows.".to_string() };
    assert_eq!(look_at_messages(Some(t), vec![]), vec!["|white|a lamp|-|", "It glows."]);
    assert_eq!(
        look_at_messages(None, vec!["red".to_string(), "box".to_string()]),
        vec!["You find nothing called \"box and red\" to look at."]
    );
}

#[test]
fn inventories() {
    assert_eq!(inventory_message(&vec![]), "|white|You have nothing.|-|");
    assert_eq!(
        inventory_message(&vec!["a lamp".to_string(), "a coin".to_string()]),
        "|white|You have:|-|\r\n  a lamp\r\n  a coin"
    );
}

#[test]
fn arrivals_and_shutdowns() {
    let notes = login_notices(EntityId(1), "Ann", &vec![EntityId(2), EntityId(1), EntityId(3)]);
    assert_eq!(notes, vec![(EntityId(2), "Ann arrives.".to_string()), (EntityId(3), "Ann arrives.".to_string())]);
    let mut c = Configuration { restart: false, shutdown: false, spawn_room: RoomId(0) };
    c.apply_shutdowns(&vec![Action::Who(Who { actor: EntityId(1) })]);
    assert!(!c.shutdown);
    c.apply_shutdowns(&vec![Action::Who(Who { actor: EntityId(1) }), Action::Shutdown(Shutdown { actor: EntityId(1) })]);
    assert!(c.shutdown);
}
