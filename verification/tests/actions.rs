use remud::actions::{
    parse_command, parse_drop, parse_get, parse_look, parse_object, parse_prototype, parse_room,
    parse_script, parse_stats, parse_teleport, parse_use, Action, ActionTarget, AttachTarget,
    ObjectOrPrototype,
};
use remud::client::EntityId;
use remud::commands::Commands;
use remud::ids::Id;
use remud::object::{InheritableFields, Mode};
use remud::persist::room::Direction;
use remud::scripts::TriggerKind;
use remud::text::{split_char, split_spaces_trimmed, split_whitespace, Tokenizer};

const ME: EntityId = EntityId(7);

fn err(r: Result<Action, String>) -> String {
    match r {
        Err(e) => e,
        Ok(_) => panic!("expected an error"),
    }
}

fn t(s: &str) -> Tokenizer<'_> {
    Tokenizer::new(s)
}

#[test]
fn word_splitting() {
    assert_eq!(split_whitespace("  fuzzy \t bear "), vec!["fuzzy", "bear"]);
    assert_eq!(split_whitespace("   "), Vec::<String>::new());
    assert_eq!(split_char("a  b", ' '), vec!["a", "", "b"]);
    assert_eq!(split_char("", ' '), vec![""]);
    assert_eq!(split_spaces_trimmed("red\t  box"), vec!["red", "", "box"]);
}

#[test]
fn look_forms() {
    match parse_look(ME, t("")).ok().unwrap() {
        Action::Look(l) => {
            assert_eq!(l.actor, ME);
            assert_eq!(l.direction, None);
        }
        _ => panic!(),
    }
    match parse_look(ME, t("north")).ok().unwrap() {
        Action::Look(l) => assert_eq!(l.direction, Some(Direction::North)),
        _ => panic!(),
    }
    match parse_look(ME, t("at fuzzy  bear")).ok().unwrap() {
        Action::LookAt(l) => assert_eq!(l.keywords, vec!["fuzzy", "bear"]),
        _ => panic!(),
    }
    assert_eq!(err(parse_look(ME, t("at"))), "Look at what?");
    assert_eq!(err(parse_look(ME, t("sideways"))), "I don't know how to look sideways.");
}

#[test]
fn item_commands() {
    assert_eq!(err(parse_drop(ME, t(""))), "Drop what?");
    assert_eq!(err(parse_get(ME, t(""))), "Get what?");
    assert_eq!(err(parse_use(ME, t(""))), "Use what?");
    match parse_get(ME, t("shiny coin")).ok().unwrap() {
        Action::Get(g) => assert_eq!(g.keywords, vec!["shiny", "coin"]),
        _ => panic!(),
    }
    match parse_drop(ME, t("coin")).ok().unwrap() {
        Action::Drop(d) => assert_eq!(d.keywords, vec!["coin"]),
        _ => panic!(),
    }
    match parse_use(ME, t("lever")).ok().unwrap() {
        Action::Use(u) => assert_eq!(u.keywords, vec!["lever"]),
        _ => panic!(),
    }
    match parse_stats(ME, t("anything")).ok().unwrap() {
        Action::Stats(s) => assert_eq!(s.actor, ME),
        _ => panic!(),
    }
}

#[test]
fn teleport_forms() {
    match parse_teleport(ME, t("12")).ok().unwrap() {
        Action::Teleport(x) => assert_eq!(x.room_id.0, 12),
        _ => panic!(),
    }
    assert_eq!(err(parse_teleport(ME, t(""))), "Teleport to where?");
    assert_eq!(err(parse_teleport(ME, t("-1"))), "Room IDs must be a non-negative integers.");
}

#[test]
fn object_subcommands() {
    match parse_object(ME, t("new 3")).ok().unwrap() {
        Action::ObjectCreate(c) => assert_eq!(c.prototype_id.get(), 3),
        _ => panic!(),
    }
    assert_eq!(err(parse_object(ME, t(""))), "Enter an object ID or subcommand: new.");
    assert_eq!(err(parse_object(ME, t("new"))), "Enter a prototype ID.");
    assert_eq!(err(parse_object(ME, t("new x"))), "Prototype IDs must be a non-negative integers.");
    assert_eq!(err(parse_object(ME, t("box"))), "Object IDs must be a non-negative integers.");
    assert_eq!(
        err(parse_object(ME, t("4"))),
        "Enter an object subcommand: desc, info, keywords, name, remove, set, or unset."
    );
    assert_eq!(
        err(parse_object(ME, t("4 paint"))),
        "Enter a valid object subcommand: desc, info, keywords, name, remove, set, or unset."
    );
    match parse_object(ME, t("4 desc A fine box.")).ok().unwrap() {
        Action::UpdateDescription(u) => {
            assert_eq!(u.description, "A fine box.");
            assert!(matches!(u.target, ActionTarget::Object(o) if o.get() == 4));
        }
        _ => panic!(),
    }
    assert_eq!(err(parse_object(ME, t("4 desc"))), "Enter a long description.");
    match parse_object(ME, t("4 errors on_use")).ok().unwrap() {
        Action::ShowError(e) => assert_eq!(e.script.as_str(), "on_use"),
        _ => panic!(),
    }
    assert_eq!(
        err(parse_object(ME, t("4 errors é"))),
        "Failed to parse script name: must be ASCII and contain no whitespace."
    );
    match parse_object(ME, t("4 inherit desc scripts")).ok().unwrap() {
        Action::ObjectInheritFields(i) => {
            assert_eq!(i.fields, vec![InheritableFields::Description, InheritableFields::Scripts])
        }
        _ => panic!(),
    }
    assert_eq!(
        err(parse_object(ME, t("4 inherit colour"))),
        "Enter valid inheritable fields: desc, flags, keywords, name, and scripts"
    );
    match parse_object(ME, t("4 keywords add big  red")).ok().unwrap() {
        Action::UpdateKeywords(k) => {
            assert_eq!(k.mode, Some(Mode::Add));
            assert_eq!(k.keywords, vec!["big", "", "red"]);
            assert!(matches!(k.id, ObjectOrPrototype::Object(o) if o.get() == 4));
        }
        _ => panic!(),
    }
    assert_eq!(
        err(parse_object(ME, t("4 keywords swap a"))),
        "Enter a valid keyword alteration mode: add, remove, or set."
    );
    assert_eq!(
        err(parse_object(ME, t("4 keywords"))),
        "Enter a keyword alteration mode: add, remove, or set."
    );
    assert_eq!(err(parse_object(ME, t("4 keywords set"))), "Enter a space separated list of keywords.");
    match parse_object(ME, t("4 unset fixed subtle")).ok().unwrap() {
        Action::UpdateObjectFlags(f) => {
            assert!(f.clear);
            assert_eq!(f.flags, vec!["fixed", "subtle"]);
        }
        _ => panic!(),
    }
    assert_eq!(
        err(parse_object(ME, t("4 set"))),
        "Enter a space separated list of flags. Valid flags: fixed, subtle."
    );
    assert!(matches!(parse_object(ME, t("4 info")), Ok(Action::ObjectInfo(_))));
    assert!(matches!(parse_object(ME, t("4 remove")), Ok(Action::ObjectRemove(_))));
    assert!(matches!(parse_object(ME, t("4 init")), Ok(Action::Initialize(_))));
}

#[test]
fn prototype_subcommands() {
    assert!(matches!(parse_prototype(ME, t("new")), Ok(Action::PrototypeCreate(_))));
    assert_eq!(err(parse_prototype(ME, t(""))), "Enter a prototype ID or subcommand: new.");
    match parse_prototype(ME, t("2 keywords rock stone")).ok().unwrap() {
        Action::UpdateKeywords(k) => {
            assert_eq!(k.mode, None);
            assert_eq!(k.keywords, vec!["rock", "stone"]);
            assert!(matches!(k.id, ObjectOrPrototype::Prototype(p) if p.get() == 2));
        }
        _ => panic!(),
    }
    match parse_prototype(ME, t("2 name a rock")).ok().unwrap() {
        Action::UpdateName(u) => assert_eq!(u.name, "a rock"),
        _ => panic!(),
    }
    assert_eq!(
        err(parse_prototype(ME, t("2 fly"))),
        "Enter a valid prototype subcommand: desc, info, keywords, name, remove, set, or unset."
    );
    assert_eq!(
        err(parse_prototype(ME, t("2"))),
        "Enter a prototype subcommand: desc, info, keywords, name, remove, set, or unset."
    );
}

#[test]
fn room_subcommands() {
    match parse_room(ME, t("LINK down 4")).ok().unwrap() {
        Action::RoomLink(l) => {
            assert_eq!(l.direction, Direction::Down);
            assert_eq!(l.destination.0, 4);
        }
        _ => panic!(),
    }
    match parse_room(ME, t("\u{212A}\u{212A}")).err() {
        Some(e) => assert_eq!(e, "Enter a valid room subcommand: info, desc, link, new, regions, remove, or unlink."),
        None => panic!(),
    }
    match parse_room(ME, t("lin\u{212A} up 1")).ok().unwrap() {
        Action::RoomLink(l) => assert_eq!(l.direction, Direction::Up),
        _ => panic!(),
    }
    match parse_room(ME, t("new")).ok().unwrap() {
        Action::RoomCreate(c) => assert_eq!(c.direction, None),
        _ => panic!(),
    }
    match parse_room(ME, t("new west")).ok().unwrap() {
        Action::RoomCreate(c) => assert_eq!(c.direction, Some(Direction::West)),
        _ => panic!(),
    }
    assert_eq!(
        err(parse_room(ME, t("new sideways"))),
        "Enter a valid direction: up, down, north, east, south, west."
    );
    match parse_room(ME, t("regions remove town  market")).ok().unwrap() {
        Action::RoomUpdateRegions(u) => {
            assert!(u.remove);
            assert_eq!(u.regions, vec!["town", "", "market"]);
        }
        _ => panic!(),
    }
    assert_eq!(
        err(parse_room(ME, t("regions set town"))),
        "Enter a valid region operation: add or remove."
    );
    assert_eq!(err(parse_room(ME, t("regions add"))), "Enter one or more space separated regions.");
    assert_eq!(err(parse_room(ME, t("link"))), "Enter a direction.");
    assert_eq!(err(parse_room(ME, t("link up"))), "Enter a destination room ID.");
    assert_eq!(err(parse_room(ME, t("unlink"))), "Enter a direction.");
    assert_eq!(err(parse_room(ME, t("name"))), "Enter a name.");
    assert_eq!(
        err(parse_room(ME, t(""))),
        "Enter a room subcommand: info, desc, link, new, regions, remove, or unlink."
    );
    match parse_room(ME, t("desc A dusty hall.")).ok().unwrap() {
        Action::UpdateDescription(u) => {
            assert_eq!(u.description, "A dusty hall.");
            assert!(matches!(u.target, ActionTarget::CurrentRoom));
        }
        _ => panic!(),
    }
}

#[test]
fn script_subcommands() {
    match parse_script(ME, t("greet attach-timer tick room 3")).ok().unwrap() {
        Action::ScriptAttach(a) => {
            assert_eq!(a.script.as_str(), "greet");
            assert_eq!(a.trigger, TriggerKind::Timer);
            assert_eq!(a.timer, Some("tick".to_string()));
            assert!(matches!(a.target, AttachTarget::Id(Id::Room(r)) if r.0 == 3));
        }
        _ => panic!(),
    }
    match parse_script(ME, t("greet attach-pre player Ted")).ok().unwrap() {
        Action::ScriptAttach(a) => {
            assert_eq!(a.trigger, TriggerKind::PreEvent);
            assert_eq!(a.timer, None);
            assert!(matches!(a.target, AttachTarget::Player(ref n) if n == "Ted"));
        }
        _ => panic!(),
    }
    match parse_script(ME, t("greet detach object 5")).ok().unwrap() {
        Action::ScriptDetach(d) => assert!(matches!(d.target, AttachTarget::Id(Id::Object(o)) if o.get() == 5)),
        _ => panic!(),
    }
    assert_eq!(err(parse_script(ME, t(""))), "Enter a script name.");
    assert_eq!(
        err(parse_script(ME, t("greet"))),
        "Enter a subcommand: attach-init, attach-post, attach-pre, attach-timer, or detach."
    );
    assert_eq!(
        err(parse_script(ME, t("greet attach"))),
        "Enter a valid subcommand: attach-init, attach-post, attach-pre, attach-timer, or detach."
    );
    assert_eq!(err(parse_script(ME, t("greet attach-timer"))), "Enter a timer name.");
    assert_eq!(
        err(parse_script(ME, t("greet detach"))),
        "Enter a target type: object, player, prototype, or room."
    );
    assert_eq!(
        err(parse_script(ME, t("greet detach object"))),
        "Enter a object ID, player name, prototype ID, or room ID."
    );
    assert_eq!(
        err(parse_script(ME, t("greet detach thing 1"))),
        "Enter a valid target type: object, player, prototype, or room."
    );
    assert_eq!(
        err(parse_script(ME, t("greet detach prototype -2"))),
        "Prototype IDs must be a non-negative integers."
    );
}

#[test]
fn typed_lines_become_actions() {
    let c = Commands::default();
    match parse_command(&c, ME, "n", false) {
        Some(Ok(Action::Move(m))) => assert_eq!(m.direction, Direction::North),
        _ => panic!(),
    }
    match parse_command(&c, ME, "desc A tall figure.", false) {
        Some(Ok(Action::UpdateDescription(u))) => {
            assert_eq!(u.description, "A tall figure.");
            assert!(matches!(u.target, ActionTarget::PlayerSelf));
        }
        _ => panic!(),
    }
    match parse_command(&c, ME, "look at box", false) {
        Some(Ok(Action::LookAt(l))) => assert_eq!(l.keywords, vec!["box"]),
        _ => panic!(),
    }
    assert!(parse_command(&c, ME, "'hello", false).is_none());
    match parse_command(&c, ME, "xyzzy", false) {
        Some(Err(e)) => assert_eq!(e, "I don't know what that means."),
        _ => panic!(),
    }
    match parse_command(&c, ME, "who", false) {
        Some(Ok(a)) => assert_eq!(a.actor(), ME),
        _ => panic!(),
    }
}
