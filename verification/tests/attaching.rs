use remud::actions::AttachTarget;
use remud::attaching::{script_attach_system, script_detach_system};
use remud::client::EntityId;
use remud::ids::{Id, ObjectId, PrototypeId, RoomId};
use remud::persist::Updates;
use remud::rows::Object;
use remud::scripts::{ScriptHooks, ScriptName, TriggerEvent, TriggerKind};

fn name(s: &str) -> ScriptName {
    ScriptName::try_from_string(s.to_string()).ok().unwrap()
}

#[test]
fn attaching_and_detaching() {
    let oid = ObjectId::try_from_i64(7).ok().unwrap();
    let pid = PrototypeId::try_from_i64(2).ok().unwrap();
    let target = AttachTarget::Id(Id::Object(oid));
    let mut hooks: Option<ScriptHooks> = None;
    let mut object = Some(Object::new(oid, EntityId(50), true));
    let mut updates = Updates::default();

    let m = script_attach_system(&name("greet"), TriggerKind::PostEvent, &None, &target, None, Some(Id::Object(oid)),
        &mut hooks, &mut object, Some(pid), &mut updates);
    assert_eq!(m, "Script greet not found.");

    let m = script_attach_system(&name("greet"), TriggerKind::PostEvent, &None, &target, Some(TriggerEvent::Say), None,
        &mut hooks, &mut object, Some(pid), &mut updates);
    assert_eq!(m, "Target object 7 not found.");

    let m = script_attach_system(&name("greet"), TriggerKind::PostEvent, &None, &target, Some(TriggerEvent::Say),
        Some(Id::Object(oid)), &mut hooks, &mut object, Some(pid), &mut updates);
    assert_eq!(m, "Script greet attached to object 7.");
    assert_eq!(hooks.as_ref().unwrap().hooks().len(), 1);
    assert!(!object.unwrap().inherit_scripts());
    assert_eq!(updates.take_updates().len(), 1);

    let m = script_attach_system(&name("greet"), TriggerKind::PostEvent, &None, &target, Some(TriggerEvent::Say),
        Some(Id::Object(oid)), &mut hooks, &mut object, Some(pid), &mut updates);
    assert_eq!(m, "Script greet already attached to entity.");

    let m = script_detach_system(&name("other"), &target, Some(Id::Object(oid)), &mut hooks, &mut object, Some(pid), &mut updates);
    assert_eq!(m, "Script other not found on target.");
    let m = script_detach_system(&name("greet"), &target, Some(Id::Object(oid)), &mut hooks, &mut object, Some(pid), &mut updates);
    assert_eq!(m, "Detached script greet from object 7.");
    assert!(hooks.as_ref().unwrap().is_empty());

    let player = AttachTarget::Player("Ann".to_string());
    let mut none: Option<Object> = None;
    let mut phooks: Option<ScriptHooks> = None;
    let m = script_attach_system(&name("tick"), TriggerKind::Timer, &Some("t".to_string()), &player, Some(TriggerEvent::Timer),
        Some(Id::Player(remud::ids::PlayerId(3))), &mut phooks, &mut none, None, &mut updates);
    assert_eq!(m, "Script tick attached to player Ann.");
    let room = AttachTarget::Id(Id::Room(RoomId(4)));
    let m = script_detach_system(&name("tick"), &room, None, &mut phooks, &mut none, None, &mut updates);
    assert_eq!(m, "Target room 4 not found.");
}
