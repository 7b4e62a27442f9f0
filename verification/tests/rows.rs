use remud::client::EntityId;
use remud::ids::Id;
use remud::rows::{dedup_entities, split_commas_exec, DeserializeError, HookRow, ObjectRow, PrototypeRow, RoomObjectRow, ScriptRow};
use remud::scripts::{ScriptTrigger, TriggerEvent};

fn row(id: i64, keywords: &str) -> ObjectRow {
    ObjectRow {
        id,
        prototype_id: 1,
        inherit_scripts: true,
        location: None,
        flags: 3,
        name: "a box".to_string(),
        keywords: keywords.to_string(),
        description: "A plain box.".to_string(),
    }
}

#[test]
fn comma_splitting() {
    assert_eq!(split_commas_exec("a,b"), vec!["a".to_string(), "b".to_string()]);
    assert_eq!(split_commas_exec(""), vec!["".to_string()]);
    assert_eq!(split_commas_exec("a,"), vec!["a".to_string(), "".to_string()]);
}

#[test]
fn object_rows() {
    let parts = row(4, "box,plain").into_components(EntityId(99)).ok().unwrap();
    assert!(matches!(parts.id, Id::Object(o) if o.get() == 4));
    assert_eq!(parts.object.prototype(), EntityId(99));
    assert!(parts.object.inherit_scripts());
    assert_eq!(parts.named.as_str(), "a box");
    assert_eq!(parts.description.as_str(), "A plain box.");
    assert_eq!(parts.keywords.get_list(), vec!["box".to_string(), "plain".to_string()]);
    assert!(matches!(row(-1, "").into_components(EntityId(1)), Err(DeserializeError::ObjectId)));
    assert_eq!(DeserializeError::ObjectId.message(), "object ID");
}

#[test]
fn hook_rows() {
    let h = HookRow { kind: "PreEvent".to_string(), script: "s".to_string(), trigger: "Say".to_string() }
        .into_hook()
        .ok()
        .unwrap();
    assert!(matches!(h.trigger, ScriptTrigger::PostEvent(TriggerEvent::Say)));
    let h = HookRow { kind: "Timer".to_string(), script: "s".to_string(), trigger: "tick".to_string() }
        .into_hook()
        .ok()
        .unwrap();
    assert!(matches!(h.trigger, ScriptTrigger::Timer(ref t) if t == "tick"));
    let bad = |k: &str, s: &str, t: &str| {
        HookRow { kind: k.to_string(), script: s.to_string(), trigger: t.to_string() }.into_hook().err()
    };
    assert_eq!(bad("Init", "a b", ""), Some(DeserializeError::ScriptName));
    assert_eq!(bad("Later", "s", ""), Some(DeserializeError::TriggerKind));
    assert_eq!(bad("PostEvent", "s", "Shout"), Some(DeserializeError::TriggerEvent));
}

#[test]
fn dedup_consecutive() {
    let v = vec![EntityId(1), EntityId(1), EntityId(2), EntityId(1)];
    assert_eq!(dedup_entities(&v), vec![EntityId(1), EntityId(2), EntityId(1)]);
}

#[test]
fn room_object_rows() {
    let (room, object) = RoomObjectRow { room_id: 2, object_id: 5 }.into_ids().ok().unwrap();
    assert_eq!(room.0, 2);
    assert_eq!(object.get(), 5);
    assert!(RoomObjectRow { room_id: -1, object_id: 5 }.into_ids().is_err());
    assert!(RoomObjectRow { room_id: 1, object_id: -5 }.into_ids().is_err());
}

#[test]
fn prototype_and_script_rows() {
    let p = PrototypeRow {
        id: 1,
        flags: 0,
        name: "a box".to_string(),
        keywords: "box,crate".to_string(),
        description: "Wooden.".to_string(),
    };
    assert_eq!(p.keywords(), vec!["box", "crate"]);
    let s = ScriptRow { name: "greet".to_string(), trigger: "Say".to_string(), code: "x".to_string() }
        .into_script()
        .ok()
        .unwrap();
    assert_eq!(s.name().as_str(), "greet");
    assert_eq!(s.trigger(), TriggerEvent::Say);
    let bad = ScriptRow { name: "greet".to_string(), trigger: "Sing".to_string(), code: "x".to_string() };
    assert_eq!(bad.into_script().err().unwrap().message(), "script trigger event");
    let bad = ScriptRow { name: "two words".to_string(), trigger: "Say".to_string(), code: "x".to_string() };
    assert_eq!(bad.into_script().err().unwrap().message(), "script name");
}

fn hook_row(kind: &str, script: &str, trigger: &str) -> remud::rows::HookRow {
    remud::rows::HookRow { kind: kind.to_string(), script: script.to_string(), trigger: trigger.to_string() }
}

#[test]
fn prototype_reload_hooks() {
    let rows = vec![hook_row("Init", "greet", ""), hook_row("Timer", "tick", "t1")];
    let own = remud::scripts::ScriptHooks::new(hook_row("Init", "mine", "").into_hook().ok().unwrap());
    let same = remud::scripts::ScriptHooks::new(hook_row("Init", "mine", "").into_hook().ok().unwrap());
    let (h, e) = remud::rows::reload_object_hooks(Some(own), false, true, &rows);
    assert!(e.is_none());
    assert_eq!(h.unwrap().hooks().len(), 2);
    let (h, e) = remud::rows::reload_object_hooks(Some(same), true, true, &rows);
    assert!(e.is_none());
    assert_eq!(h.unwrap().hooks().len(), 3);
    let (h, _) = remud::rows::reload_object_hooks(None, false, false, &rows);
    assert!(h.is_none());
    let bad = vec![hook_row("Init", "greet", ""), hook_row("Nope", "x", ""), hook_row("Init", "later", "")];
    let (h, e) = remud::rows::reload_object_hooks(None, false, true, &bad);
    assert!(matches!(e, Some(remud::rows::DeserializeError::TriggerKind)));
    assert_eq!(h.unwrap().hooks().len(), 1);
}
