use remud::script_api::{
    count_lines, JsonParseError, JsonScript, JsonScriptInfo, JsonScriptName, JsonScriptResponse,
    ScriptError, ScriptLibrary, ScriptsRequest, ScriptsResponse,
};
use remud::scripts::{Script, ScriptName, ScriptTrigger, TriggerEvent, TriggerKind};
use remud::scripts::{QueuedAction, ScriptHook, ScriptHooks, ScriptRun, ScriptRuns, Scripts};
use remud::actions::{Action, Look, Who};
use remud::client::EntityId;

fn script(name: &str, trigger: &str, code: &str) -> JsonScript {
    JsonScript { name: name.to_string(), trigger: trigger.to_string(), code: code.to_string() }
}

fn name(n: &str) -> JsonScriptName {
    JsonScriptName { name: n.to_string() }
}

fn read(lib: &mut ScriptLibrary, n: &str) -> ScriptsResponse {
    lib.process_web(ScriptsRequest::ReadScript(name(n)), None)
}

#[test]
fn trigger_event_names_round_trip() {
    let all = [
        TriggerEvent::Drop,
        TriggerEvent::Emote,
        TriggerEvent::Exits,
        TriggerEvent::Get,
        TriggerEvent::Init,
        TriggerEvent::Inventory,
        TriggerEvent::Look,
        TriggerEvent::LookAt,
        TriggerEvent::Move,
        TriggerEvent::Say,
        TriggerEvent::Send,
        TriggerEvent::Timer,
    ];
    for t in all.iter() {
        let n = t.name();
        assert_eq!(TriggerEvent::from_name(n.as_str()), Some(*t));
    }
    assert_eq!(TriggerEvent::LookAt.name(), "LookAt");
    assert_eq!(TriggerEvent::from_name("look"), None);
    assert_eq!(TriggerEvent::from_name("Use"), None);
}

#[test]
fn trigger_kinds() {
    assert_eq!(TriggerKind::PreEvent.name(), "PreEvent");
    assert_eq!(TriggerKind::from_name("Timer"), Some(TriggerKind::Timer));
    assert_eq!(TriggerKind::from_name("timer"), None);
    let t = ScriptTrigger::Timer("tick".to_string());
    assert_eq!(t.kind(), TriggerKind::Timer);
    assert_eq!(t.text(), "tick");
    assert_eq!(ScriptTrigger::Init.text(), "");
    assert_eq!(ScriptTrigger::PreEvent(TriggerEvent::Say).text(), "Say");
}

#[test]
fn script_names_are_ascii_without_whitespace() {
    assert!(ScriptName::try_from_string("greet_player".to_string()).is_ok());
    assert!(ScriptName::try_from_string("".to_string()).is_ok());
    assert!(ScriptName::try_from_string("two words".to_string()).is_err());
    assert!(ScriptName::try_from_string("tab\there".to_string()).is_err());
    assert!(ScriptName::try_from_string("caf\u{e9}".to_string()).is_err());
    let e = ScriptName::try_from_string("a b".to_string()).err().unwrap();
    assert_eq!(e.message(), "Failed to parse script name: must be ASCII and contain no whitespace.");
}

#[test]
fn line_counts() {
    assert_eq!(count_lines(""), 0);
    assert_eq!(count_lines("one"), 1);
    assert_eq!(count_lines("one\n"), 1);
    assert_eq!(count_lines("one\ntwo"), 2);
    assert_eq!(count_lines("one\r\ntwo\r\n"), 2);
    assert_eq!(count_lines("\n\n"), 2);
}

#[test]
fn create_then_read_gives_the_script_back() {
    let mut lib = ScriptLibrary::new();
    let err = JsonParseError::new(Some(2), Some(5), "oops".to_string());
    match lib.process_web(ScriptsRequest::CreateScript(script("greet", "Say", "let x = 1;\nx")), Some(err)) {
        ScriptsResponse::ScriptCompiled(Some(e)) => {
            assert_eq!(e.line(), Some(2));
            assert_eq!(e.position(), Some(5));
            assert_eq!(e.message(), "oops");
        },
        _ => panic!("expected a compiled answer"),
    }
    match read(&mut lib, "greet") {
        ScriptsResponse::Script(JsonScriptResponse { name, trigger, code, error }) => {
            assert_eq!(name, "greet");
            assert_eq!(trigger, "Say");
            assert_eq!(code, "let x = 1;\nx");
            assert_eq!(error.unwrap().message(), "oops");
        },
        _ => panic!("expected the script"),
    }
    let changes = lib.take_updates();
    assert_eq!(changes.len(), 1);
    assert_eq!(lib.take_updates().len(), 0);
}

#[test]
fn create_refusals() {
    let mut lib = ScriptLibrary::new();
    assert!(matches!(
        lib.process_web(ScriptsRequest::CreateScript(script("bad name", "Say", "")), None),
        ScriptsResponse::Error(ScriptError::BadScriptName)
    ));
    assert!(matches!(
        lib.process_web(ScriptsRequest::CreateScript(script("ok", "Shout", "")), None),
        ScriptsResponse::Error(ScriptError::BadTrigger)
    ));
    assert!(matches!(
        lib.process_web(ScriptsRequest::CreateScript(script("ok", "Drop", "")), None),
        ScriptsResponse::ScriptCompiled(None)
    ));
    assert!(matches!(
        lib.process_web(ScriptsRequest::CreateScript(script("ok", "Get", "x")), None),
        ScriptsResponse::Error(ScriptError::DuplicateName)
    ));
    match read(&mut lib, "ok") {
        ScriptsResponse::Script(r) => assert_eq!(r.trigger, "Drop"),
        _ => panic!("expected the first script"),
    }
    assert_eq!(lib.take_updates().len(), 1);
}

#[test]
fn update_then_read_gives_the_new_code() {
    let mut lib = ScriptLibrary::new();
    lib.process_web(ScriptsRequest::CreateScript(script("s", "Look", "old")), None);
    assert!(matches!(
        lib.process_web(ScriptsRequest::UpdateScript(script("missing", "Look", "x")), None),
        ScriptsResponse::Error(ScriptError::ScriptNotFound)
    ));
    assert!(matches!(
        lib.process_web(ScriptsRequest::UpdateScript(script("s", "Move", "new")), None),
        ScriptsResponse::ScriptCompiled(None)
    ));
    match read(&mut lib, "s") {
        ScriptsResponse::Script(r) => {
            assert_eq!(r.trigger, "Move");
            assert_eq!(r.code, "new");
            assert!(r.error.is_none());
        },
        _ => panic!("expected the script"),
    }
    assert_eq!(lib.take_updates().len(), 2);
}

#[test]
fn delete_then_read_finds_nothing() {
    let mut lib = ScriptLibrary::new();
    lib.process_web(ScriptsRequest::CreateScript(script("s", "Look", "x")), None);
    assert!(matches!(
        lib.process_web(ScriptsRequest::DeleteScript(name("s")), None),
        ScriptsResponse::Done
    ));
    assert!(matches!(read(&mut lib, "s"), ScriptsResponse::Error(ScriptError::ScriptNotFound)));
    assert!(matches!(
        lib.process_web(ScriptsRequest::DeleteScript(name("s")), None),
        ScriptsResponse::Error(ScriptError::ScriptNotFound)
    ));
    assert!(matches!(
        lib.process_web(ScriptsRequest::DeleteScript(name("a b")), None),
        ScriptsResponse::Error(ScriptError::BadScriptName)
    ));
}

#[test]
fn listing_counts_lines() {
    let mut lib = ScriptLibrary::new();
    lib.process_web(ScriptsRequest::CreateScript(script("a", "Init", "one\ntwo\nthree")), None);
    lib.process_web(ScriptsRequest::CreateScript(script("b", "Timer", "")), None);
    match lib.process_web(ScriptsRequest::ReadAllScripts, None) {
        ScriptsResponse::ScriptList(list) => {
            assert_eq!(list.len(), 2);
            assert_eq!(list[0].name, "a");
            assert_eq!(list[0].lines, 3);
            assert_eq!(list[1].trigger, "Timer");
            assert_eq!(list[1].lines, 0);
        },
        _ => panic!("expected a list"),
    }
}

#[test]
fn script_info_from_script() {
    let n = ScriptName::try_from_string("x".to_string()).ok().unwrap();
    let s = Script::new(n, TriggerEvent::Emote, "a\nb\n".to_string());
    let info = JsonScriptInfo::new(s, None);
    assert_eq!(info.name, "x");
    assert_eq!(info.trigger, "Emote");
    assert_eq!(info.lines, 2);
}

#[test]
fn script_error_messages() {
    assert_eq!(ScriptError::BadTrigger.message(), "bad trigger name");
    assert_eq!(ScriptError::BadScriptName.message(), "bad script name");
    assert_eq!(ScriptError::DuplicateName.message(), "duplicate script found");
    assert_eq!(ScriptError::ScriptNotFound.message(), "script not found");
}

#[test]
fn hooks_by_trigger_and_removal() {
    let n = |s: &str| ScriptName::try_from_string(s.to_string()).ok().unwrap();
    let mut hooks = ScriptHooks::new(ScriptHook { trigger: ScriptTrigger::Init, script: n("a") });
    hooks.insert(ScriptHook { trigger: ScriptTrigger::PreEvent(TriggerEvent::Say), script: n("b") });
    hooks.insert(ScriptHook { trigger: ScriptTrigger::Init, script: n("c") });
    let init = hooks.by_trigger(&ScriptTrigger::Init);
    assert_eq!(init.len(), 2);
    assert_eq!(init[0].as_str(), "a");
    assert_eq!(init[1].as_str(), "c");
    assert!(hooks.contains(&ScriptHook { trigger: ScriptTrigger::PreEvent(TriggerEvent::Say), script: n("b") }));
    assert!(!hooks.contains(&ScriptHook { trigger: ScriptTrigger::PostEvent(TriggerEvent::Say), script: n("b") }));
    let removed = hooks.remove(&n("b")).unwrap();
    assert_eq!(removed.script.as_str(), "b");
    assert!(hooks.remove(&n("b")).is_none());
    assert_eq!(hooks.hooks().len(), 2);
    assert!(!hooks.is_empty());
}

#[test]
fn scripts_by_name() {
    let mut s = Scripts::default();
    let a = ScriptName::try_from_string("a".to_string()).ok().unwrap();
    let b = ScriptName::try_from_string("b".to_string()).ok().unwrap();
    s.insert(a.duplicate(), EntityId(1));
    s.insert(b.duplicate(), EntityId(2));
    s.insert(a.duplicate(), EntityId(3));
    assert_eq!(s.by_name(&a), Some(EntityId(3)));
    assert_eq!(s.by_name(&b), Some(EntityId(2)));
    s.remove(&a);
    assert_eq!(s.by_name(&a), None);
    assert_eq!(s.by_name(&b), Some(EntityId(2)));
}

#[test]
fn events_of_actions() {
    let look = Action::Look(Look { actor: EntityId(1), direction: None });
    assert_eq!(TriggerEvent::from_action(&look), Some(TriggerEvent::Look));
    let who = Action::Who(Who { actor: EntityId(1) });
    assert_eq!(TriggerEvent::from_action(&who), None);
    let q = QueuedAction::from_action(who);
    assert_eq!(q.action.actor(), EntityId(1));
    let mut runs = ScriptRuns::default();
    runs.queue_init(ScriptRun::new(EntityId(4), ScriptName::try_from_string("x".to_string()).ok().unwrap()));
}
