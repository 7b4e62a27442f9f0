use vstd::prelude::*;
use crate::actions::AttachTarget;
use crate::chars::{i64_to_string, push_str, signed_decimal, string_from_chars};
use crate::ids::{Id, ObjectId, PrototypeId, RoomId};
use crate::persist::script::{attach_plan, copy_value, detach_plan, Attach, Detach};
use crate::persist::{StatementView, Updates};
use crate::rows::Object;
use crate::scripts::{
    first_hook_of, HookView, ScriptHook, ScriptHooks, ScriptName, ScriptTrigger, TriggerEvent, TriggerKind, TriggerView,
};

verus! {

/// An id as players read it: its kind and its number.
pub open spec fn id_text(id: Id) -> Seq<char> {
    match id {
        Id::Player(p) => "player "@ + signed_decimal(p.0 as int),
        Id::Prototype(p) => "prototype "@ + signed_decimal(p.value() as int),
        Id::Object(o) => "object "@ + signed_decimal(o.value() as int),
        Id::Room(r) => "room "@ + signed_decimal(r.0 as int),
    }
}

fn push_id(out: &mut Vec<char>, id: Id)
    ensures
        final(out)@ == old(out)@ + id_text(id),
{
    let (kind, n) = match id {
        Id::Player(p) => ("player ", p.0),
        Id::Prototype(p) => ("prototype ", p.get()),
        Id::Object(o) => ("object ", o.get()),
        Id::Room(r) => ("room ", r.0),
    };
    push_str(out, kind);
    let digits = i64_to_string(n);
    push_str(out, digits.as_str());
}

/// What is said when the target of a script command is not found.
pub open spec fn target_missing_text(target: AttachTarget) -> Seq<char> {
    match target {
        AttachTarget::Id(Id::Prototype(p)) => "Target prototype "@ + signed_decimal(p.value() as int) + " not found."@,
        AttachTarget::Id(Id::Object(o)) => "Target object "@ + signed_decimal(o.value() as int) + " not found."@,
        AttachTarget::Id(Id::Room(r)) => "Target room "@ + signed_decimal(r.0 as int) + " not found."@,
        AttachTarget::Id(Id::Player(_)) => seq![],
        AttachTarget::Player(name) => "Target player "@ + name@ + " not found."@,
    }
}

fn target_missing(target: &AttachTarget) -> (s: String)
    requires
        !(target matches AttachTarget::Id(Id::Player(_))),
    ensures
        s@ == target_missing_text(*target),
{
    let mut out: Vec<char> = Vec::new();
    match target {
        AttachTarget::Id(Id::Prototype(p)) => {
            push_str(&mut out, "Target prototype ");
            push_str(&mut out, i64_to_string(p.get()).as_str());
        },
        AttachTarget::Id(Id::Object(o)) => {
            push_str(&mut out, "Target object ");
            push_str(&mut out, i64_to_string(o.get()).as_str());
        },
        AttachTarget::Id(Id::Room(r)) => {
            push_str(&mut out, "Target room ");
            push_str(&mut out, i64_to_string(r.0).as_str());
        },
        AttachTarget::Id(Id::Player(_)) => {},
        AttachTarget::Player(name) => {
            push_str(&mut out, "Target player ");
            push_str(&mut out, name.as_str());
        },
    }
    push_str(&mut out, " not found.");
    string_from_chars(&out)
}

/// The trigger a hook gets: the script's event before or after the action, its init, or a
/// named timer.
pub open spec fn trigger_for(kind: TriggerKind, event: TriggerEvent, timer: Option<Seq<char>>) -> TriggerView {
    match kind {
        TriggerKind::PreEvent => TriggerView::PreEvent(event),
        TriggerKind::PostEvent => TriggerView::PostEvent(event),
        TriggerKind::Init => TriggerView::Init,
        TriggerKind::Timer => TriggerView::Timer(timer.unwrap()),
    }
}

pub open spec fn hooks_of(h: Option<ScriptHooks>) -> Option<Seq<HookView>> {
    match h {
        Some(x) => Some(x.hooks_seq()),
        None => None,
    }
}

pub open spec fn text_of(t: Option<String>) -> Option<Seq<char>> {
    match t {
        Some(s) => Some(s@),
        None => None,
    }
}

/// Whether the target found is the one named: the same id, or some player for a name.
pub open spec fn resolves(target: AttachTarget, id: Id) -> bool {
    match target {
        AttachTarget::Id(x) => x == id,
        AttachTarget::Player(_) => id is Player,
    }
}

/// The prototype whose hooks an object copies before its own change, where it still
/// inherits them.
pub open spec fn copy_for(id: Id, object: Option<Object>, prototype: Option<PrototypeId>) -> Option<PrototypeId> {
    if id is Object && object.unwrap().view_parts().2 {
        prototype
    } else {
        None
    }
}

/// The object after a change of its hooks: it no longer inherits them.
pub open spec fn object_after(id: Id, old: Option<Object>, new: Option<Object>) -> bool {
    if id is Object && old.unwrap().view_parts().2 {
        new matches Some(o) && o.view_parts() == (old.unwrap().view_parts().0, old.unwrap().view_parts().1, false)
    } else {
        new == old
    }
}

/// Attaching a script: where the script and the target are found and the hook is new,
/// the hook is added, stored, and told.
pub open spec fn attach_outcome(script: Seq<char>, kind: TriggerKind, timer: Option<Seq<char>>, target: AttachTarget,
    event: Option<TriggerEvent>, resolved: Option<Id>, old_hooks: Option<Seq<HookView>>, new_hooks: Option<Seq<HookView>>,
    old_object: Option<Object>, new_object: Option<Object>, prototype: Option<PrototypeId>,
    old_pending: Seq<Seq<StatementView>>, new_pending: Seq<Seq<StatementView>>, old_reloads: Seq<PrototypeId>,
    new_reloads: Seq<PrototypeId>, msg: Seq<char>) -> bool {
    let unchanged = new_hooks == old_hooks && new_object == old_object && new_pending == old_pending && new_reloads
        == old_reloads;
    match event {
        None => unchanged && msg == "Script "@ + script + " not found."@,
        Some(ev) => match resolved {
            None => unchanged && msg == target_missing_text(target),
            Some(id) => {
                let hook = HookView { trigger: trigger_for(kind, ev, timer), script };
                if old_hooks matches Some(hs) && hs.contains(hook) {
                    unchanged && msg == "Script "@ + script + " already attached to entity."@
                } else {
                    let copy = copy_for(id, old_object, prototype);
                    &&& new_hooks == Some(match old_hooks {
                        Some(hs) => hs.push(hook),
                        None => seq![hook],
                    })
                    &&& object_after(id, old_object, new_object)
                    &&& new_pending == old_pending.push(attach_plan(id, script, hook.trigger, copy_value(copy)))
                    &&& new_reloads == (if let Id::Prototype(p) = id {
                        old_reloads.push(p)
                    } else {
                        old_reloads
                    })
                    &&& msg == match target {
                        AttachTarget::Player(name) => "Script "@ + script + " attached to player "@ + name@ + "."@,
                        _ => "Script "@ + script + " attached to "@ + id_text(id) + "."@,
                    }
                }
            },
        },
    }
}

fn sentence3(a: &str, b: &str, c: &str) -> (s: String)
    ensures
        s@ == a@ + b@ + c@,
{
    let mut out: Vec<char> = Vec::new();
    push_str(&mut out, a);
    push_str(&mut out, b);
    push_str(&mut out, c);
    string_from_chars(&out)
}

fn done_message(prefix: &str, script: &ScriptName, middle: &str, target: &AttachTarget, id: Id) -> (s: String)
    ensures
        s@ == match target {
            AttachTarget::Player(name) => prefix@ + script@ + middle@ + "player "@ + name@ + "."@,
            _ => prefix@ + script@ + middle@ + id_text(id) + "."@,
        },
{
    let mut out: Vec<char> = Vec::new();
    push_str(&mut out, prefix);
    push_str(&mut out, script.as_str());
    push_str(&mut out, middle);
    match target {
        AttachTarget::Player(name) => {
            push_str(&mut out, "player ");
            push_str(&mut out, name.as_str());
        },
        _ => {
            push_id(&mut out, id);
        },
    }
    push_str(&mut out, ".");
    string_from_chars(&out)
}

/// Makes an object stop inheriting its prototype's hooks, handing back the prototype
/// whose hooks it must copy first.
fn stop_inheriting(id: Id, object: &mut Option<Object>, prototype: Option<PrototypeId>) -> (copy: Option<PrototypeId>)
    requires
        id is Object && old(object).is_some() && old(object).unwrap().view_parts().2 ==> prototype is Some,
        id is Object ==> old(object).is_some(),
    ensures
        copy == copy_for(id, *old(object), prototype),
        object_after(id, *old(object), *final(object)),
{
    if let Id::Object(_) = id {
        match object {
            Some(o) => {
                if o.inherit_scripts() {
                    o.set_inherit_scripts(false);
                    return prototype;
                }
            },
            None => {},
        }
    }
    None
}

/// Attaches a script to its target. `event` is the event the named script is written for
/// (`None` where no script has that name), `resolved` the id of the target found (`None`
/// where it is not), `hooks` and `object` the target's hooks and object parts, and
/// `prototype` the object's prototype.
pub fn script_attach_system(script: &ScriptName, kind: TriggerKind, timer: &Option<String>, target: &AttachTarget,
    event: Option<TriggerEvent>, resolved: Option<Id>, hooks: &mut Option<ScriptHooks>, object: &mut Option<Object>,
    prototype: Option<PrototypeId>, updates: &mut Updates) -> (msg: String)
    requires
        !(target matches AttachTarget::Id(Id::Player(_))),
        resolved matches Some(id) ==> resolves(*target, id),
        kind == TriggerKind::Timer ==> timer is Some,
        resolved matches Some(id) && id is Object ==> old(object).is_some(),
        resolved matches Some(id) && id is Object && old(object).unwrap().view_parts().2 ==> prototype is Some,
    ensures
        attach_outcome(script@, kind, text_of(*timer), *target, event, resolved, hooks_of(*old(hooks)),
            hooks_of(*final(hooks)), *old(object), *final(object), prototype, old(updates).pending(),
            final(updates).pending(), old(updates).pending_reloads(), final(updates).pending_reloads(), msg@),
{
    let ev = match event {
        Some(e) => e,
        None => {
            return sentence3("Script ", script.as_str(), " not found.");
        },
    };
    let id = match resolved {
        Some(id) => id,
        None => {
            return target_missing(target);
        },
    };
    let trigger = match kind {
        TriggerKind::PreEvent => ScriptTrigger::PreEvent(ev),
        TriggerKind::PostEvent => ScriptTrigger::PostEvent(ev),
        TriggerKind::Init => ScriptTrigger::Init,
        TriggerKind::Timer => match timer {
            Some(t) => ScriptTrigger::Timer(t.clone()),
            None => ScriptTrigger::Init,
        },
    };
    let hook = ScriptHook { trigger: trigger.duplicate(), script: script.duplicate() };
    match hooks {
        Some(hs) => {
            if hs.contains(&hook) {
                return sentence3("Script ", script.as_str(), " already attached to entity.");
            }
            hs.insert(hook);
        },
        None => {
            *hooks = Some(ScriptHooks::new(hook));
        },
    }
    let ghost hv = HookView { trigger: trigger@, script: script@ };
    assert(hv.trigger == trigger_for(kind, ev, text_of(*timer)));
    assert(hooks_of(*hooks) == Some(match hooks_of(*old(hooks)) {
        Some(hs) => hs.push(hv),
        None => seq![hv],
    }));
    let copy = stop_inheriting(id, object, prototype);
    updates.persist(Attach::new(id, script.duplicate(), trigger, copy).statements());
    if let Id::Prototype(p) = id {
        updates.reload(p);
    }
    let m = done_message("Script ", script, " attached to ", target, id);
    proof {
        reveal_strlit(" attached to ");
        reveal_strlit("player ");
        reveal_strlit(" attached to player ");
        assert(" attached to "@ + "player "@ =~= " attached to player "@);
    }
    assert(object_after(id, *old(object), *object));
    assert(updates.pending_reloads() == (if let Id::Prototype(p) = id {
        old(updates).pending_reloads().push(p)
    } else {
        old(updates).pending_reloads()
    }));
    assert(m@ == match *target {
        AttachTarget::Player(name) => "Script "@ + script@ + " attached to player "@ + name@ + "."@,
        _ => "Script "@ + script@ + " attached to "@ + id_text(id) + "."@,
    });
    assert(!(hooks_of(*old(hooks)) matches Some(hs) && hs.contains(hv)));
    assert(updates.pending() == old(updates).pending().push(attach_plan(id, script@, hv.trigger, copy_value(copy_for(id, *old(object), prototype)))));
    m
}

/// Detaching a script: where the target is found and has a hook of the script, its first
/// such hook is removed, the removal stored, and told.
pub open spec fn detach_outcome(script: Seq<char>, target: AttachTarget, resolved: Option<Id>,
    old_hooks: Option<Seq<HookView>>, new_hooks: Option<Seq<HookView>>, old_object: Option<Object>,
    new_object: Option<Object>, prototype: Option<PrototypeId>, old_pending: Seq<Seq<StatementView>>,
    new_pending: Seq<Seq<StatementView>>, old_reloads: Seq<PrototypeId>, new_reloads: Seq<PrototypeId>, msg: Seq<char>) -> bool {
    let unchanged = new_hooks == old_hooks && new_object == old_object && new_pending == old_pending && new_reloads
        == old_reloads;
    match resolved {
        None => unchanged && msg == target_missing_text(target),
        Some(id) => match old_hooks {
            Some(hs) => match first_hook_of(hs, script) {
                Some(k) => {
                    let copy = copy_for(id, old_object, prototype);
                    &&& new_hooks == Some(hs.remove(k))
                    &&& object_after(id, old_object, new_object)
                    &&& new_pending == old_pending.push(detach_plan(id, script, hs[k].trigger, copy_value(copy)))
                    &&& new_reloads == (if let Id::Prototype(p) = id {
                        old_reloads.push(p)
                    } else {
                        old_reloads
                    })
                    &&& msg == match target {
                        AttachTarget::Player(name) => "Detached script "@ + script + " from player "@ + name@ + "."@,
                        _ => "Detached script "@ + script + " from "@ + id_text(id) + "."@,
                    }
                },
                None => unchanged && msg == "Script "@ + script + " not found on target."@,
            },
            None => unchanged && msg == "Script "@ + script + " not found on target."@,
        },
    }
}

/// Detaches a script from its target. `resolved` is the id of the target found (`None`
/// where it is not), `hooks` and `object` the target's hooks and object parts, and
/// `prototype` the object's prototype.
#[verifier::rlimit(40)]
pub fn script_detach_system(script: &ScriptName, target: &AttachTarget, resolved: Option<Id>, hooks: &mut Option<ScriptHooks>,
    object: &mut Option<Object>, prototype: Option<PrototypeId>, updates: &mut Updates) -> (msg: String)
    requires
        !(target matches AttachTarget::Id(Id::Player(_))),
        resolved matches Some(id) ==> resolves(*target, id),
        resolved matches Some(id) && id is Object ==> old(object).is_some(),
        resolved matches Some(id) && id is Object && old(object).unwrap().view_parts().2 ==> prototype is Some,
    ensures
        detach_outcome(script@, *target, resolved, hooks_of(*old(hooks)), hooks_of(*final(hooks)), *old(object),
            *final(object), prototype, old(updates).pending(), final(updates).pending(), old(updates).pending_reloads(),
            final(updates).pending_reloads(), msg@),
{
    let id = match resolved {
        Some(id) => id,
        None => {
            return target_missing(target);
        },
    };
    let removed = match hooks {
        Some(hs) => hs.remove(script),
        None => None,
    };
    let hook = match removed {
        Some(h) => h,
        None => {
            return sentence3("Script ", script.as_str(), " not found on target.");
        },
    };
    let ghost tv = hook.trigger@;
    let copy = stop_inheriting(id, object, prototype);
    updates.persist(Detach::new(id, script.duplicate(), hook.trigger, copy).statements());
    if let Id::Prototype(p) = id {
        updates.reload(p);
    }
    let m = done_message("Detached script ", script, " from ", target, id);
    proof {
        reveal_strlit(" from ");
        reveal_strlit("player ");
        reveal_strlit(" from player ");
        assert(" from "@ + "player "@ =~= " from player "@);
    }
    assert(object_after(id, *old(object), *object));
    assert(m@ == match *target {
        AttachTarget::Player(name) => "Detached script "@ + script@ + " from player "@ + name@ + "."@,
        _ => "Detached script "@ + script@ + " from "@ + id_text(id) + "."@,
    });
    m
}

} // verus!
