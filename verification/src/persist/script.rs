use vstd::prelude::*;
use crate::chars::{i64_to_string, signed_decimal};
use crate::ids::{Id, PrototypeId};
use crate::persist::{
    four_binds, one_bind, push_statement, statement, statements_view, three_binds, BindValue,
    BindView, Statement, StatementView,
};
use crate::scripts::{
    trigger_kind_name, trigger_view_kind, trigger_view_text, ScriptName, ScriptTrigger, TriggerView,
};

verus! {

/// Stores a new script.
pub struct Create {
    name: String,
    trigger: String,
    code: String,
}

impl Create {
    pub closed spec fn view_parts(&self) -> (Seq<char>, Seq<char>, Seq<char>) {
        (self.name@, self.trigger@, self.code@)
    }

    pub fn new(name: String, trigger: String, code: String) -> (c: Box<Create>)
        ensures
            c.view_parts() == (name@, trigger@, code@),
    {
        Box::new(Create { name, trigger, code })
    }

    pub fn statements(&self) -> (v: Vec<Statement>)
        ensures
            statements_view(v@) == seq![StatementView {
                sql: "INSERT INTO scripts (name, trigger, code) VALUES (?, ?, ?)"@,
                binds: seq![
                    BindView::Text(self.view_parts().0),
                    BindView::Text(self.view_parts().1),
                    BindView::Text(self.view_parts().2),
                ],
            }],
    {
        let mut v: Vec<Statement> = Vec::new();
        push_statement(&mut v, statement(
            "INSERT INTO scripts (name, trigger, code) VALUES (?, ?, ?)",
            three_binds(
                BindValue::Text(self.name.clone()),
                BindValue::Text(self.trigger.clone()),
                BindValue::Text(self.code.clone()),
            ),
        ));
        v
    }
}

/// Replaces the trigger and code of a stored script.
pub struct Update {
    name: String,
    trigger: String,
    code: String,
}

impl Update {
    pub closed spec fn view_parts(&self) -> (Seq<char>, Seq<char>, Seq<char>) {
        (self.name@, self.trigger@, self.code@)
    }

    pub fn new(name: String, trigger: String, code: String) -> (u: Box<Update>)
        ensures
            u.view_parts() == (name@, trigger@, code@),
    {
        Box::new(Update { name, trigger, code })
    }

    pub fn statements(&self) -> (v: Vec<Statement>)
        ensures
            statements_view(v@) == seq![StatementView {
                sql: "UPDATE scripts SET trigger = ?, code = ? WHERE name = ?"@,
                binds: seq![
                    BindView::Text(self.view_parts().1),
                    BindView::Text(self.view_parts().2),
                    BindView::Text(self.view_parts().0),
                ],
            }],
    {
        let mut v: Vec<Statement> = Vec::new();
        push_statement(&mut v, statement(
            "UPDATE scripts SET trigger = ?, code = ? WHERE name = ?",
            three_binds(
                BindValue::Text(self.trigger.clone()),
                BindValue::Text(self.code.clone()),
                BindValue::Text(self.name.clone()),
            ),
        ));
        v
    }
}

/// Deletes a stored script.
pub struct Remove {
    name: String,
}

impl Remove {
    pub closed spec fn view_name(&self) -> Seq<char> {
        self.name@
    }

    pub fn new(name: String) -> (r: Box<Remove>)
        ensures
            r.view_name() == name@,
    {
        Box::new(Remove { name })
    }

    pub fn statements(&self) -> (v: Vec<Statement>)
        ensures
            statements_view(v@) == seq![StatementView {
                sql: "DELETE FROM scripts WHERE name = ?"@,
                binds: seq![BindView::Text(self.view_name())],
            }],
    {
        let mut v: Vec<Statement> = Vec::new();
        push_statement(&mut v, statement(
            "DELETE FROM scripts WHERE name = ?",
            one_bind(BindValue::Text(self.name.clone())),
        ));
        v
    }
}

/// The four values that identify a hook in a script table: the owner's id, the trigger's
/// kind, the script's name and the trigger's text.
pub open spec fn hook_binds(owner: i64, script: Seq<char>, trigger: TriggerView) -> Seq<BindView> {
    seq![
        BindView::Text(signed_decimal(owner as int)),
        BindView::Text(trigger_kind_name(trigger_view_kind(trigger))),
        BindView::Text(script),
        BindView::Text(trigger_view_text(trigger)),
    ]
}

/// The statements that copy a prototype's hooks to an object before the object's own hooks
/// change, and mark the object as no longer inheriting them.
pub open spec fn copy_hooks(object: i64, copy: Option<i64>) -> Seq<StatementView> {
    match copy {
        Some(prototype) => seq![
            StatementView {
                sql: "INSERT INTO object_scripts SELECT * FROM prototype_scripts WHERE prototype_scripts.prototype_id = ?"@,
                binds: seq![BindView::Int(prototype)],
            },
            StatementView {
                sql: "UPDATE objects SET inherit_scripts = false WHERE id = ?"@,
                binds: seq![BindView::Int(object)],
            },
        ],
        None => Seq::empty(),
    }
}

/// The statements that attach a script to a player, prototype, object or room.
pub open spec fn attach_plan(target: Id, script: Seq<char>, trigger: TriggerView, copy: Option<i64>) -> Seq<StatementView> {
    match target {
        Id::Player(id) => seq![StatementView {
            sql: "INSERT INTO player_scripts (player_id, kind, script, trigger) VALUES (?, ?, ?, ?)"@,
            binds: hook_binds(id.0, script, trigger),
        }],
        Id::Prototype(id) => seq![StatementView {
            sql: "INSERT INTO prototype_scripts (prototype_id, kind, script, trigger) VALUES (?, ?, ?, ?)"@,
            binds: hook_binds(id.value(), script, trigger),
        }],
        Id::Object(id) => copy_hooks(id.value(), copy).push(StatementView {
            sql: "INSERT INTO object_scripts (object_id, kind, script, trigger) VALUES (?, ?, ?, ?)"@,
            binds: hook_binds(id.value(), script, trigger),
        }),
        Id::Room(id) => seq![StatementView {
            sql: "INSERT INTO room_scripts (room_id, kind, script, trigger) VALUES (?, ?, ?, ?)"@,
            binds: hook_binds(id.0, script, trigger),
        }],
    }
}

/// The statements that detach a script from a player, prototype, object or room.
pub open spec fn detach_plan(target: Id, script: Seq<char>, trigger: TriggerView, copy: Option<i64>) -> Seq<StatementView> {
    match target {
        Id::Player(id) => seq![StatementView {
            sql: "DELETE FROM player_scripts WHERE player_id = ? AND kind = ? AND script = ? AND trigger = ?"@,
            binds: hook_binds(id.0, script, trigger),
        }],
        Id::Prototype(id) => seq![StatementView {
            sql: "DELETE FROM prototype_scripts WHERE prototype_id = ? AND kind = ? AND script = ? AND trigger = ?"@,
            binds: hook_binds(id.value(), script, trigger),
        }],
        Id::Object(id) => copy_hooks(id.value(), copy).push(StatementView {
            sql: "DELETE FROM object_scripts WHERE object_id = ? AND kind = ? AND script = ? AND trigger = ?"@,
            binds: hook_binds(id.value(), script, trigger),
        }),
        Id::Room(id) => seq![StatementView {
            sql: "DELETE FROM room_scripts WHERE room_id = ? AND kind = ? AND script = ? AND trigger = ?"@,
            binds: hook_binds(id.0, script, trigger),
        }],
    }
}

pub open spec fn copy_value(copy: Option<PrototypeId>) -> Option<i64> {
    match copy {
        Some(p) => Some(p.value()),
        None => None,
    }
}

/// The owner's number within its table.
fn owner_number(target: Id) -> (n: i64)
    ensures
        n == match target {
            Id::Player(id) => id.0,
            Id::Prototype(id) => id.value(),
            Id::Object(id) => id.value(),
            Id::Room(id) => id.0,
        },
{
    match target {
        Id::Player(id) => id.0,
        Id::Prototype(id) => id.get(),
        Id::Object(id) => id.get(),
        Id::Room(id) => id.0,
    }
}

fn hook_values(owner: i64, script: &ScriptName, trigger: &ScriptTrigger) -> (v: Vec<BindValue>)
    ensures
        crate::persist::binds_view(v@) == hook_binds(owner, script@, trigger@),
{
    four_binds(
        BindValue::Text(i64_to_string(owner)),
        BindValue::Text(trigger.kind().name()),
        BindValue::Text(script.as_str().to_owned()),
        BindValue::Text(trigger.text()),
    )
}

/// Appends the statements that copy a prototype's hooks to an object.
fn push_copy_hooks(v: &mut Vec<Statement>, object: i64, copy: Option<PrototypeId>)
    ensures
        statements_view(final(v)@) == statements_view(old(v)@) + copy_hooks(object, copy_value(copy)),
{
    if let Some(prototype) = copy {
        push_statement(v, statement(
            "INSERT INTO object_scripts SELECT * FROM prototype_scripts WHERE prototype_scripts.prototype_id = ?",
            one_bind(BindValue::Int(prototype.get())),
        ));
        push_statement(v, statement(
            "UPDATE objects SET inherit_scripts = false WHERE id = ?",
            one_bind(BindValue::Int(object)),
        ));
    }
    assert(statements_view(v@) =~= statements_view(old(v)@) + copy_hooks(object, copy_value(copy)));
}

/// Hooks a script to a player, prototype, object or room. For an object that still
/// inherits its prototype's hooks, `copy` names that prototype.
pub struct Attach {
    target: Id,
    script: ScriptName,
    trigger: ScriptTrigger,
    copy: Option<PrototypeId>,
}

impl Attach {
    pub closed spec fn target(&self) -> Id {
        self.target
    }

    pub closed spec fn script(&self) -> Seq<char> {
        self.script@
    }

    pub closed spec fn trigger(&self) -> TriggerView {
        self.trigger@
    }

    pub closed spec fn copy(&self) -> Option<PrototypeId> {
        self.copy
    }

    pub fn new(target: Id, script: ScriptName, trigger: ScriptTrigger, copy: Option<PrototypeId>) -> (a: Box<Attach>)
        ensures
            a.target() == target,
            a.script() == script@,
            a.trigger() == trigger@,
            a.copy() == copy,
    {
        Box::new(Attach { target, script, trigger, copy })
    }

    /// The statements that store the hook, in the order they run.
    pub fn statements(&self) -> (v: Vec<Statement>)
        ensures
            statements_view(v@) == attach_plan(self.target(), self.script(), self.trigger(), copy_value(self.copy())),
    {
        let owner = owner_number(self.target);
        let mut v: Vec<Statement> = Vec::new();
        let sql = match self.target {
            Id::Player(_) => "INSERT INTO player_scripts (player_id, kind, script, trigger) VALUES (?, ?, ?, ?)",
            Id::Prototype(_) => "INSERT INTO prototype_scripts (prototype_id, kind, script, trigger) VALUES (?, ?, ?, ?)",
            Id::Object(_) => {
                push_copy_hooks(&mut v, owner, self.copy);
                "INSERT INTO object_scripts (object_id, kind, script, trigger) VALUES (?, ?, ?, ?)"
            },
            Id::Room(_) => "INSERT INTO room_scripts (room_id, kind, script, trigger) VALUES (?, ?, ?, ?)",
        };
        push_statement(&mut v, statement(sql, hook_values(owner, &self.script, &self.trigger)));
        proof {
            if !(self.target is Object) {
                assert(statements_view(v@) =~= attach_plan(self.target(), self.script(), self.trigger(), copy_value(self.copy())));
            }
        }
        v
    }
}

/// Unhooks a script from a player, prototype, object or room. For an object that still
/// inherits its prototype's hooks, `copy` names that prototype.
pub struct Detach {
    target: Id,
    script: ScriptName,
    trigger: ScriptTrigger,
    copy: Option<PrototypeId>,
}

impl Detach {
    pub closed spec fn target(&self) -> Id {
        self.target
    }

    pub closed spec fn script(&self) -> Seq<char> {
        self.script@
    }

    pub closed spec fn trigger(&self) -> TriggerView {
        self.trigger@
    }

    pub closed spec fn copy(&self) -> Option<PrototypeId> {
        self.copy
    }

    pub fn new(target: Id, script: ScriptName, trigger: ScriptTrigger, copy: Option<PrototypeId>) -> (d: Box<Detach>)
        ensures
            d.target() == target,
            d.script() == script@,
            d.trigger() == trigger@,
            d.copy() == copy,
    {
        Box::new(Detach { target, script, trigger, copy })
    }

    /// The statements that remove the hook, in the order they run.
    pub fn statements(&self) -> (v: Vec<Statement>)
        ensures
            statements_view(v@) == detach_plan(self.target(), self.script(), self.trigger(), copy_value(self.copy())),
    {
        let owner = owner_number(self.target);
        let mut v: Vec<Statement> = Vec::new();
        let sql = match self.target {
            Id::Player(_) => "DELETE FROM player_scripts WHERE player_id = ? AND kind = ? AND script = ? AND trigger = ?",
            Id::Prototype(_) => "DELETE FROM prototype_scripts WHERE prototype_id = ? AND kind = ? AND script = ? AND trigger = ?",
            Id::Object(_) => {
                push_copy_hooks(&mut v, owner, self.copy);
                "DELETE FROM object_scripts WHERE object_id = ? AND kind = ? AND script = ? AND trigger = ?"
            },
            Id::Room(_) => "DELETE FROM room_scripts WHERE room_id = ? AND kind = ? AND script = ? AND trigger = ?",
        };
        push_statement(&mut v, statement(sql, hook_values(owner, &self.script, &self.trigger)));
        proof {
            if !(self.target is Object) {
                assert(statements_view(v@) =~= detach_plan(self.target(), self.script(), self.trigger(), copy_value(self.copy())));
            }
        }
        v
    }
}

} // verus!
