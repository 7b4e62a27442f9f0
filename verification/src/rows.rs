use vstd::prelude::*;
use crate::chars::{chars_of, string_from_chars};
use crate::client::EntityId;
use crate::ids::{Id, IdParseError, ObjectId, RoomId};
use crate::object::{all_flag_bits, Keywords, ObjectFlags};
use crate::scripts::{
    ScriptHooks, trigger_event_name, trigger_kind_name, HookView, Script, ScriptHook, ScriptName, ScriptTrigger,
    TriggerEvent, TriggerKind, TriggerView, script_name_valid,
};
use crate::text::strings_view;
use crate::types::{Description, Named};

verus! {

/// The text of `s` split at every comma.
#[verifier::opaque]
pub open spec fn split_commas(s: Seq<char>) -> Seq<Seq<char>>
    decreases s.len(),
{
    if exists|i: int| 0 <= i < s.len() && #[trigger] s[i] == ',' {
        let i = choose|i: int| 0 <= i < s.len() && #[trigger] s[i] == ',' && forall|k: int| 0 <= k < i ==> #[trigger] s[k] != ',';
        if 0 <= i < s.len() {
            seq![s.take(i)] + split_commas(s.skip(i + 1))
        } else {
            seq![s]
        }
    } else {
        seq![s]
    }
}

proof fn lemma_split_at(s: Seq<char>, i: int)
    requires
        0 <= i < s.len(),
        s[i] == ',',
        forall|k: int| 0 <= k < i ==> #[trigger] s[k] != ',',
    ensures
        split_commas(s) == seq![s.take(i)] + split_commas(s.skip(i + 1)),
{
    reveal(split_commas);
    let c = choose|c: int| 0 <= c < s.len() && #[trigger] s[c] == ',' && forall|k: int| 0 <= k < c ==> #[trigger] s[k] != ',';
    assert(s[i] == ',');
    assert(0 <= c < s.len() && s[c] == ',' && forall|k: int| 0 <= k < c ==> #[trigger] s[k] != ',');
    if c < i {
        assert(s[c] != ',');
    }
    if c > i {
        assert(s[i] != ',');
    }
}

proof fn lemma_split_none(s: Seq<char>)
    requires
        forall|k: int| 0 <= k < s.len() ==> #[trigger] s[k] != ',',
    ensures
        split_commas(s) == seq![s],
{
    reveal(split_commas);
}

/// Splits text at every comma.
pub fn split_commas_exec(s: &str) -> (v: Vec<String>)
    ensures
        strings_view(v@) == split_commas(s@),
{
    let c = chars_of(s);
    let n = c.len();
    let mut v: Vec<String> = Vec::new();
    let mut piece: Vec<char> = Vec::new();
    let mut i: usize = 0;
    let mut start: usize = 0;
    proof {
        assert(c@.skip(0) == c@);
    }
    while i < n
        invariant
            c@ == s@,
            n == c.len(),
            start <= i <= n,
            piece@ == c@.subrange(start as int, i as int),
            forall|k: int| start <= k < i ==> #[trigger] c@[k] != ',',
            strings_view(v@) + split_commas(c@.skip(start as int)) == split_commas(s@),
        decreases n - i,
    {
        if c[i] == ',' {
            proof {
                let rest = c@.skip(start as int);
                assert forall|k: int| 0 <= k < i - start implies #[trigger] rest[k] != ',' by {
                    assert(rest[k] == c@[start + k]);
                }
                assert(rest[i - start] == ',');
                lemma_split_at(rest, i - start);
                assert(rest.take(i - start) =~= piece@);
                assert(rest.skip(i - start + 1) =~= c@.skip(i + 1));
            }
            let ghost before = strings_view(v@);
            let ghost pv = piece@;
            v.push(string_from_chars(&piece));
            proof {
                assert(strings_view(v@) =~= before.push(pv));
                let more = split_commas(c@.skip(i + 1));
                assert(before.push(pv) + more =~= before + (seq![pv] + more));
            }
            piece = Vec::new();
            start = i + 1;
        } else {
            piece.push(c[i]);
        }
        i = i + 1;
    }
    proof {
        let rest = c@.skip(start as int);
        assert forall|k: int| 0 <= k < rest.len() implies #[trigger] rest[k] != ',' by {
            assert(rest[k] == c@[start + k]);
        }
        lemma_split_none(rest);
        assert(rest =~= piece@);
    }
    let ghost before = strings_view(v@);
    let ghost pv = piece@;
    v.push(string_from_chars(&piece));
    assert(strings_view(v@) =~= before.push(pv));
    v
}

/// Which stored value could not be read.
#[derive(Debug, Copy, Clone, PartialEq, Eq, Structural)]
pub enum DeserializeError {
    ObjectId,
    ScriptName,
    TriggerKind,
    TriggerEvent,
}

pub open spec fn deserialize_message(e: DeserializeError) -> Seq<char> {
    match e {
        DeserializeError::ObjectId => "object ID"@,
        DeserializeError::ScriptName => "script name"@,
        DeserializeError::TriggerKind => "script trigger kind"@,
        DeserializeError::TriggerEvent => "script trigger event"@,
    }
}

impl DeserializeError {
    pub fn message(&self) -> (s: String)
        ensures
            s@ == deserialize_message(*self),
    {
        match self {
            DeserializeError::ObjectId => "object ID".to_owned(),
            DeserializeError::ScriptName => "script name".to_owned(),
            DeserializeError::TriggerKind => "script trigger kind".to_owned(),
            DeserializeError::TriggerEvent => "script trigger event".to_owned(),
        }
    }
}

/// A stored script hook: its kind, script name and trigger text.
pub struct HookRow {
    pub kind: String,
    pub script: String,
    pub trigger: String,
}

/// The hook a stored row describes. Both event kinds give a trigger that runs after the
/// event; a timer keeps the trigger text as its name.
pub open spec fn hook_of_row(kind: Seq<char>, script: Seq<char>, trigger: Seq<char>) -> Result<HookView, DeserializeError> {
    if !script_name_valid(script) {
        Err(DeserializeError::ScriptName)
    } else if !exists|k: TriggerKind| trigger_kind_name(k) == kind {
        Err(DeserializeError::TriggerKind)
    } else if kind == "Init"@ {
        Ok(HookView { trigger: TriggerView::Init, script })
    } else if kind == "Timer"@ {
        Ok(HookView { trigger: TriggerView::Timer(trigger), script })
    } else if !exists|e: TriggerEvent| trigger_event_name(e) == trigger {
        Err(DeserializeError::TriggerEvent)
    } else {
        Ok(HookView {
            trigger: TriggerView::PostEvent(choose|e: TriggerEvent| trigger_event_name(e) == trigger),
            script,
        })
    }
}

impl HookRow {
    /// The hook this row describes.
    pub fn into_hook(self) -> (r: Result<ScriptHook, DeserializeError>)
        ensures
            match hook_of_row(self.kind@, self.script@, self.trigger@) {
                Ok(h) => r matches Ok(x) && x@ == h,
                Err(e) => r == Err::<ScriptHook, DeserializeError>(e),
            },
    {
        let ghost kv = self.kind@;
        let ghost tv = self.trigger@;
        let script = match ScriptName::try_from_string(self.script) {
            Ok(n) => n,
            Err(_) => return Err(DeserializeError::ScriptName),
        };
        let kind = match TriggerKind::from_name(self.kind.as_str()) {
            Some(k) => k,
            None => return Err(DeserializeError::TriggerKind),
        };
        proof {
            reveal_strlit("Init");
            reveal_strlit("Timer");
            reveal_strlit("PreEvent");
            reveal_strlit("PostEvent");
            if kind is PreEvent || kind is PostEvent {
                assert(kv.len() >= 8);
                assert(kv != "Init"@);
                assert(kv != "Timer"@);
            }
            if kind is Timer {
                assert(kv == "Timer"@);
                assert(kv.len() == 5);
                assert("Init"@.len() == 4);
                assert(kv != "Init"@);
            }
        }
        let trigger = match kind {
            TriggerKind::Init => ScriptTrigger::Init,
            TriggerKind::Timer => ScriptTrigger::Timer(self.trigger),
            TriggerKind::PreEvent | TriggerKind::PostEvent => {
                match TriggerEvent::from_name(self.trigger.as_str()) {
                    Some(e) => {
                        proof {
                            let c = choose|c: TriggerEvent| trigger_event_name(c) == tv;
                            crate::scripts::trigger_event_names_distinct(e, c);
                        }
                        ScriptTrigger::PostEvent(e)
                    },
                    None => return Err(DeserializeError::TriggerEvent),
                }
            },
        };
        Ok(ScriptHook { trigger, script })
    }
}

/// An object: its id, the prototype it was made from, and whether it runs its
/// prototype's scripts.
#[derive(Debug, Copy, Clone, PartialEq, Eq, Structural)]
pub struct Object {
    id: ObjectId,
    prototype: EntityId,
    inherit_scripts: bool,
}

impl Object {
    pub closed spec fn view_parts(&self) -> (ObjectId, EntityId, bool) {
        (self.id, self.prototype, self.inherit_scripts)
    }

    pub fn new(id: ObjectId, prototype: EntityId, inherit_scripts: bool) -> (o: Object)
        ensures
            o.view_parts() == (id, prototype, inherit_scripts),
    {
        Object { id, prototype, inherit_scripts }
    }

    pub fn id(&self) -> (i: ObjectId)
        ensures
            i == self.view_parts().0,
    {
        self.id
    }

    pub fn prototype(&self) -> (p: EntityId)
        ensures
            p == self.view_parts().1,
    {
        self.prototype
    }

    pub fn inherit_scripts(&self) -> (b: bool)
        ensures
            b == self.view_parts().2,
    {
        self.inherit_scripts
    }

    pub fn set_inherit_scripts(&mut self, inherit: bool)
        ensures
            final(self).view_parts() == (old(self).view_parts().0, old(self).view_parts().1, inherit),
    {
        self.inherit_scripts = inherit;
    }
}

/// A stored object, with the fields it does not set taken from its prototype.
pub struct ObjectRow {
    pub id: i64,
    pub prototype_id: i64,
    pub inherit_scripts: bool,
    pub location: Option<i64>,
    pub flags: i64,
    pub name: String,
    pub keywords: String,
    pub description: String,
}

/// The parts an object is made of when it is loaded.
pub struct ObjectParts {
    pub id: Id,
    pub object: Object,
    pub named: Named,
    pub description: Description,
    pub flags: ObjectFlags,
    pub keywords: Keywords,
}

impl ObjectRow {
    /// The keywords, as stored: separated by commas.
    pub fn keywords(&self) -> (v: Vec<String>)
        ensures
            strings_view(v@) == split_commas(self.keywords@),
    {
        split_commas_exec(self.keywords.as_str())
    }

    /// The parts of the object this row describes, made from the given prototype.
    pub fn into_components(self, prototype: EntityId) -> (r: Result<ObjectParts, DeserializeError>)
        ensures
            self.id < 0 ==> r == Err::<ObjectParts, DeserializeError>(DeserializeError::ObjectId),
            self.id >= 0 ==> (r matches Ok(p) && {
                &&& p.id matches Id::Object(oid) && oid.value() == self.id
                &&& p.object.view_parts().0.value() == self.id
                &&& p.object.view_parts().1 == prototype
                &&& p.object.view_parts().2 == self.inherit_scripts
                &&& p.named.view_name() == self.name@
                &&& p.description.view_text() == self.description@
                &&& p.flags.bits() == self.flags & all_flag_bits()
                &&& p.keywords.words() == split_commas(self.keywords@)
            }),
    {
        let id = match ObjectId::try_from_i64(self.id) {
            Ok(id) => id,
            Err(_) => return Err(DeserializeError::ObjectId),
        };
        let keywords = Keywords::from_list(self.keywords());
        Ok(ObjectParts {
            id: Id::Object(id),
            object: Object::new(id, prototype, self.inherit_scripts),
            named: Named::from_string(self.name),
            description: Description::from_string(self.description),
            flags: ObjectFlags::from_i64(self.flags),
            keywords,
        })
    }
}

/// Drops each entity that repeats the one just before it.
pub open spec fn dedup_runs(s: Seq<EntityId>) -> Seq<EntityId>
    decreases s.len(),
{
    if s.len() == 0 {
        s
    } else {
        let d = dedup_runs(s.drop_last());
        if s.len() >= 2 && s[s.len() - 2] == s.last() {
            d
        } else {
            d.push(s.last())
        }
    }
}

/// Drops each entity that repeats the one just before it.
pub fn dedup_entities(v: &Vec<EntityId>) -> (r: Vec<EntityId>)
    ensures
        r@ == dedup_runs(v@),
{
    let mut r: Vec<EntityId> = Vec::new();
    let mut i: usize = 0;
    while i < v.len()
        invariant
            i <= v.len(),
            r@ == dedup_runs(v@.take(i as int)),
        decreases v.len() - i,
    {
        proof {
            assert(v@.take(i + 1).drop_last() =~= v@.take(i as int));
            assert(v@.take(i + 1).last() == v@[i as int]);
            if i >= 1 {
                assert(v@.take(i + 1)[i - 1] == v@[i - 1]);
            }
        }
        if i >= 1 && v[i - 1] == v[i] {
        } else {
            r.push(v[i]);
        }
        i = i + 1;
    }
    assert(v@.take(v.len() as int) =~= v@);
    r
}

/// A stored pairing of a room and an object lying in it.
pub struct RoomObjectRow {
    pub room_id: i64,
    pub object_id: i64,
}

impl RoomObjectRow {
    /// The ids the row holds; both must be non-negative.
    pub fn into_ids(self) -> (r: Result<(RoomId, ObjectId), IdParseError>)
        ensures
            self.room_id < 0 ==> r == Err::<(RoomId, ObjectId), IdParseError>(IdParseError::RoomId),
            self.room_id >= 0 && self.object_id < 0 ==> r == Err::<(RoomId, ObjectId), IdParseError>(IdParseError::ObjectId),
            self.room_id >= 0 && self.object_id >= 0 ==> (r matches Ok((room, object)) && room == RoomId(self.room_id)
                && object.value() == self.object_id),
    {
        if self.room_id < 0 {
            return Err(IdParseError::RoomId);
        }
        match ObjectId::try_from_i64(self.object_id) {
            Ok(object) => Ok((RoomId(self.room_id), object)),
            Err(e) => Err(e),
        }
    }
}

/// A stored prototype.
pub struct PrototypeRow {
    pub id: i64,
    pub flags: i64,
    pub name: String,
    pub keywords: String,
    pub description: String,
}

impl PrototypeRow {
    /// The keywords, as stored: separated by commas.
    pub fn keywords(&self) -> (v: Vec<String>)
        ensures
            strings_view(v@) == split_commas(self.keywords@),
    {
        split_commas_exec(self.keywords.as_str())
    }
}

/// A stored script.
pub struct ScriptRow {
    pub name: String,
    pub trigger: String,
    pub code: String,
}

impl ScriptRow {
    /// The script the row holds: its name must be a valid script name and its trigger the
    /// name of an event.
    pub fn into_script(self) -> (r: Result<Script, DeserializeError>)
        ensures
            !script_name_valid(self.name@) ==> r == Err::<Script, DeserializeError>(DeserializeError::ScriptName),
            script_name_valid(self.name@) && (forall|t: TriggerEvent| trigger_event_name(t) != self.trigger@) ==> r
                == Err::<Script, DeserializeError>(DeserializeError::TriggerEvent),
            script_name_valid(self.name@) && (exists|t: TriggerEvent| trigger_event_name(t) == self.trigger@) ==> (r matches Ok(
                sc,
            ) && sc@.name == self.name@ && trigger_event_name(sc@.trigger) == self.trigger@ && sc@.code == self.code@),
    {
        let ghost nv = self.name@;
        let name = match ScriptName::try_from_string(self.name) {
            Ok(n) => n,
            Err(_) => {
                return Err(DeserializeError::ScriptName);
            },
        };
        let trigger = match TriggerEvent::from_name(self.trigger.as_str()) {
            Some(t) => t,
            None => {
                return Err(DeserializeError::TriggerEvent);
            },
        };
        Ok(Script::new(name, trigger, self.code))
    }
}

/// The hooks of stored rows, in order, up to the first row that does not read, and the
/// error of that row.
pub open spec fn rows_hooks(rows: Seq<HookRow>) -> (Seq<HookView>, Option<DeserializeError>)
    decreases rows.len(),
{
    if rows.len() == 0 {
        (seq![], None)
    } else {
        let (v, e) = rows_hooks(rows.drop_last());
        if e is Some {
            (v, e)
        } else {
            let r = rows.last();
            match hook_of_row(r.kind@, r.script@, r.trigger@) {
                Ok(h) => (v.push(h), None),
                Err(x) => (v, Some(x)),
            }
        }
    }
}

/// Hooks as plain values, none at all being no hooks.
pub open spec fn hooks_opt(h: Option<ScriptHooks>) -> Seq<HookView> {
    match h {
        Some(x) => x.hooks_seq(),
        None => seq![],
    }
}

fn copy_row(r: &HookRow) -> (c: HookRow)
    ensures
        c.kind@ == r.kind@ && c.script@ == r.script@ && c.trigger@ == r.trigger@,
{
    HookRow {
        kind: crate::client::owned(r.kind.as_str()),
        script: crate::client::owned(r.script.as_str()),
        trigger: crate::client::owned(r.trigger.as_str()),
    }
}

/// The script hooks of an object when its prototype is reloaded. An object that does not
/// inherit its prototype's scripts keeps its hooks. One that does gets the prototype's
/// stored hooks, one by one, until a row does not read (its error is returned too): an
/// object in a room starts over with none, and one that a player holds adds them to the
/// hooks it has.
pub fn reload_object_hooks(existing: Option<ScriptHooks>, held_by_player: bool, inherit_scripts: bool,
    rows: &Vec<HookRow>) -> (r: (Option<ScriptHooks>, Option<DeserializeError>))
    ensures
        !inherit_scripts ==> hooks_opt(r.0) == hooks_opt(existing) && (r.0 is None <==> existing is None) && r.1 is None,
        inherit_scripts ==> {
            let base = if held_by_player { existing } else { None };
            let (v, e) = rows_hooks(rows@);
            &&& hooks_opt(r.0) == hooks_opt(base) + v
            &&& (r.0 is None <==> (base is None && v.len() == 0))
            &&& r.1 == e
        },
{
    if !inherit_scripts {
        return (existing, None);
    }
    let ghost ex = existing;
    let mut hooks = if held_by_player { existing } else { None };
    let ghost base = hooks_opt(hooks);
    let ghost base_none = hooks is None;
    let mut i: usize = 0;
    proof {
        assert(rows@.take(0) =~= Seq::<HookRow>::empty());
        assert(base + Seq::<HookView>::empty() =~= base);
    }
    while i < rows.len()
        invariant
            inherit_scripts,
            ex == existing,
            base == hooks_opt(if held_by_player { ex } else { None }),
            base_none == (if held_by_player { ex is None } else { true }),
            i <= rows.len(),
            rows_hooks(rows@.take(i as int)).1 is None,
            hooks_opt(hooks) == base + rows_hooks(rows@.take(i as int)).0,
            hooks is None <==> (base_none && rows_hooks(rows@.take(i as int)).0.len() == 0),
        decreases rows.len() - i,
    {
        let ghost prev = rows_hooks(rows@.take(i as int));
        assert(rows@.take(i + 1).drop_last() =~= rows@.take(i as int));
        assert(rows@.take(i + 1).last() == rows@[i as int]);
        let row = copy_row(&rows[i]);
        match row.into_hook() {
            Ok(h) => {
                let ghost hv = h@;
                match hooks {
                    Some(ref mut x) => {
                        x.insert(h);
                    },
                    None => {
                        hooks = Some(ScriptHooks::new(h));
                    },
                }
                proof {
                    assert(base + prev.0.push(hv) =~= (base + prev.0).push(hv));
                }
            },
            Err(e) => {
                proof {
                    assert(rows_hooks(rows@.take(i + 1)) == (prev.0, Some(e)));
                    lemma_rows_hooks_stop(rows@, i as int + 1);
                    assert(rows_hooks(rows@) == (prev.0, Some(e)));
                    assert(hooks_opt(hooks) == base + prev.0);
                }
                return (hooks, Some(e));
            },
        }
        i = i + 1;
    }
    assert(rows@.take(rows.len() as int) =~= rows@);
    (hooks, None)
}

proof fn lemma_rows_hooks_stop(rows: Seq<HookRow>, n: int)
    requires
        0 <= n <= rows.len(),
        rows_hooks(rows.take(n)).1 is Some,
    ensures
        rows_hooks(rows) == rows_hooks(rows.take(n)),
    decreases rows.len() - n,
{
    if n < rows.len() {
        assert(rows.take(n + 1).drop_last() =~= rows.take(n));
        lemma_rows_hooks_stop(rows, n + 1);
    } else {
        assert(rows.take(n) =~= rows);
    }
}

} // verus!
