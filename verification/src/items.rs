use vstd::prelude::*;
use crate::chars::{i64_to_string, push_str, signed_decimal, string_from_chars};
use crate::client::EntityId;
use crate::ids::{Id, ObjectId, Objects, PlayerId, RoomId};
use crate::object::{Flags, InheritableFields, Keywords, ObjectFlags};
use crate::persist::object::inherit_plan;
use crate::rows::Object;
use crate::scripts::{HookView, ScriptHooks};
use crate::persist::{BindView, StatementView, Updates};
use crate::text::{join, join_words, strings_view};
use crate::types::{first_index, Contents, Description, Named};

verus! {

broadcast use vstd::seq_lib::group_to_multiset_ensures;

/// What the object systems read of one object: its entity, id, name, keywords and flags.
pub struct ObjectRecord {
    pub entity: EntityId,
    pub id: ObjectId,
    pub name: String,
    pub keywords: Keywords,
    pub flags: Flags,
}

/// The index of the first record of an entity; the number of records where there is none.
pub open spec fn record_position(records: Seq<ObjectRecord>, e: EntityId) -> int
    decreases records.len(),
{
    if records.len() == 0 {
        0
    } else if records[0].entity == e {
        0
    } else {
        1 + record_position(records.drop_first(), e)
    }
}

/// Whether an entity is an object with every one of the words among its keywords.
pub open spec fn object_matches(records: Seq<ObjectRecord>, e: EntityId, words: Seq<Seq<char>>) -> bool {
    let k = record_position(records, e);
    &&& k < records.len()
    &&& forall|j: int| 0 <= j < words.len() ==> records[k].keywords.words().contains(#[trigger] words[j])
}

/// The first entity of a list of contents that matches the words.
pub open spec fn matching_object(contents: Seq<EntityId>, records: Seq<ObjectRecord>, words: Seq<Seq<char>>) -> Option<EntityId>
    decreases contents.len(),
{
    if contents.len() == 0 {
        None
    } else if object_matches(records, contents[0], words) {
        Some(contents[0])
    } else {
        matching_object(contents.drop_first(), records, words)
    }
}

/// The player an id names, where it names one.
pub open spec fn player_of(me: Id) -> PlayerId {
    match me {
        Id::Player(p) => p,
        _ => PlayerId(0),
    }
}

/// The stored change: a player carries an object.
pub open spec fn carried(p: PlayerId, o: ObjectId) -> Seq<StatementView> {
    seq![StatementView {
        sql: "INSERT INTO player_objects (player_id, object_id) VALUES (?, ?)"@,
        binds: seq![BindView::Int(p.0), BindView::Int(o.value())],
    }]
}

/// The stored change: a player no longer carries an object.
pub open spec fn uncarried(p: PlayerId, o: ObjectId) -> Seq<StatementView> {
    seq![StatementView {
        sql: "DELETE FROM player_objects WHERE player_id = ? AND object_id = ?"@,
        binds: seq![BindView::Int(p.0), BindView::Int(o.value())],
    }]
}

/// The stored change: an object lies in a room.
pub open spec fn in_room(r: RoomId, o: ObjectId) -> Seq<StatementView> {
    seq![StatementView {
        sql: "INSERT INTO room_objects (room_id, object_id) VALUES (?, ?)"@,
        binds: seq![BindView::Int(r.0), BindView::Int(o.value())],
    }]
}

/// The stored change: an object no longer lies in a room.
pub open spec fn out_of_room(r: RoomId, o: ObjectId) -> Seq<StatementView> {
    seq![StatementView {
        sql: "DELETE FROM room_objects WHERE room_id = ? AND object_id = ?"@,
        binds: seq![BindView::Int(r.0), BindView::Int(o.value())],
    }]
}

/// The stored change: an object is deleted.
pub open spec fn deleted(o: ObjectId) -> Seq<StatementView> {
    seq![StatementView { sql: "DELETE FROM objects WHERE id = ?"@, binds: seq![BindView::Int(o.value())] }]
}

/// Whether getting with these words moves an object: one matches and it is not fixed.
pub open spec fn picks_up(room: Seq<EntityId>, records: Seq<ObjectRecord>, words: Seq<Seq<char>>) -> bool {
    match matching_object(room, records, words) {
        Some(e) => records[record_position(records, e)].flags.bits & 1 != 1,
        None => false,
    }
}

/// What getting an object does: the first object in the room whose keywords hold all the
/// words moves to the taker, unless it is fixed; the change is stored and told.
pub open spec fn get_outcome(me: Id, room_id: RoomId, records: Seq<ObjectRecord>, words: Seq<Seq<char>>,
    mine0: Seq<EntityId>, mine1: Seq<EntityId>, room0: Seq<EntityId>, room1: Seq<EntityId>,
    p0: Seq<Seq<StatementView>>, p1: Seq<Seq<StatementView>>, r: (String, Option<EntityId>)) -> bool {
    match matching_object(room0, records, words) {
        None => {
            &&& r.0@ == "You find no object called \""@ + join(words, " "@) + "\" to pick up."@
            &&& r.1 is None
            &&& mine1 == mine0 && room1 == room0 && p1 == p0
        },
        Some(e) => {
            let rec = records[record_position(records, e)];
            if rec.flags.bits & 1 == 1 {
                &&& r.0@ == "Try as you might, you cannot pick up "@ + rec.name@ + "."@
                &&& r.1 is None
                &&& mine1 == mine0 && room1 == room0 && p1 == p0
            } else {
                &&& r.0@ == "You pick up "@ + rec.name@ + "."@
                &&& r.1 == Some(e)
                &&& room1 == room0.remove(first_index(room0, e))
                &&& mine1 == mine0.push(e)
                &&& p1 == p0.push(carried(player_of(me), rec.id)).push(out_of_room(room_id, rec.id))
            }
        },
    }
}

/// What dropping an object does: the first carried object whose keywords hold all the words
/// moves to the room; the change is stored and told.
pub open spec fn drop_outcome(me: Id, room_id: RoomId, records: Seq<ObjectRecord>, words: Seq<Seq<char>>,
    mine0: Seq<EntityId>, mine1: Seq<EntityId>, room0: Seq<EntityId>, room1: Seq<EntityId>,
    p0: Seq<Seq<StatementView>>, p1: Seq<Seq<StatementView>>, r: (String, Option<EntityId>)) -> bool {
    match matching_object(mine0, records, words) {
        None => {
            &&& r.0@ == "You don't have \""@ + join(words, " "@) + "\"."@
            &&& r.1 is None
            &&& mine1 == mine0 && room1 == room0 && p1 == p0
        },
        Some(e) => {
            let rec = records[record_position(records, e)];
            &&& r.0@ == "You drop "@ + rec.name@ + "."@
            &&& r.1 == Some(e)
            &&& mine1 == mine0.remove(first_index(mine0, e))
            &&& room1 == room0.push(e)
            &&& p1 == p0.push(uncarried(player_of(me), rec.id)).push(in_room(room_id, rec.id))
        },
    }
}

/// What removing an object does: where the id is known, its entity leaves the objects and
/// the contents that hold it, and the object is deleted from storage.
pub open spec fn remove_outcome(id: ObjectId, e0: Map<i64, EntityId>, e1: Map<i64, EntityId>,
    place0: Seq<EntityId>, place1: Seq<EntityId>, p0: Seq<Seq<StatementView>>, p1: Seq<Seq<StatementView>>,
    r: (String, Option<EntityId>)) -> bool {
    let n = signed_decimal(id.value() as int);
    if e0.contains_key(id.value()) {
        let e = e0[id.value()];
        &&& r.0@ == "Removed object "@ + n + "."@
        &&& r.1 == Some(e)
        &&& e1 == e0.remove(id.value())
        &&& place1 == (if place0.contains(e) { place0.remove(first_index(place0, e)) } else { place0 })
        &&& p1 == p0.push(deleted(id))
    } else {
        &&& r.0@ == "Object "@ + n + " not found."@
        &&& r.1 is None
        &&& e1 == e0 && place1 == place0 && p1 == p0
    }
}

fn sentence(a: &str, b: &str, c: &str) -> (s: String)
    ensures
        s@ == a@ + b@ + c@,
{
    let mut out: Vec<char> = Vec::new();
    push_str(&mut out, a);
    push_str(&mut out, b);
    push_str(&mut out, c);
    string_from_chars(&out)
}

/// The index of the first record of an entity.
fn record_index(records: &Vec<ObjectRecord>, e: EntityId) -> (r: Option<usize>)
    ensures
        match r {
            Some(k) => k == record_position(records@, e) && k < records.len(),
            None => record_position(records@, e) == records.len(),
        },
{
    let mut i: usize = 0;
    proof {
        assert(records@.subrange(0, records@.len() as int) == records@);
    }
    while i < records.len()
        invariant
            i <= records.len(),
            record_position(records@.subrange(i as int, records@.len() as int), e) + i == record_position(records@, e),
        decreases records.len() - i,
    {
        let ghost t = records@.subrange(i as int, records@.len() as int);
        if records[i].entity == e {
            assert(t[0] == records@[i as int]);
            return Some(i);
        }
        assert(t.drop_first() == records@.subrange(i + 1, records@.len() as int));
        i = i + 1;
    }
    assert(records@.subrange(i as int, records@.len() as int).len() == 0);
    None
}

/// The first object of the contents that matches the words, with the index of its record.
fn find_matching(contents: &Contents, records: &Vec<ObjectRecord>, words: &Vec<String>) -> (r: Option<(EntityId, usize)>)
    ensures
        match r {
            Some((e, k)) => matching_object(contents.view_objects(), records@, strings_view(words@)) == Some(e)
                && k == record_position(records@, e) && k < records.len(),
            None => matching_object(contents.view_objects(), records@, strings_view(words@)) is None,
        },
{
    let ghost s = contents.view_objects();
    let ghost ws = strings_view(words@);
    let n = contents.len();
    let mut i: usize = 0;
    proof {
        assert(s.subrange(0, s.len() as int) == s);
    }
    while i < n
        invariant
            n == s.len(),
            s == contents.view_objects(),
            ws == strings_view(words@),
            i <= n,
            matching_object(s.subrange(i as int, s.len() as int), records@, ws) == matching_object(s, records@, ws),
        decreases n - i,
    {
        let e = contents.get(i);
        let ghost t = s.subrange(i as int, s.len() as int);
        assert(t[0] == e);
        assert(t.drop_first() == s.subrange(i + 1, s.len() as int));
        match record_index(records, e) {
            Some(k) => {
                let slice = words.as_slice();
                let all = records[k].keywords.contains_all(slice);
                proof {
                    assert(slice@ == words@);
                    if all {
                        assert forall|j: int| 0 <= j < ws.len() implies records@[k as int].keywords.words().contains(#[trigger] ws[j]) by {
                            assert(ws[j] == words@[j]@);
                        }
                    } else {
                        let j = choose|j: int| 0 <= j < slice@.len() && !records@[k as int].keywords.words().contains(#[trigger] slice@[j]@);
                        assert(ws[j] == words@[j]@);
                    }
                }
                if all {
                    return Some((e, k));
                }
            },
            None => {},
        }
        i = i + 1;
    }
    assert(s.subrange(i as int, s.len() as int).len() == 0);
    None
}

/// Picks up the first object in the room that answers to all the keywords. `me` is the taker's
/// stored id and `_actor` its entity, where the caller places the object.
pub fn get_system(_actor: EntityId, me: Id, mine: &mut Contents, room_id: RoomId, room: &mut Contents,
    records: &Vec<ObjectRecord>, keywords: &Vec<String>, updates: &mut Updates) -> (r: (String, Option<EntityId>))
    requires
        picks_up(old(room).view_objects(), records@, strings_view(keywords@)) ==> me is Player,
    ensures
        get_outcome(me, room_id, records@, strings_view(keywords@), old(mine).view_objects(), final(mine).view_objects(),
            old(room).view_objects(), final(room).view_objects(), old(updates).pending(), final(updates).pending(), r),
{
    match find_matching(room, records, keywords) {
        None => {
            let text = join_words(keywords, " ");
            (sentence("You find no object called \"", text.as_str(), "\" to pick up."), None)
        },
        Some((e, k)) => {
            let rec = &records[k];
            if rec.flags.contains(Flags::fixed()) {
                (sentence("Try as you might, you cannot pick up ", rec.name.as_str(), "."), None)
            } else {
                proof {
                    matching_is_held(room.view_objects(), records@, strings_view(keywords@));
                }
                room.remove(e);
                mine.insert(e);
                if let Id::Player(p) = me {
                    updates.persist(crate::persist::player::AddObject::new(p, rec.id).statements());
                }
                updates.persist(crate::persist::room::RemoveObject::new(room_id, rec.id).statements());
                (sentence("You pick up ", rec.name.as_str(), "."), Some(e))
            }
        },
    }
}

/// Drops the first carried object that answers to all the keywords into the room.
pub fn drop_system(me: Id, mine: &mut Contents, room_id: RoomId, room: &mut Contents,
    records: &Vec<ObjectRecord>, keywords: &Vec<String>, updates: &mut Updates) -> (r: (String, Option<EntityId>))
    requires
        matching_object(old(mine).view_objects(), records@, strings_view(keywords@)) is Some ==> me is Player,
    ensures
        drop_outcome(me, room_id, records@, strings_view(keywords@), old(mine).view_objects(), final(mine).view_objects(),
            old(room).view_objects(), final(room).view_objects(), old(updates).pending(), final(updates).pending(), r),
{
    match find_matching(mine, records, keywords) {
        None => {
            let text = join_words(keywords, " ");
            (sentence("You don't have \"", text.as_str(), "\"."), None)
        },
        Some((e, k)) => {
            let rec = &records[k];
            proof {
                matching_is_held(mine.view_objects(), records@, strings_view(keywords@));
            }
            mine.remove(e);
            room.insert(e);
            if let Id::Player(p) = me {
                updates.persist(crate::persist::player::RemoveObject::new(p, rec.id).statements());
            }
            updates.persist(crate::persist::room::AddObject::new(room_id, rec.id).statements());
            (sentence("You drop ", rec.name.as_str(), "."), Some(e))
        },
    }
}

/// Removes an object; `place` is the contents of where the object is.
pub fn object_remove_system(id: ObjectId, objects: &mut Objects, place: &mut Contents, updates: &mut Updates) -> (r: (String, Option<EntityId>))
    ensures
        remove_outcome(id, old(objects).entities(), final(objects).entities(), old(place).view_objects(),
            final(place).view_objects(), old(updates).pending(), final(updates).pending(), r),
        final(objects).highest() == old(objects).highest(),
{
    let number = i64_to_string(id.get());
    match objects.by_id(id) {
        None => (sentence("Object ", number.as_str(), " not found."), None),
        Some(e) => {
            objects.remove(id);
            place.remove(e);
            updates.persist(crate::persist::object::Remove::new(id).statements());
            (sentence("Removed object ", number.as_str(), "."), Some(e))
        },
    }
}

proof fn first_index_finds(s: Seq<EntityId>, e: EntityId)
    requires
        s.contains(e),
    ensures
        0 <= first_index(s, e) < s.len(),
        s[first_index(s, e)] == e,
    decreases s.len(),
{
    if s[0] != e {
        let k = choose|k: int| 0 <= k < s.len() && s[k] == e;
        assert(s.drop_first()[k - 1] == e);
        first_index_finds(s.drop_first(), e);
    }
}

proof fn matching_is_held(s: Seq<EntityId>, records: Seq<ObjectRecord>, words: Seq<Seq<char>>)
    ensures
        matching_object(s, records, words) matches Some(e) ==> s.contains(e),
    decreases s.len(),
{
    if s.len() > 0 && !object_matches(records, s[0], words) {
        matching_is_held(s.drop_first(), records, words);
        if let Some(e) = matching_object(s, records, words) {
            let k = choose|k: int| 0 <= k < s.drop_first().len() && s.drop_first()[k] == e;
            assert(s[k + 1] == e);
        }
    } else if s.len() > 0 {
        assert(s[0] == s[0]);
    }
}

proof fn moving_keeps(from0: Seq<EntityId>, to0: Seq<EntityId>, e: EntityId)
    requires
        from0.contains(e),
    ensures
        from0.remove(first_index(from0, e)).to_multiset().add(to0.push(e).to_multiset())
            == from0.to_multiset().add(to0.to_multiset()),
{
    broadcast use vstd::multiset::group_multiset_axioms;
    first_index_finds(from0, e);
    vstd::seq_lib::to_multiset_remove(from0, first_index(from0, e));
    vstd::seq_lib::to_multiset_build(to0, e);
    assert(from0.to_multiset().count(e) > 0);
    assert(from0.remove(first_index(from0, e)).to_multiset().add(to0.push(e).to_multiset())
        =~= from0.to_multiset().add(to0.to_multiset()));
}

/// Getting an object loses none and makes none: the taker's and the room's objects together
/// are the same before and after.
pub proof fn getting_keeps_objects(me: Id, room_id: RoomId, records: Seq<ObjectRecord>, words: Seq<Seq<char>>,
    mine0: Seq<EntityId>, mine1: Seq<EntityId>, room0: Seq<EntityId>, room1: Seq<EntityId>,
    p0: Seq<Seq<StatementView>>, p1: Seq<Seq<StatementView>>, r: (String, Option<EntityId>))
    requires
        get_outcome(me, room_id, records, words, mine0, mine1, room0, room1, p0, p1, r),
    ensures
        mine1.to_multiset().add(room1.to_multiset()) == mine0.to_multiset().add(room0.to_multiset()),
{
    broadcast use vstd::multiset::group_multiset_axioms;
    matching_is_held(room0, records, words);
    if let Some(e) = matching_object(room0, records, words) {
        if records[record_position(records, e)].flags.bits & 1 != 1 {
            moving_keeps(room0, mine0, e);
            assert(mine1.to_multiset().add(room1.to_multiset()) =~= room1.to_multiset().add(mine1.to_multiset()));
            assert(mine0.to_multiset().add(room0.to_multiset()) =~= room0.to_multiset().add(mine0.to_multiset()));
        }
    }
}

/// Dropping an object loses none and makes none: the dropper's and the room's objects
/// together are the same before and after.
pub proof fn dropping_keeps_objects(me: Id, room_id: RoomId, records: Seq<ObjectRecord>, words: Seq<Seq<char>>,
    mine0: Seq<EntityId>, mine1: Seq<EntityId>, room0: Seq<EntityId>, room1: Seq<EntityId>,
    p0: Seq<Seq<StatementView>>, p1: Seq<Seq<StatementView>>, r: (String, Option<EntityId>))
    requires
        drop_outcome(me, room_id, records, words, mine0, mine1, room0, room1, p0, p1, r),
    ensures
        mine1.to_multiset().add(room1.to_multiset()) == mine0.to_multiset().add(room0.to_multiset()),
{
    matching_is_held(mine0, records, words);
    if let Some(e) = matching_object(mine0, records, words) {
        moving_keeps(mine0, room0, e);
    }
}

/// The parts of an object or a prototype that an object can take from its prototype.
pub struct ObjectFields {
    pub named: Named,
    pub description: Description,
    pub flags: ObjectFlags,
    pub keywords: Keywords,
    pub hooks: Option<ScriptHooks>,
}

/// The fields as plain values: name, description, flag bits, keywords and hooks.
pub open spec fn fields_view(f: ObjectFields) -> (Seq<char>, Seq<char>, i64, Seq<Seq<char>>, Option<Seq<HookView>>) {
    (f.named.view_name(), f.description.view_text(), f.flags.bits(), f.keywords.words(), match f.hooks {
        Some(h) => Some(h.hooks_seq()),
        None => None,
    })
}

/// An object's fields after taking the listed ones from its prototype.
pub open spec fn inherited(object: (Seq<char>, Seq<char>, i64, Seq<Seq<char>>, Option<Seq<HookView>>),
    prototype: (Seq<char>, Seq<char>, i64, Seq<Seq<char>>, Option<Seq<HookView>>), fields: Seq<InheritableFields>)
    -> (Seq<char>, Seq<char>, i64, Seq<Seq<char>>, Option<Seq<HookView>>) {
    (
        if fields.contains(InheritableFields::Name) { prototype.0 } else { object.0 },
        if fields.contains(InheritableFields::Description) { prototype.1 } else { object.1 },
        if fields.contains(InheritableFields::Flags) { prototype.2 } else { object.2 },
        if fields.contains(InheritableFields::Keywords) { prototype.3 } else { object.3 },
        if fields.contains(InheritableFields::Scripts) { prototype.4 } else { object.4 },
    )
}

proof fn single_contains(f: InheritableFields)
    ensures
        forall|g: InheritableFields| #[trigger] seq![f].contains(g) == (g == f),
{
    let one = seq![f];
    assert(one[0] == f);
    assert forall|g: InheritableFields| #[trigger] one.contains(g) == (g == f) by {
        if one.contains(g) {
            let k = choose|k: int| 0 <= k < one.len() && one[k] == g;
            assert(k == 0);
        }
    }
}

fn copy_fields_of(source: &ObjectFields, target: &mut ObjectFields, field: InheritableFields)
    ensures
        fields_view(*final(target)) == inherited(fields_view(*old(target)), fields_view(*source), seq![field]),
{
    match field {
        InheritableFields::Name => {
            target.named = Named::from_string(crate::client::owned(source.named.as_str()));
        },
        InheritableFields::Description => {
            target.description = Description::from_string(crate::client::owned(source.description.as_str()));
        },
        InheritableFields::Flags => {
            target.flags = source.flags.duplicate();
        },
        InheritableFields::Keywords => {
            target.keywords = Keywords::from_list(source.keywords.get_list());
        },
        InheritableFields::Scripts => {
            target.hooks = match &source.hooks {
                Some(h) => Some(h.duplicate()),
                None => None,
            };
        },
    }
    proof {
        single_contains(field);
    }
}

/// Makes the listed fields of an object follow its prototype again: where the object is
/// found, each listed field is copied from the prototype (for scripts the object inherits
/// them once more), the change is stored, and told.
pub fn object_inherit_fields_system(id: ObjectId, found: bool, object: &mut Object, fields_of_object: &mut ObjectFields,
    prototype: &ObjectFields, fields: &Vec<InheritableFields>, updates: &mut Updates) -> (msg: String)
    ensures
        !found ==> msg@ == "Object "@ + signed_decimal(id.value() as int) + " not found."@
            && *final(object) == *old(object) && fields_view(*final(fields_of_object)) == fields_view(*old(fields_of_object))
            && final(updates).pending() == old(updates).pending(),
        found ==> msg@ == "Object "@ + signed_decimal(id.value() as int) + " fields set to inherit."@
            && fields_view(*final(fields_of_object)) == inherited(fields_view(*old(fields_of_object)), fields_view(*prototype), fields@)
            && final(object).view_parts() == (old(object).view_parts().0, old(object).view_parts().1,
                old(object).view_parts().2 || fields@.contains(InheritableFields::Scripts))
            && final(updates).pending() == old(updates).pending().push(inherit_plan(id.value(), fields@)),
{
    let number = i64_to_string(id.get());
    if !found {
        return sentence("Object ", number.as_str(), " not found.");
    }
    let ghost start = fields_view(*fields_of_object);
    let ghost p = fields_view(*prototype);
    let mut i: usize = 0;
    proof {
        assert(fields@.take(0) =~= Seq::<InheritableFields>::empty());
        assert(inherited(start, p, fields@.take(0)) == start);
    }
    while i < fields.len()
        invariant
            i <= fields.len(),
            p == fields_view(*prototype),
            fields_view(*fields_of_object) == inherited(start, p, fields@.take(i as int)),
            object.view_parts() == (old(object).view_parts().0, old(object).view_parts().1,
                old(object).view_parts().2 || fields@.take(i as int).contains(InheritableFields::Scripts)),
        decreases fields.len() - i,
    {
        let f = fields[i];
        let ghost mid = fields_view(*fields_of_object);
        copy_fields_of(prototype, fields_of_object, f);
        if let InheritableFields::Scripts = f {
            object.set_inherit_scripts(true);
        }
        proof {
            single_contains(f);
            let before = fields@.take(i as int);
            let t = fields@.take(i + 1);
            assert(t =~= before.push(f));
            assert forall|g: InheritableFields| #[trigger] t.contains(g) == (before.contains(g) || g == f) by {
                if g == f {
                    assert(t[i as int] == f);
                }
                if before.contains(g) {
                    let k = choose|k: int| 0 <= k < before.len() && before[k] == g;
                    assert(t[k] == g);
                }
                if t.contains(g) {
                    let k = choose|k: int| 0 <= k < t.len() && t[k] == g;
                    if k < i {
                        assert(before[k] == g);
                    }
                }
            }
            assert(t.contains(InheritableFields::Name) == (before.contains(InheritableFields::Name) || f == InheritableFields::Name));
            assert(t.contains(InheritableFields::Description) == (before.contains(InheritableFields::Description) || f == InheritableFields::Description));
            assert(t.contains(InheritableFields::Flags) == (before.contains(InheritableFields::Flags) || f == InheritableFields::Flags));
            assert(t.contains(InheritableFields::Keywords) == (before.contains(InheritableFields::Keywords) || f == InheritableFields::Keywords));
            assert(t.contains(InheritableFields::Scripts) == (before.contains(InheritableFields::Scripts) || f == InheritableFields::Scripts));
            assert(seq![f].contains(InheritableFields::Name) == (f == InheritableFields::Name));
            assert(seq![f].contains(InheritableFields::Description) == (f == InheritableFields::Description));
            assert(seq![f].contains(InheritableFields::Flags) == (f == InheritableFields::Flags));
            assert(seq![f].contains(InheritableFields::Keywords) == (f == InheritableFields::Keywords));
            assert(seq![f].contains(InheritableFields::Scripts) == (f == InheritableFields::Scripts));
            assert(fields_view(*fields_of_object) == inherited(mid, p, seq![f]));
            assert(fields_view(*fields_of_object) == inherited(start, p, t));
        }
        i = i + 1;
    }
    assert(fields@.take(fields.len() as int) =~= fields@);
    updates.persist(crate::persist::object::Inherit::new(id, copy_field_list(fields)).statements());
    sentence("Object ", number.as_str(), " fields set to inherit.")
}

fn copy_field_list(v: &Vec<InheritableFields>) -> (r: Vec<InheritableFields>)
    ensures
        r@ == v@,
{
    let mut r: Vec<InheritableFields> = Vec::new();
    let mut i: usize = 0;
    while i < v.len()
        invariant
            i <= v.len(),
            r@ == v@.take(i as int),
        decreases v.len() - i,
    {
        r.push(v[i]);
        assert(v@.take(i + 1) =~= v@.take(i as int).push(v@[i as int]));
        i = i + 1;
    }
    assert(v@.take(v.len() as int) =~= v@);
    r
}

} // verus!
