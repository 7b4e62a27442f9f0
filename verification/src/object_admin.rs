use vstd::prelude::*;
use crate::chars::{i64_to_string, push_str, signed_decimal, string_from_chars};
use crate::ids::{ObjectId, Objects, PrototypeId, Prototypes, RoomId};
use crate::items::in_room;
use crate::object::{lemma_lex_asymmetric, lemma_lex_irreflexive, lex_lt, parse_flags, parse_flags_spec, strictly_sorted, Keywords, Mode, mode_of, ObjectFlags};
use crate::persist::{group_statements, BindView, StatementView, UpdateGroup, Updates};
use crate::text::{join, strings_view};

verus! {

/// The stored change: an object's keywords, joined by commas.
pub open spec fn keywords_stored(id: ObjectId, words: Seq<Seq<char>>) -> Seq<StatementView> {
    seq![StatementView {
        sql: "UPDATE objects SET keywords = ? WHERE id = ?"@,
        binds: seq![BindView::Text(join(words, ","@)), BindView::Int(id.value())],
    }]
}

/// The stored change: an object's flags.
pub open spec fn flags_stored(id: ObjectId, bits: i64) -> Seq<StatementView> {
    seq![StatementView { sql: "UPDATE objects SET flags = ? WHERE id = ?"@, binds: seq![BindView::Int(bits), BindView::Int(id.value())] }]
}

/// The stored change: a new object made from a prototype.
pub open spec fn object_created(id: ObjectId, prototype: PrototypeId) -> Seq<StatementView> {
    seq![StatementView {
        sql: "INSERT INTO objects (id, prototype_id, inherit_scripts, name) VALUES (?, ?, ?, NULL)"@,
        binds: seq![BindView::Int(id.value()), BindView::Int(prototype.value()), BindView::Bool(true)],
    }]
}

/// The keywords after a change: added (sorted, each once), removed, or replaced.
pub open spec fn keywords_after(mode: Mode, old: Seq<Seq<char>>, words: Seq<Seq<char>>, new: Seq<Seq<char>>) -> bool {
    match mode {
        Mode::Add => strictly_sorted(new) && new.to_set() == old.to_set() + words.to_set(),
        Mode::Remove => new == old.filter(|w: Seq<char>| !words.contains(w)),
        Mode::Replace => new == words,
    }
}

fn say(a: &str, b: &str, c: &str) -> (s: String)
    ensures
        s@ == a@ + b@ + c@,
{
    let mut out: Vec<char> = Vec::new();
    push_str(&mut out, a);
    push_str(&mut out, b);
    push_str(&mut out, c);
    string_from_chars(&out)
}

fn copy_words(v: &Vec<String>) -> (r: Vec<String>)
    ensures
        strings_view(r@) == strings_view(v@),
{
    let mut r: Vec<String> = Vec::new();
    let mut i: usize = 0;
    while i < v.len()
        invariant
            i <= v.len(),
            strings_view(r@) == strings_view(v@).take(i as int),
        decreases v.len() - i,
    {
        let ghost before = r@;
        let w = crate::client::owned(v[i].as_str());
        r.push(w);
        proof {
            before.lemma_push_map_commute(|s: String| s@, w);
            assert(strings_view(v@).take(i + 1) =~= strings_view(v@).take(i as int).push(v@[i as int]@));
        }
        i = i + 1;
    }
    assert(strings_view(v@).take(v.len() as int) =~= strings_view(v@));
    r
}

/// Changes the keywords of an object, where it is found: adds, removes, or replaces them;
/// the new list is stored and the change told.
pub fn update_keywords_system(id: ObjectId, found: bool, mode: Mode, keywords: &Vec<String>, target: &mut Keywords,
    updates: &mut Updates) -> (msg: String)
    ensures
        !found ==> {
            &&& msg@ == "Object "@ + signed_decimal(id.value() as int) + " not found."@
            &&& final(target).words() == old(target).words()
            &&& final(updates).pending() == old(updates).pending()
        },
        found ==> {
            &&& msg@ == "Updated object "@ + signed_decimal(id.value() as int) + " keywords."@
            &&& keywords_after(mode, old(target).words(), strings_view(keywords@), final(target).words())
            &&& final(updates).pending() == old(updates).pending().push(keywords_stored(id, final(target).words()))
        },
{
    let number = i64_to_string(id.get());
    if !found {
        return say("Object ", number.as_str(), " not found.");
    }
    match mode {
        Mode::Add => target.add(copy_words(keywords)),
        Mode::Remove => target.remove(keywords.as_slice()),
        Mode::Replace => target.set_list(copy_words(keywords)),
    }
    updates.persist(crate::persist::object::Keywords::new(id, target.get_list()).statements());
    say("Updated object ", number.as_str(), " keywords.")
}

/// Sets or clears flags of an object, where it is found and every name is a flag; the new
/// flags are stored and the change told.
pub fn update_object_flags_system(id: ObjectId, found: bool, flags: &Vec<String>, clear: bool, target: &mut ObjectFlags,
    updates: &mut Updates) -> (msg: String)
    ensures
        !found ==> {
            &&& msg@ == "Object "@ + signed_decimal(id.value() as int) + " not found."@
            &&& final(target).bits() == old(target).bits()
            &&& final(updates).pending() == old(updates).pending()
        },
        found ==> match parse_flags_spec(strings_view(flags@)) {
            Err(name) => {
                &&& msg@ == "Invalid object flag: "@ + name + ". Valid flags: fixed, subtle."@
                &&& final(target).bits() == old(target).bits()
                &&& final(updates).pending() == old(updates).pending()
            },
            Ok(bits) => {
                &&& msg@ == "Updated object "@ + signed_decimal(id.value() as int) + " flags."@
                &&& final(target).bits() == (if clear { old(target).bits() & !bits } else { old(target).bits() | bits })
                &&& final(updates).pending() == old(updates).pending().push(flags_stored(id, final(target).bits()))
            },
        },
{
    let number = i64_to_string(id.get());
    if !found {
        return say("Object ", number.as_str(), " not found.");
    }
    let changed = match parse_flags(flags.as_slice()) {
        Ok(f) => f,
        Err(e) => return e.message(),
    };
    if clear {
        target.remove(changed);
    } else {
        target.insert(changed);
    }
    updates.persist(crate::persist::object::Flags::new(id, target.get_flags()).statements());
    say("Updated object ", number.as_str(), " flags.")
}

/// Creates an object from a prototype, where the prototype exists: the next object id is
/// handed out and the new object, in the room, is stored; the caller makes the object from
/// the prototype's fields and registers it. Returns the message and the new id.
pub fn object_create_system(prototype_id: PrototypeId, prototypes: &Prototypes, objects: &mut Objects, room_id: RoomId,
    updates: &mut Updates) -> (r: (String, Option<ObjectId>))
    requires
        !prototypes.entities().contains_key(prototype_id.value()) || old(objects).highest() < i64::MAX,
    ensures
        !prototypes.entities().contains_key(prototype_id.value()) ==> {
            &&& r.0@ == "Prototype "@ + signed_decimal(prototype_id.value() as int) + " does not exist."@
            &&& r.1 is None
            &&& final(objects).highest() == old(objects).highest()
            &&& final(objects).entities() == old(objects).entities()
            &&& final(updates).pending() == old(updates).pending()
        },
        prototypes.entities().contains_key(prototype_id.value()) ==> {
            &&& r.1 matches Some(id) && id.value() == old(objects).highest() + 1
                && r.0@ == "Created object "@ + signed_decimal(id.value() as int) + "."@
                && final(updates).pending() == old(updates).pending().push(
                    group_statements(seq![object_created(id, prototype_id), in_room(room_id, id)]))
            &&& final(objects).highest() == old(objects).highest() + 1
            &&& final(objects).entities() == old(objects).entities()
        },
{
    if prototypes.by_id(prototype_id).is_none() {
        let number = i64_to_string(prototype_id.get());
        return (say("Prototype ", number.as_str(), " does not exist."), None);
    }
    let id = objects.next_id();
    let first = crate::persist::object::Create::new(id, prototype_id).statements();
    let mut group = UpdateGroup::new(vec![first]);
    group.append(crate::persist::room::AddObject::new(room_id, id).statements());
    proof {
        reveal_with_fuel(group_statements, 3);
        assert(group.changes() =~= seq![object_created(id, prototype_id), in_room(room_id, id)]);
    }
    updates.persist(group.statements());
    let number = i64_to_string(id.get());
    (say("Created object ", number.as_str(), "."), Some(id))
}

proof fn sorted_first_not_in_rest(a: Seq<Seq<char>>)
    requires
        strictly_sorted(a),
        a.len() > 0,
    ensures
        a.drop_first().to_set() == a.to_set().remove(a[0]),
{
    assert forall|w: Seq<char>| #[trigger] a.drop_first().to_set().contains(w) == a.to_set().remove(a[0]).contains(w) by {
        if a.drop_first().contains(w) {
            let k = choose|k: int| 0 <= k < a.drop_first().len() && a.drop_first()[k] == w;
            assert(a[k + 1] == w);
            assert(lex_lt(a[0], a[k + 1]));
            lemma_lex_irreflexive(a[0]);
        }
        if a.contains(w) && w != a[0] {
            let k = choose|k: int| 0 <= k < a.len() && a[k] == w;
            assert(a.drop_first()[k - 1] == w);
        }
    }
    assert(a.drop_first().to_set() =~= a.to_set().remove(a[0]));
}

/// Two strictly sorted lists with the same words are the same list.
pub proof fn sorted_lists_are_unique(a: Seq<Seq<char>>, b: Seq<Seq<char>>)
    requires
        strictly_sorted(a),
        strictly_sorted(b),
        a.to_set() == b.to_set(),
    ensures
        a == b,
    decreases a.len(),
{
    if a.len() == 0 {
        if b.len() > 0 {
            assert(b.to_set().contains(b[0]));
        }
        assert(a =~= b);
    } else {
        assert(a.to_set().contains(a[0]));
        assert(b.to_set().contains(a[0]));
        assert(b.len() > 0);
        assert(b.to_set().contains(b[0]));
        assert(a.to_set().contains(b[0]));
        let j = choose|j: int| 0 <= j < b.len() && b[j] == a[0];
        let i = choose|i: int| 0 <= i < a.len() && a[i] == b[0];
        if i > 0 && j > 0 {
            assert(lex_lt(a[0], a[i]));
            assert(lex_lt(b[0], b[j]));
            lemma_lex_asymmetric(a[0], b[0]);
        }
        assert(a[0] == b[0]);
        sorted_first_not_in_rest(a);
        sorted_first_not_in_rest(b);
        assert(strictly_sorted(a.drop_first()));
        assert(strictly_sorted(b.drop_first()));
        sorted_lists_are_unique(a.drop_first(), b.drop_first());
        assert(a =~= seq![a[0]] + a.drop_first());
        assert(b =~= seq![b[0]] + b.drop_first());
    }
}

/// Adding the same keywords a second time changes nothing.
pub proof fn adding_keywords_twice_is_adding_once(old: Seq<Seq<char>>, words: Seq<Seq<char>>, once: Seq<Seq<char>>,
    twice: Seq<Seq<char>>)
    requires
        keywords_after(Mode::Add, old, words, once),
        keywords_after(Mode::Add, once, words, twice),
    ensures
        twice == once,
{
    assert(twice.to_set() =~= once.to_set());
    sorted_lists_are_unique(twice, once);
}

/// After a replacement the keywords are exactly the given ones, whatever they were before.
pub proof fn replacing_keywords_forgets_the_old(old1: Seq<Seq<char>>, old2: Seq<Seq<char>>, words: Seq<Seq<char>>,
    new1: Seq<Seq<char>>, new2: Seq<Seq<char>>)
    requires
        keywords_after(Mode::Replace, old1, words, new1),
        keywords_after(Mode::Replace, old2, words, new2),
    ensures
        new1 == new2,
{
}

} // verus!

verus! {

/// The words that name a keyword change decide what it does: after `remove` none of the given
/// words is left and every other old word stays, after `add` every old and every given word is
/// there, and after `set` the list is exactly the given words.
pub proof fn keyword_change_words(m: Mode, old: Seq<Seq<char>>, words: Seq<Seq<char>>, new: Seq<Seq<char>>)
    ensures
        mode_of("remove"@) == Some(m) && keywords_after(m, old, words, new) ==> {
            &&& forall|w: Seq<char>| words.contains(w) ==> !new.contains(w)
            &&& forall|w: Seq<char>| old.contains(w) && !words.contains(w) ==> new.contains(w)
        },
        mode_of("add"@) == Some(m) && keywords_after(m, old, words, new) ==>
            forall|w: Seq<char>| old.contains(w) || words.contains(w) ==> new.contains(w),
        mode_of("set"@) == Some(m) && keywords_after(m, old, words, new) ==> new == words,
{
    reveal_strlit("add");
    reveal_strlit("remove");
    reveal_strlit("set");
    assert("add"@.len() == 3 && "remove"@.len() == 6 && "set"@.len() == 3);
    assert("add"@[0] == 'a' && "set"@[0] == 's');
    if mode_of("remove"@) == Some(m) && keywords_after(m, old, words, new) {
        assert(m == Mode::Remove);
        let pred = |w: Seq<char>| !words.contains(w);
        assert forall|w: Seq<char>| words.contains(w) implies !new.contains(w) by {
            if new.contains(w) {
                let i = choose|i: int| 0 <= i < new.len() && new[i] == w;
                old.lemma_filter_pred(pred, i);
            }
        }
        assert forall|w: Seq<char>| old.contains(w) && !words.contains(w) implies new.contains(w) by {
            let i = choose|i: int| 0 <= i < old.len() && old[i] == w;
            old.lemma_filter_contains(pred, i);
        }
    }
    if mode_of("add"@) == Some(m) && keywords_after(m, old, words, new) {
        assert(m == Mode::Add);
        assert forall|w: Seq<char>| old.contains(w) || words.contains(w) implies new.contains(w) by {
            assert((old.to_set() + words.to_set()).contains(w));
            assert(new.to_set().contains(w));
        }
    }
    if mode_of("set"@) == Some(m) && keywords_after(m, old, words, new) {
        assert(m == Mode::Replace);
    }
}

} // verus!
