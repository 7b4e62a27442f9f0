use vstd::prelude::*;
use crate::client::{owned, same_text, EntityId};
use crate::object::Keywords;
use crate::text::{join, join_words, strings_view};

verus! {

/// The name, description and keywords (objects have them) of an entity.
pub struct EntityInfo {
    pub entity: EntityId,
    pub name: String,
    pub desc: String,
    pub keywords: Option<Keywords>,
}

/// What can be looked up while resolving a target: the entities with a name and a
/// description, the players of each room, and the objects in each container.
pub struct TargetFinder {
    pub name_desc: Vec<EntityInfo>,
    pub rooms: Vec<(EntityId, Vec<EntityId>)>,
    pub contents: Vec<(EntityId, Vec<EntityId>)>,
}

/// What to look for, and where.
pub struct Params {
    actor: EntityId,
    room: EntityId,
    keywords: Option<Vec<String>>,
    pub players_by_name: bool,
    pub objects_in_room: bool,
    pub objects_carried: bool,
}

impl Params {
    pub closed spec fn actor_spec(&self) -> EntityId {
        self.actor
    }

    pub closed spec fn room_spec(&self) -> EntityId {
        self.room
    }

    /// Which searches are on: players by name, objects in the room, carried objects.
    pub closed spec fn searches(&self) -> (bool, bool, bool) {
        (self.players_by_name, self.objects_in_room, self.objects_carried)
    }

    pub closed spec fn keywords_spec(&self) -> Option<Seq<String>> {
        match self.keywords {
            Some(k) => Some(k@),
            None => None,
        }
    }

    /// Looks everywhere: players by name, then objects in the room, then carried ones.
    pub fn new(actor: EntityId, room: EntityId, keywords: Option<Vec<String>>) -> (p: Params)
        ensures
            p.actor_spec() == actor,
            p.room_spec() == room,
            p.keywords_spec() == match keywords {
                Some(k) => Some(k@),
                None => None,
            },
            p.searches() == (true, true, true),
    {
        Params { actor, room, keywords, players_by_name: true, objects_in_room: true, objects_carried: true }
    }
}

/// A resolved target.
pub struct Target {
    pub entity: EntityId,
    pub name: String,
    pub desc: String,
}

/// The first entry for an entity.
pub open spec fn info_index(infos: Seq<EntityInfo>, e: EntityId) -> Option<int>
    decreases infos.len(),
{
    if infos.len() == 0 {
        None
    } else if infos[0].entity == e {
        Some(0)
    } else {
        match info_index(infos.drop_first(), e) {
            Some(k) => Some(k + 1),
            None => None,
        }
    }
}

/// The list of the first entry for an entity.
pub open spec fn list_of(lists: Seq<(EntityId, Vec<EntityId>)>, e: EntityId) -> Option<Seq<EntityId>>
    decreases lists.len(),
{
    if lists.len() == 0 {
        None
    } else if lists[0].0 == e {
        Some(lists[0].1@)
    } else {
        list_of(lists.drop_first(), e)
    }
}

/// The target an entry describes.
pub open spec fn target_is(t: Target, info: EntityInfo) -> bool {
    t.entity == info.entity && t.name@ == info.name@ && t.desc@ == info.desc@
}

/// Among `candidates`, in order, the first one with an entry whose name is `name`.
pub open spec fn first_named(infos: Seq<EntityInfo>, candidates: Seq<EntityId>, name: Seq<char>) -> Option<int>
    decreases candidates.len(),
{
    if candidates.len() == 0 {
        None
    } else {
        match info_index(infos, candidates[0]) {
            Some(k) => if infos[k].name@ == name {
                Some(k)
            } else {
                first_named(infos, candidates.drop_first(), name)
            },
            None => first_named(infos, candidates.drop_first(), name),
        }
    }
}

/// How a scan for an object with all the keywords ends.
pub enum Scan {
    Found(int),
    NotFound,
    /// An object without keywords was reached first.
    NoKeywords,
}

pub open spec fn covers(k: Keywords, words: Seq<String>) -> bool {
    forall|i: int| 0 <= i < words.len() ==> k.words().contains(#[trigger] words[i]@)
}

/// Among `candidates`, in order, the first one with an entry whose keywords cover `words`.
pub open spec fn object_scan(infos: Seq<EntityInfo>, candidates: Seq<EntityId>, words: Seq<String>) -> Scan
    decreases candidates.len(),
{
    if candidates.len() == 0 {
        Scan::NotFound
    } else {
        match info_index(infos, candidates[0]) {
            Some(k) => match infos[k].keywords {
                Some(kw) => if covers(kw, words) {
                    Scan::Found(k)
                } else {
                    object_scan(infos, candidates.drop_first(), words)
                },
                None => Scan::NoKeywords,
            },
            None => object_scan(infos, candidates.drop_first(), words),
        }
    }
}

fn find_info(infos: &Vec<EntityInfo>, e: EntityId) -> (r: Option<usize>)
    ensures
        r matches Some(k) ==> k < infos.len() && info_index(infos@, e) == Some(k as int),
        r is None ==> info_index(infos@, e) is None,
{
    let mut i: usize = 0;
    assert(infos@.subrange(0, infos@.len() as int) =~= infos@);
    while i < infos.len()
        invariant
            i <= infos.len(),
            info_index(infos@.subrange(i as int, infos@.len() as int), e) matches Some(k) ==> info_index(infos@, e)
                == Some(k + i),
            info_index(infos@.subrange(i as int, infos@.len() as int), e) is None ==> info_index(infos@, e) is None,
        decreases infos.len() - i,
    {
        let ghost rest = infos@.subrange(i as int, infos@.len() as int);
        assert(rest.drop_first() =~= infos@.subrange(i + 1, infos@.len() as int));
        if infos[i].entity == e {
            assert(rest[0] == infos@[i as int]);
            return Some(i);
        }
        i = i + 1;
    }
    None
}

fn find_list<'a>(lists: &'a Vec<(EntityId, Vec<EntityId>)>, e: EntityId) -> (r: Option<&'a Vec<EntityId>>)
    ensures
        match list_of(lists@, e) {
            Some(l) => r matches Some(v) && v@ == l,
            None => r is None,
        },
{
    let mut i: usize = 0;
    assert(lists@.subrange(0, lists@.len() as int) =~= lists@);
    while i < lists.len()
        invariant
            i <= lists.len(),
            list_of(lists@.subrange(i as int, lists@.len() as int), e) == list_of(lists@, e),
        decreases lists.len() - i,
    {
        let ghost rest = lists@.subrange(i as int, lists@.len() as int);
        assert(rest.drop_first() =~= lists@.subrange(i + 1, lists@.len() as int));
        if lists[i].0 == e {
            assert(rest[0] == lists@[i as int]);
            return Some(&lists[i].1);
        }
        i = i + 1;
    }
    None
}

fn target_of(info: &EntityInfo) -> (t: Target)
    ensures
        target_is(t, *info),
{
    Target { entity: info.entity, name: owned(info.name.as_str()), desc: owned(info.desc.as_str()) }
}

impl TargetFinder {
    /// A player in the room whose name is exactly `full_name`.
    pub fn resolve_player(&self, full_name: &str, room: EntityId) -> (r: Option<Target>)
        ensures
            match list_of(self.rooms@, room) {
                Some(players) => match first_named(self.name_desc@, players, full_name@) {
                    Some(k) => r matches Some(t) && target_is(t, self.name_desc@[k]),
                    None => r is None,
                },
                None => r is None,
            },
    {
        let players = match find_list(&self.rooms, room) {
            Some(p) => p,
            None => {
                return None;
            },
        };
        let ghost all = players@;
        let mut i: usize = 0;
        assert(all.subrange(0, all.len() as int) =~= all);
        while i < players.len()
            invariant
                i <= players.len(),
                all == players@,
                list_of(self.rooms@, room) == Some(all),
                first_named(self.name_desc@, all.subrange(i as int, all.len() as int), full_name@)
                    == first_named(self.name_desc@, all, full_name@),
            decreases players.len() - i,
        {
            let ghost rest = all.subrange(i as int, all.len() as int);
            assert(rest.drop_first() =~= all.subrange(i + 1, all.len() as int));
            assert(rest[0] == all[i as int]);
            match find_info(&self.name_desc, players[i]) {
                Some(k) => {
                    if same_text(self.name_desc[k].name.as_str(), full_name) {
                        assert(first_named(self.name_desc@, rest, full_name@) == Some(k as int));
                        return Some(target_of(&self.name_desc[k]));
                    }
                },
                None => {},
            }
            i = i + 1;
        }
        None
    }

    /// The first object in the container, in order, whose keywords cover `keywords`.
    pub fn resolve_object(&self, keywords: &[String], container: EntityId) -> (r: Option<Target>)
        requires
            list_of(self.contents@, container) matches Some(objects) ==> !(object_scan(
                self.name_desc@,
                objects,
                keywords@,
            ) is NoKeywords),
        ensures
            match list_of(self.contents@, container) {
                Some(objects) => match object_scan(self.name_desc@, objects, keywords@) {
                    Scan::Found(k) => r matches Some(t) && target_is(t, self.name_desc@[k]),
                    _ => r is None,
                },
                None => r is None,
            },
    {
        let objects = match find_list(&self.contents, container) {
            Some(o) => o,
            None => {
                return None;
            },
        };
        let ghost all = objects@;
        let mut i: usize = 0;
        assert(all.subrange(0, all.len() as int) =~= all);
        while i < objects.len()
            invariant
                i <= objects.len(),
                all == objects@,
                list_of(self.contents@, container) == Some(all),
                object_scan(self.name_desc@, all.subrange(i as int, all.len() as int), keywords@)
                    == object_scan(self.name_desc@, all, keywords@),
                !(object_scan(self.name_desc@, all, keywords@) is NoKeywords),
            decreases objects.len() - i,
        {
            let ghost rest = all.subrange(i as int, all.len() as int);
            assert(rest.drop_first() =~= all.subrange(i + 1, all.len() as int));
            assert(rest[0] == all[i as int]);
            match find_info(&self.name_desc, objects[i]) {
                Some(k) => {
                    match &self.name_desc[k].keywords {
                        Some(kw) => {
                            if kw.contains_all(keywords) {
                                assert(object_scan(self.name_desc@, rest, keywords@) == Scan::Found(k as int));
                                return Some(target_of(&self.name_desc[k]));
                            }
                        },
                        None => {
                            return None;
                        },
                    }
                },
                None => {},
            }
            i = i + 1;
        }
        None
    }

    /// Resolves a target: with keywords, first a player in the room named by them joined by
    /// spaces, then an object in the room, then one the actor carries, as far as each kind
    /// of search is switched on.
    pub fn resolve(&self, input: Params) -> (r: Option<Target>)
        requires
            input.searches().1 ==> resolvable(*self, input.room_spec(), input.keywords_spec()),
            input.searches().2 ==> resolvable(*self, input.actor_spec(), input.keywords_spec()),
        ensures
            resolved(*self, input, r),
    {
        let keywords = match &input.keywords {
            Some(k) => k,
            None => {
                return None;
            },
        };
        if input.players_by_name {
            let full_name = join_words(keywords, " ");
            let target = self.resolve_player(full_name.as_str(), input.room);
            if target.is_some() {
                return target;
            }
        }
        if input.objects_in_room {
            let target = self.resolve_object(keywords.as_slice(), input.room);
            if target.is_some() {
                return target;
            }
        }
        if input.objects_carried {
            let target = self.resolve_object(keywords.as_slice(), input.actor);
            if target.is_some() {
                return target;
            }
        }
        None
    }
}

/// A search for objects in a container with these keywords reaches no object that lacks keywords.
pub open spec fn resolvable(f: TargetFinder, container: EntityId, keywords: Option<Seq<String>>) -> bool {
    keywords matches Some(k) && list_of(f.contents@, container) matches Some(objects) ==> !(object_scan(
        f.name_desc@,
        objects,
        k,
    ) is NoKeywords)
}

/// The entry a player search finds, if any.
pub open spec fn player_found(f: TargetFinder, room: EntityId, name: Seq<char>) -> Option<int> {
    match list_of(f.rooms@, room) {
        Some(players) => first_named(f.name_desc@, players, name),
        None => None,
    }
}

/// The entry an object search finds, if any.
pub open spec fn object_found(f: TargetFinder, container: EntityId, words: Seq<String>) -> Option<int> {
    match list_of(f.contents@, container) {
        Some(objects) => match object_scan(f.name_desc@, objects, words) {
            Scan::Found(k) => Some(k),
            _ => None,
        },
        None => None,
    }
}

/// What `resolve` finds: the first search, in the order players, room, carried, that is
/// switched on and finds something.
pub open spec fn resolved(f: TargetFinder, input: Params, r: Option<Target>) -> bool {
    match input.keywords_spec() {
        None => r is None,
        Some(k) => {
            let by_name = if input.searches().0 {
                player_found(f, input.room_spec(), join(strings_view(k), " "@))
            } else {
                None
            };
            let in_room = if input.searches().1 {
                object_found(f, input.room_spec(), k)
            } else {
                None
            };
            let carried = if input.searches().2 {
                object_found(f, input.actor_spec(), k)
            } else {
                None
            };
            match by_name {
                Some(i) => r matches Some(t) && target_is(t, f.name_desc@[i]),
                None => match in_room {
                    Some(i) => r matches Some(t) && target_is(t, f.name_desc@[i]),
                    None => match carried {
                        Some(i) => r matches Some(t) && target_is(t, f.name_desc@[i]),
                        None => r is None,
                    },
                },
            }
        },
    }
}

} // verus!

verus! {

proof fn lemma_info_index(infos: Seq<EntityInfo>, e: EntityId)
    ensures
        info_index(infos, e) matches Some(k) ==> 0 <= k < infos.len() && infos[k].entity == e,
    decreases infos.len(),
{
    if infos.len() > 0 && infos[0].entity != e {
        lemma_info_index(infos.drop_first(), e);
    }
}

/// Whether an entity's entry has keywords that include every word.
pub open spec fn has_every_keyword(infos: Seq<EntityInfo>, e: EntityId, words: Seq<String>) -> bool {
    &&& info_index(infos, e) matches Some(n)
    &&& infos[n].keywords matches Some(kw)
    &&& forall|i: int| 0 <= i < words.len() ==> kw.words().contains(#[trigger] words[i]@)
}

/// An object search finds one of the candidates whose keywords include every word
/// searched for, and no candidate before it has them all.
pub proof fn found_object_has_every_keyword(infos: Seq<EntityInfo>, candidates: Seq<EntityId>, words: Seq<String>)
    ensures
        object_scan(infos, candidates, words) matches Scan::Found(k) ==> {
            &&& 0 <= k < infos.len()
            &&& has_every_keyword(infos, infos[k].entity, words)
            &&& info_index(infos, infos[k].entity) == Some(k)
            &&& exists|j: int| 0 <= j < candidates.len() && candidates[j] == infos[k].entity
                && forall|m: int| 0 <= m < j ==> !has_every_keyword(infos, #[trigger] candidates[m], words)
        },
    decreases candidates.len(),
{
    if candidates.len() > 0 {
        let c0 = candidates[0];
        lemma_info_index(infos, c0);
        let rest = candidates.drop_first();
        found_object_has_every_keyword(infos, rest, words);
        match object_scan(infos, candidates, words) {
            Scan::Found(k) => {
                if has_every_keyword(infos, c0, words) {
                    assert(candidates[0] == infos[k].entity);
                } else {
                    assert(!has_every_keyword(infos, c0, words));
                    assert(object_scan(infos, rest, words) == Scan::Found(k));
                    let j = choose|j: int| 0 <= j < rest.len() && rest[j] == infos[k].entity
                        && forall|m: int| 0 <= m < j ==> !has_every_keyword(infos, #[trigger] rest[m], words);
                    assert(candidates[j + 1] == infos[k].entity);
                    assert forall|m: int| 0 <= m < j + 1 implies !has_every_keyword(infos, #[trigger] candidates[m], words) by {
                        if m > 0 {
                            assert(candidates[m] == rest[m - 1]);
                        }
                    }
                }
            },
            _ => {},
        }
    }
}

/// A player search finds one of the candidates, and one whose name is exactly the name
/// searched for.
pub proof fn found_player_has_the_name(infos: Seq<EntityInfo>, candidates: Seq<EntityId>, name: Seq<char>)
    ensures
        first_named(infos, candidates, name) matches Some(k) ==> {
            &&& 0 <= k < infos.len()
            &&& infos[k].name@ == name
            &&& candidates.contains(infos[k].entity)
        },
    decreases candidates.len(),
{
    if candidates.len() > 0 {
        lemma_info_index(infos, candidates[0]);
        found_player_has_the_name(infos, candidates.drop_first(), name);
        if let Some(k) = first_named(infos, candidates, name) {
            if first_named(infos, candidates.drop_first(), name) == Some(k) && candidates.drop_first().contains(infos[k].entity) {
                let j = choose|j: int| 0 <= j < candidates.drop_first().len() && candidates.drop_first()[j] == infos[k].entity;
                assert(candidates[j + 1] == infos[k].entity);
            } else {
                assert(candidates[0] == infos[k].entity);
            }
        }
    }
}

} // verus!
