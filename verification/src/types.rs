use vstd::prelude::*;
use crate::chars::{chars_of, string_from_chars};
use crate::client::{owned, EntityId};
use crate::actions::Action;
use crate::ids::RoomId;

verus! {

/// `s` with every pipe doubled, so that it shows as text and not as color markup.
pub open spec fn escape_pipes(s: Seq<char>) -> Seq<char>
    decreases s.len(),
{
    if s.len() == 0 {
        seq![]
    } else {
        escape_pipes(s.drop_last()) + if s.last() == '|' {
            seq!['|', '|']
        } else {
            seq![s.last()]
        }
    }
}

/// `s` with every pipe doubled.
pub fn escape(s: &String) -> (r: String)
    ensures
        r@ == escape_pipes(s@),
{
    let v = chars_of(s.as_str());
    let mut out: Vec<char> = Vec::new();
    let mut i: usize = 0;
    while i < v.len()
        invariant
            i <= v.len(),
            v@ == s@,
            out@ == escape_pipes(v@.take(i as int)),
        decreases v.len() - i,
    {
        let c = v[i];
        if c == '|' {
            out.push('|');
            out.push('|');
        } else {
            out.push(c);
        }
        proof {
            let t = v@.take(i + 1);
            assert(t.drop_last() == v@.take(i as int));
            assert(t.last() == c);
        }
        i = i + 1;
    }
    assert(v@.take(v.len() as int) == v@);
    string_from_chars(&out)
}

/// A name of a player, object or room.
#[derive(Debug, Clone)]
pub struct Named {
    name: String,
}

impl Named {
    pub closed spec fn view_name(&self) -> Seq<char> {
        self.name@
    }

    pub fn from_string(name: String) -> (n: Self)
        ensures
            n.view_name() == name@,
    {
        Named { name }
    }

    pub fn set_name(&mut self, name: String)
        ensures
            final(self).view_name() == name@,
    {
        self.name = name;
    }

    pub fn as_str(&self) -> (s: &str)
        ensures
            s@ == self.view_name(),
    {
        self.name.as_str()
    }

    /// The name with its pipes doubled.
    pub fn escaped(&self) -> (s: String)
        ensures
            s@ == escape_pipes(self.view_name()),
    {
        escape(&self.name)
    }

    pub fn eq(&self, other: String) -> (b: bool)
        ensures
            b == (self.view_name() == other@),
    {
        self.name == other
    }
}

/// A description of a player, object or room.
#[derive(Debug, Clone)]
pub struct Description {
    text: String,
}

impl Description {
    pub closed spec fn view_text(&self) -> Seq<char> {
        self.text@
    }

    pub fn from_string(text: String) -> (d: Self)
        ensures
            d.view_text() == text@,
    {
        Description { text }
    }

    pub fn set_text(&mut self, text: String)
        ensures
            final(self).view_text() == text@,
    {
        self.text = text;
    }

    pub fn as_str(&self) -> (s: &str)
        ensures
            s@ == self.view_text(),
    {
        self.text.as_str()
    }

    /// The description with its pipes doubled.
    pub fn escaped(&self) -> (s: String)
        ensures
            s@ == escape_pipes(self.view_text()),
    {
        escape(&self.text)
    }
}

/// Where a player or object is.
#[derive(Debug)]
pub struct Location {
    location: EntityId,
}

impl Location {
    pub closed spec fn view_location(&self) -> EntityId {
        self.location
    }

    pub fn from_entity(room: EntityId) -> (l: Self)
        ensures
            l.view_location() == room,
    {
        Location { location: room }
    }

    pub fn set_location(&mut self, room: EntityId)
        ensures
            final(self).view_location() == room,
    {
        self.location = room;
    }

    pub fn location(&self) -> (e: EntityId)
        ensures
            e == self.view_location(),
    {
        self.location
    }
}

/// The objects that a room, player or container holds, in the order they came.
#[derive(Debug, Default)]
pub struct Contents {
    objects: Vec<EntityId>,
}

/// The first index of `e` in `s`.
pub open spec fn first_index(s: Seq<EntityId>, e: EntityId) -> int
    decreases s.len(),
{
    if s.len() == 0 {
        0
    } else if s[0] == e {
        0
    } else {
        1 + first_index(s.drop_first(), e)
    }
}

impl Contents {
    pub closed spec fn view_objects(&self) -> Seq<EntityId> {
        self.objects@
    }

    pub fn new() -> (c: Self)
        ensures
            c.view_objects() == Seq::<EntityId>::empty(),
    {
        Contents { objects: Vec::new() }
    }

    pub fn insert(&mut self, object: EntityId)
        ensures
            final(self).view_objects() == old(self).view_objects().push(object),
    {
        self.objects.push(object);
    }

    pub fn is_empty(&self) -> (b: bool)
        ensures
            b == (self.view_objects().len() == 0),
    {
        self.objects.len() == 0
    }

    pub fn contains(&self, entity: &EntityId) -> (b: bool)
        ensures
            b == self.view_objects().contains(*entity),
    {
        let mut i: usize = 0;
        while i < self.objects.len()
            invariant
                i <= self.objects.len(),
                forall|k: int| 0 <= k < i ==> self.objects@[k] != *entity,
            decreases self.objects.len() - i,
        {
            if self.objects[i] == *entity {
                assert(self.objects@[i as int] == *entity);
                return true;
            }
            i = i + 1;
        }
        false
    }

    /// Removes the first occurrence of an object; returns whether there was one.
    pub fn remove(&mut self, object: EntityId) -> (b: bool)
        ensures
            b == old(self).view_objects().contains(object),
            b ==> final(self).view_objects() == old(self).view_objects().remove(
                first_index(old(self).view_objects(), object),
            ),
            !b ==> final(self).view_objects() == old(self).view_objects(),
    {
        let mut i: usize = 0;
        assert(self.objects@.subrange(0, self.objects@.len() as int) == self.objects@);
        while i < self.objects.len()
            invariant
                i <= self.objects.len(),
                self.objects@ == old(self).objects@,
                forall|k: int| 0 <= k < i ==> self.objects@[k] != object,
                first_index(self.objects@.subrange(i as int, self.objects@.len() as int), object)
                    + i == first_index(self.objects@, object),
            decreases self.objects.len() - i,
        {
            if self.objects[i] == object {
                assert(self.objects@[i as int] == object);
                proof {
                    let t = self.objects@.subrange(i as int, self.objects@.len() as int);
                    assert(t[0] == object);
                }
                self.objects.remove(i);
                return true;
            }
            proof {
                let t = self.objects@.subrange(i as int, self.objects@.len() as int);
                assert(t.drop_first() == self.objects@.subrange(i + 1, self.objects@.len() as int));
            }
            i = i + 1;
        }
        false
    }

    pub fn get_objects(&self) -> (v: Vec<EntityId>)
        ensures
            v@ == self.view_objects(),
    {
        self.objects.clone()
    }

    pub fn len(&self) -> (n: usize)
        ensures
            n == self.view_objects().len(),
    {
        self.objects.len()
    }

    pub fn get(&self, index: usize) -> (e: EntityId)
        requires
            index < self.view_objects().len(),
        ensures
            e == self.view_objects()[index as int],
    {
        self.objects[index]
    }
}


/// Sets up the world's types.
#[derive(Debug, Copy, Clone, PartialEq, Eq, Structural)]
pub struct TypesPlugin {}

impl Default for TypesPlugin {
    fn default() -> (p: TypesPlugin)
        ensures
            p == (TypesPlugin {}),
    {
        TypesPlugin {}
    }
}

/// Settings of the running world: whether a restart or a shutdown was asked for, and
/// where new players appear.
#[derive(Debug, Copy, Clone, PartialEq, Eq, Structural)]
pub struct Configuration {
    pub restart: bool,
    pub shutdown: bool,
    pub spawn_room: RoomId,
}

impl Configuration {
    /// Notes a shutdown when any of a turn's actions asks for one.
    pub fn apply_shutdowns(&mut self, actions: &Vec<Action>)
        ensures
            final(self).shutdown == (old(self).shutdown || exists|k: int| 0 <= k < actions@.len()
                && #[trigger] actions@[k] is Shutdown),
            final(self).restart == old(self).restart,
            final(self).spawn_room == old(self).spawn_room,
    {
        let mut i: usize = 0;
        while i < actions.len()
            invariant
                i <= actions.len(),
                self.shutdown == (old(self).shutdown || exists|k: int| 0 <= k < i && #[trigger] actions@[k] is Shutdown),
                self.restart == old(self).restart,
                self.spawn_room == old(self).spawn_room,
            decreases actions.len() - i,
        {
            if let Action::Shutdown(_) = &actions[i] {
                self.shutdown = true;
                assert(actions@[i as int] is Shutdown);
            }
            i = i + 1;
        }
    }
}

} // verus!
