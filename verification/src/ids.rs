use vstd::prelude::*;
use std::collections::HashMap;
use crate::chars::{chars_of, decimal_value, digit_value, is_digit};
use crate::client::EntityId;
use crate::markup::lemma_prefix_value_le;
use vstd::std_specs::iter::IteratorSpec;

verus! {

broadcast use vstd::std_specs::hash::group_hash_axioms;

/// The digits of a possibly signed number: what follows a leading `+` or `-`.
pub open spec fn unsigned_part(s: Seq<char>) -> Seq<char> {
    if s.len() > 0 && (s[0] == '-' || s[0] == '+') {
        s.drop_first()
    } else {
        s
    }
}

pub open spec fn all_digits(d: Seq<char>) -> bool {
    forall|k: int| 0 <= k < d.len() ==> #[trigger] is_digit(d[k])
}

/// The value of an optionally signed decimal integer, where it fits in an `i64`: an
/// optional `+` or `-`, then at least one ASCII digit, and nothing else.
pub open spec fn parse_i64_spec(s: Seq<char>) -> Option<i64> {
    let digits = unsigned_part(s);
    if digits.len() == 0 || !all_digits(digits) {
        None
    } else {
        let v = if s[0] == '-' {
            -decimal_value(digits)
        } else {
            decimal_value(digits)
        };
        if i64::MIN <= v <= i64::MAX {
            Some(v as i64)
        } else {
            None
        }
    }
}

/// Parses an optionally signed decimal integer that fits in an `i64`.
pub fn parse_i64(s: &str) -> (r: Option<i64>)
    ensures
        r == parse_i64_spec(s@),
{
    let v = chars_of(s);
    let n = v.len();
    let neg = n > 0 && v[0] == '-';
    let start: usize = if n > 0 && (v[0] == '-' || v[0] == '+') {
        1
    } else {
        0
    };
    let ghost digits = v@.subrange(start as int, n as int);
    proof {
        if start == 1 {
            assert(digits == v@.drop_first());
        } else {
            assert(digits == v@);
        }
    }
    if start == n {
        return None;
    }
    let mut acc: i128 = 0;
    let mut i = start;
    while i < n
        invariant
            start <= i <= n == v.len(),
            v@ == s@,
            digits == v@.subrange(start as int, n as int),
            digits == unsigned_part(s@),
            neg == (s@[0] == '-'),
            digits.len() > 0,
            forall|k: int| start <= k < i ==> #[trigger] is_digit(v@[k]),
            acc as int == decimal_value(v@.subrange(start as int, i as int)),
            0 <= acc <= 0x8000_0000_0000_0000,
        decreases n - i,
    {
        let c = v[i];
        if !('0' <= c && c <= '9') {
            proof {
                assert(digits[i - start] == v@[i as int]);
                assert(!is_digit(digits[i - start]));
                assert(!all_digits(digits));
            }
            return None;
        }
        proof {
            assert(('0' as int) == 48);
            let t = v@.subrange(start as int, i + 1);
            assert(t.drop_last() == v@.subrange(start as int, i as int));
            assert(t.last() == c);
        }
        let d: i128 = ((c as u32) - 48) as i128;
        acc = acc * 10 + d;
        i = i + 1;
        if acc > 0x8000_0000_0000_0000 {
            proof {
                if all_digits(digits) {
                    lemma_prefix_value_le(digits, (i - start) as int);
                    assert(digits.take((i - start) as int) == v@.subrange(start as int, i as int));
                }
            }
            return None;
        }
    }
    proof {
        assert(v@.subrange(start as int, n as int) == digits);
        assert forall|k: int| 0 <= k < digits.len() implies #[trigger] is_digit(digits[k]) by {
            assert(digits[k] == v@[start + k]);
        }
        assert(all_digits(digits));
    }
    if neg {
        if acc > 0x8000_0000_0000_0000 {
            None
        } else {
            Some((-acc) as i64)
        }
    } else {
        if acc > 0x7fff_ffff_ffff_ffff {
            None
        } else {
            Some(acc as i64)
        }
    }
}

/// Why a string or number is not an id.
#[derive(Debug, Copy, Clone, PartialEq, Eq, Structural)]
pub enum IdParseError {
    ObjectId,
    PrototypeId,
    RoomId,
}

impl IdParseError {
    /// What the error says.
    pub fn message(&self) -> (s: String)
        ensures
            s@ == id_error_text(*self),
    {
        match self {
            IdParseError::ObjectId => "Object IDs must be a non-negative integers.".to_owned(),
            IdParseError::PrototypeId => "Prototype IDs must be a non-negative integers.".to_owned(),
            IdParseError::RoomId => "Room IDs must be a non-negative integers.".to_owned(),
        }
    }
}

pub open spec fn id_error_text(e: IdParseError) -> Seq<char> {
    match e {
        IdParseError::ObjectId => "Object IDs must be a non-negative integers."@,
        IdParseError::PrototypeId => "Prototype IDs must be a non-negative integers."@,
        IdParseError::RoomId => "Room IDs must be a non-negative integers."@,
    }
}

/// The id of an object.
#[derive(Debug, Copy, Clone, PartialEq, Eq, Structural, Hash)]
pub struct ObjectId(i64);

/// The id of a prototype.
#[derive(Debug, Copy, Clone, PartialEq, Eq, Structural, Hash)]
pub struct PrototypeId(i64);

/// The id of a room.
#[derive(Debug, Copy, Clone, PartialEq, Eq, Structural, Hash)]
pub struct RoomId(pub i64);

/// The id of a player.
#[derive(Debug, Copy, Clone, PartialEq, Eq, Structural, Hash)]
pub struct PlayerId(pub i64);

/// The id of anything that can be stored: a player, a prototype, an object or a room.
#[derive(Debug, Copy, Clone, PartialEq, Eq, Structural)]
pub enum Id {
    Player(PlayerId),
    Prototype(PrototypeId),
    Object(ObjectId),
    Room(RoomId),
}

impl ObjectId {
    pub closed spec fn value(&self) -> i64 {
        self.0
    }

    pub fn get(&self) -> (v: i64)
        ensures
            v == self.value(),
    {
        self.0
    }

    /// Object ids are non-negative.
    pub fn try_from_i64(value: i64) -> (r: Result<Self, IdParseError>)
        ensures
            value >= 0 ==> (r matches Ok(id) && id.value() == value),
            value < 0 ==> r == Err::<Self, IdParseError>(IdParseError::ObjectId),
    {
        if value >= 0 {
            Ok(ObjectId(value))
        } else {
            Err(IdParseError::ObjectId)
        }
    }

    /// Parses a non-negative decimal id.
    pub fn from_str(s: &str) -> (r: Result<Self, IdParseError>)
        ensures
            match parse_i64_spec(s@) {
                Some(v) => if v >= 0 {
                    r matches Ok(id) && id.value() == v
                } else {
                    r == Err::<Self, IdParseError>(IdParseError::ObjectId)
                },
                None => r == Err::<Self, IdParseError>(IdParseError::ObjectId),
            },
    {
        match parse_i64(s) {
            Some(v) => ObjectId::try_from_i64(v),
            None => Err(IdParseError::ObjectId),
        }
    }
}

impl PrototypeId {
    pub closed spec fn value(&self) -> i64 {
        self.0
    }

    pub fn get(&self) -> (v: i64)
        ensures
            v == self.value(),
    {
        self.0
    }

    /// Prototype ids are non-negative.
    pub fn try_from_i64(value: i64) -> (r: Result<Self, IdParseError>)
        ensures
            value >= 0 ==> (r matches Ok(id) && id.value() == value),
            value < 0 ==> r == Err::<Self, IdParseError>(IdParseError::PrototypeId),
    {
        if value >= 0 {
            Ok(PrototypeId(value))
        } else {
            Err(IdParseError::PrototypeId)
        }
    }

    /// Parses a non-negative decimal id.
    pub fn from_str(s: &str) -> (r: Result<Self, IdParseError>)
        ensures
            match parse_i64_spec(s@) {
                Some(v) => if v >= 0 {
                    r matches Ok(id) && id.value() == v
                } else {
                    r == Err::<Self, IdParseError>(IdParseError::PrototypeId)
                },
                None => r == Err::<Self, IdParseError>(IdParseError::PrototypeId),
            },
    {
        match parse_i64(s) {
            Some(v) => PrototypeId::try_from_i64(v),
            None => Err(IdParseError::PrototypeId),
        }
    }
}

impl RoomId {
    /// Parses a non-negative decimal id.
    pub fn from_str(s: &str) -> (r: Result<Self, IdParseError>)
        ensures
            match parse_i64_spec(s@) {
                Some(v) => if v >= 0 {
                    r == Ok::<Self, IdParseError>(RoomId(v))
                } else {
                    r == Err::<Self, IdParseError>(IdParseError::RoomId)
                },
                None => r == Err::<Self, IdParseError>(IdParseError::RoomId),
            },
    {
        match parse_i64(s) {
            Some(v) => if v >= 0 {
                Ok(RoomId(v))
            } else {
                Err(IdParseError::RoomId)
            },
            None => Err(IdParseError::RoomId),
        }
    }
}

/// The entities of the objects, by id, and the highest id handed out.
pub struct Objects {
    by_id: HashMap<i64, EntityId>,
    highest_id: i64,
}

impl Objects {
    pub closed spec fn entities(&self) -> Map<i64, EntityId> {
        self.by_id@
    }

    pub closed spec fn highest(&self) -> i64 {
        self.highest_id
    }

    pub fn new(highest_id: i64) -> (o: Self)
        ensures
            o.entities() == Map::<i64, EntityId>::empty(),
            o.highest() == highest_id,
    {
        Objects { by_id: HashMap::new(), highest_id }
    }

    pub fn insert(&mut self, id: ObjectId, entity: EntityId)
        ensures
            final(self).entities() == old(self).entities().insert(id.value(), entity),
            final(self).highest() == old(self).highest(),
    {
        self.by_id.insert(id.0, entity);
    }

    pub fn remove(&mut self, id: ObjectId)
        ensures
            final(self).entities() == old(self).entities().remove(id.value()),
            final(self).highest() == old(self).highest(),
    {
        self.by_id.remove(&id.0);
    }

    /// Removes an id of the entity, if it has one; where it has several, one of them.
    pub fn remove_entity(&mut self, entity: EntityId)
        ensures
            final(self).highest() == old(self).highest(),
            (forall|k: i64| old(self).entities().contains_key(k) ==> old(self).entities()[k] != entity)
                ==> final(self).entities() == old(self).entities(),
            (exists|k: i64| old(self).entities().contains_key(k) && old(self).entities()[k] == entity)
                ==> exists|k: i64| #[trigger] old(self).entities().contains_key(k)
                && old(self).entities()[k] == entity
                && final(self).entities() == old(self).entities().remove(k),
    {
        let mut found: Option<i64> = None;
        for (k, v) in it: self.by_id.iter()
            invariant
                found matches Some(f) ==> self.by_id@.contains_key(f) && self.by_id@[f] == entity,
                found is None ==> forall|j: int| 0 <= j < it.index() ==> *it.seq()[j].1 != entity,
                it.seq() == vstd::std_specs::hash::spec_hash_map_iter(&self.by_id).remaining(),
        {
            if found.is_none() && *v == entity {
                found = Some(*k);
            }
        }
        match found {
            Some(k) => {
                self.by_id.remove(&k);
            },
            None => {
                proof {
                    assert forall|k: i64| self.by_id@.contains_key(k) implies self.by_id@[k] != entity by {
                        let s = vstd::std_specs::hash::spec_hash_map_iter(&self.by_id).remaining();
                        assert(s.contains((&k, &self.by_id@[k])));
                    }
                }
            },
        }
    }

    pub fn by_id(&self, id: ObjectId) -> (e: Option<EntityId>)
        ensures
            e == (if self.entities().contains_key(id.value()) {
                Some(self.entities()[id.value()])
            } else {
                None
            }),
    {
        match self.by_id.get(&id.0) {
            Some(e) => Some(*e),
            None => None,
        }
    }

    /// Hands out the next id.
    pub fn next_id(&mut self) -> (id: ObjectId)
        requires
            old(self).highest() < i64::MAX,
        ensures
            id.value() == old(self).highest() + 1,
            final(self).highest() == old(self).highest() + 1,
            final(self).entities() == old(self).entities(),
    {
        self.highest_id = self.highest_id + 1;
        ObjectId(self.highest_id)
    }
}

/// The entities of the prototypes, by id, and the highest id handed out.
pub struct Prototypes {
    by_id: HashMap<i64, EntityId>,
    highest_id: i64,
}

impl Prototypes {
    pub closed spec fn entities(&self) -> Map<i64, EntityId> {
        self.by_id@
    }

    pub closed spec fn highest(&self) -> i64 {
        self.highest_id
    }

    pub fn new(highest_id: i64) -> (p: Self)
        ensures
            p.entities() == Map::<i64, EntityId>::empty(),
            p.highest() == highest_id,
    {
        Prototypes { by_id: HashMap::new(), highest_id }
    }

    pub fn insert(&mut self, id: PrototypeId, entity: EntityId)
        ensures
            final(self).entities() == old(self).entities().insert(id.value(), entity),
            final(self).highest() == old(self).highest(),
    {
        self.by_id.insert(id.0, entity);
    }

    pub fn by_id(&self, id: PrototypeId) -> (e: Option<EntityId>)
        ensures
            e == (if self.entities().contains_key(id.value()) {
                Some(self.entities()[id.value()])
            } else {
                None
            }),
    {
        match self.by_id.get(&id.0) {
            Some(e) => Some(*e),
            None => None,
        }
    }

    /// Hands out the next id.
    pub fn next_id(&mut self) -> (id: PrototypeId)
        requires
            old(self).highest() < i64::MAX,
        ensures
            id.value() == old(self).highest() + 1,
            final(self).highest() == old(self).highest() + 1,
            final(self).entities() == old(self).entities(),
    {
        self.highest_id = self.highest_id + 1;
        PrototypeId(self.highest_id)
    }
}

} // verus!
