use vstd::prelude::*;
use crate::client::EntityId;
use std::collections::{HashMap, HashSet};

verus! {

broadcast use vstd::std_specs::hash::group_hash_axioms;

/// Where entities are: the room of each located entity, the rooms themselves, and the
/// container of each contained object.
pub struct Places {
    locations: HashMap<u64, EntityId>,
    rooms: HashSet<u64>,
    containers: HashMap<u64, EntityId>,
}

/// The outermost container of an entity, following containers at most `fuel` times; none
/// where the chain is longer.
pub open spec fn outermost(containers: Map<u64, EntityId>, e: EntityId, fuel: nat) -> Option<EntityId>
    decreases fuel,
{
    if !containers.contains_key(e.0) {
        Some(e)
    } else if fuel == 0 {
        None
    } else {
        outermost(containers, containers[e.0], (fuel - 1) as nat)
    }
}

/// Whether an entity lies, through its containers, in a located entity.
pub open spec fn placed(locations: Map<u64, EntityId>, rooms: Set<u64>, containers: Map<u64, EntityId>, e: EntityId) -> bool {
    ||| locations.contains_key(e.0)
    ||| rooms.contains(e.0)
    ||| exists|fuel: nat| #[trigger] outermost(containers, e, fuel) matches Some(o) && locations.contains_key(o.0)
}

/// However much fuel reaches the outermost container, it is the same one.
pub proof fn outermost_is_unique(containers: Map<u64, EntityId>, e: EntityId, f1: nat, f2: nat)
    requires
        outermost(containers, e, f1) is Some,
        outermost(containers, e, f2) is Some,
    ensures
        outermost(containers, e, f1) == outermost(containers, e, f2),
    decreases f1,
{
    if containers.contains_key(e.0) {
        outermost_is_unique(containers, containers[e.0], (f1 - 1) as nat, (f2 - 1) as nat);
    }
}

/// An entity in a container is wherever that container is.
pub proof fn contained_goes_with_container(containers: Map<u64, EntityId>, e: EntityId, fuel: nat)
    requires
        containers.contains_key(e.0),
    ensures
        outermost(containers, e, fuel + 1) == outermost(containers, containers[e.0], fuel),
{
}

impl Places {
    pub closed spec fn located(&self) -> Map<u64, EntityId> {
        self.locations@
    }

    pub closed spec fn room_set(&self) -> Set<u64> {
        self.rooms@
    }

    pub closed spec fn contained(&self) -> Map<u64, EntityId> {
        self.containers@
    }

    pub fn new() -> (p: Places)
        ensures
            p.located() == Map::<u64, EntityId>::empty(),
            p.room_set() == Set::<u64>::empty(),
            p.contained() == Map::<u64, EntityId>::empty(),
    {
        Places { locations: HashMap::new(), rooms: HashSet::new(), containers: HashMap::new() }
    }

    /// Records the room an entity is in.
    pub fn set_location(&mut self, e: EntityId, room: EntityId)
        ensures
            final(self).located() == old(self).located().insert(e.0, room),
            final(self).room_set() == old(self).room_set(),
            final(self).contained() == old(self).contained(),
    {
        self.locations.insert(e.0, room);
    }

    /// Records that an entity is a room.
    pub fn add_room(&mut self, e: EntityId)
        ensures
            final(self).located() == old(self).located(),
            final(self).room_set() == old(self).room_set().insert(e.0),
            final(self).contained() == old(self).contained(),
    {
        self.rooms.insert(e.0);
    }

    /// Records the container an object is in.
    pub fn set_container(&mut self, e: EntityId, container: EntityId)
        ensures
            final(self).located() == old(self).located(),
            final(self).room_set() == old(self).room_set(),
            final(self).contained() == old(self).contained().insert(e.0, container),
    {
        self.containers.insert(e.0, container);
    }

    /// The room an entity is in: its own location, itself where it is a room, or else the
    /// location of its outermost container.
    pub fn location_of(&self, e: EntityId) -> (r: EntityId)
        requires
            placed(self.located(), self.room_set(), self.contained(), e),
        ensures
            self.located().contains_key(e.0) ==> r == self.located()[e.0],
            !self.located().contains_key(e.0) && self.room_set().contains(e.0) ==> r == e,
            !self.located().contains_key(e.0) && !self.room_set().contains(e.0) ==> forall|fuel: nat|
                #[trigger] outermost(self.contained(), e, fuel) matches Some(o) ==> r == self.located()[o.0],
    {
        if let Some(room) = self.locations.get(&e.0) {
            return *room;
        }
        if self.rooms.contains(&e.0) {
            return e;
        }
        let ghost c = self.contained();
        let ghost fuel0: nat = choose|fuel: nat| #[trigger] outermost(c, e, fuel) matches Some(o)
            && self.located().contains_key(o.0);
        let ghost mut left: nat = fuel0;
        proof {
            assert forall|fuel: nat| #[trigger] outermost(c, e, fuel) is Some implies outermost(c, e, fuel) == outermost(c, e, fuel0) by {
                outermost_is_unique(c, e, fuel, fuel0);
            }
        }
        let mut cur = e;
        loop
            invariant
                c == self.contained(),
                outermost(c, cur, left) == outermost(c, e, fuel0),
                outermost(c, e, fuel0) matches Some(o) && self.located().contains_key(o.0),
                forall|fuel: nat| #[trigger] outermost(c, e, fuel) is Some ==> outermost(c, e, fuel) == outermost(c, e, fuel0),
            ensures
                !c.contains_key(cur.0),
                outermost(c, cur, left) == outermost(c, e, fuel0),
            decreases left,
        {
            match self.containers.get(&cur.0) {
                Some(next) => {
                    proof {
                        left = (left - 1) as nat;
                    }
                    cur = *next;
                },
                None => {
                    break;
                },
            }
        }
        assert(outermost(c, cur, left) == Some(cur));
        match self.locations.get(&cur.0) {
            Some(room) => *room,
            None => cur,
        }
    }
}

} // verus!
