use vstd::prelude::*;
use std::collections::HashMap;

verus! {

broadcast use vstd::std_specs::hash::group_hash_axioms;

/// The kinds of entity that are known over the network.
#[derive(Copy, Clone, PartialEq, Eq, Debug, Structural)]
pub enum EntityType {
    Player,
    Monster,
}

impl EntityType {
    /// A distinct small number for each kind, used as a map key.
    pub open spec fn spec_code(self) -> u8 {
        match self {
            EntityType::Player => 0,
            EntityType::Monster => 1,
        }
    }

    pub fn code(self) -> (r: u8)
        ensures
            r == self.spec_code(),
    {
        match self {
            EntityType::Player => 0,
            EntityType::Monster => 1,
        }
    }
}

/// Identifies an entity on both sides of the network: its kind and a number
/// unique among the entities of that kind.
#[derive(Copy, Clone, PartialEq, Eq, Debug, Structural)]
pub struct NetworkId {
    pub entity_type: EntityType,
    pub id: u32,
}

impl NetworkId {
    pub fn new(entity_type: EntityType, id: u32) -> (r: NetworkId)
        ensures
            r.entity_type == entity_type,
            r.id == id,
    {
        NetworkId { entity_type, id }
    }
}

/// Hands out network IDs, counting up from 0 for each kind of entity.
pub struct NetworkIdSupplier {
    next_ids: HashMap<u8, u32>,
}

impl NetworkIdSupplier {
    /// The ID that the next call of `next` hands out for the kind.
    pub closed spec fn next_of(&self, entity_type: EntityType) -> nat {
        let m = self.next_ids@;
        if m.contains_key(entity_type.spec_code()) {
            m[entity_type.spec_code()] as nat
        } else {
            0
        }
    }

    /// The ID was handed out already.
    pub open spec fn issued(&self, net_id: NetworkId) -> bool {
        net_id.id < self.next_of(net_id.entity_type)
    }

    pub fn new() -> (r: Self)
        ensures
            forall|t: EntityType| r.next_of(t) == 0,
    {
        NetworkIdSupplier { next_ids: HashMap::new() }
    }

    /// The ID that `next` hands out next for the kind of entity, without handing it out.
    pub fn peek(&self, entity_type: EntityType) -> (r: u32)
        ensures
            r == self.next_of(entity_type),
    {
        match self.next_ids.get(&entity_type.code()) {
            Some(v) => *v,
            None => 0,
        }
    }

    /// Hands out the next ID for the kind of entity.
    pub fn next(&mut self, entity_type: EntityType) -> (r: NetworkId)
        requires
            old(self).next_of(entity_type) < u32::MAX,
        ensures
            r == (NetworkId { entity_type, id: old(self).next_of(entity_type) as u32 }),
            final(self).next_of(entity_type) == old(self).next_of(entity_type) + 1,
            forall|t: EntityType| t != entity_type ==> final(self).next_of(t) == old(self).next_of(t),
            !old(self).issued(r),
            final(self).issued(r),
            forall|n: NetworkId| #[trigger] final(self).issued(n) <==> (old(self).issued(n) || n == r),
    {
        let key = entity_type.code();
        let next: u32 = match self.next_ids.get(&key) {
            Some(v) => *v,
            None => 0,
        };
        self.next_ids.insert(key, next + 1);
        proof {
            assert forall|t: EntityType| t != entity_type implies t.spec_code() != entity_type.spec_code() by {}
        }
        NetworkId::new(entity_type, next)
    }
}

impl Default for NetworkIdSupplier {
    fn default() -> (r: Self)
        ensures
            forall|t: EntityType| r.next_of(t) == 0,
    {
        NetworkIdSupplier::new()
    }
}

} // verus!
