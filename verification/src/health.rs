use vstd::prelude::*;

verus! {

/// The health points of an entity.
#[derive(Copy, Clone, PartialEq, Eq, Debug, Structural)]
pub struct Health(pub u32);

/// The health points that a hit takes.
#[derive(Copy, Clone, PartialEq, Eq, Debug, Structural)]
pub struct Damage(pub u32);

/// Applies a hit: a hit that takes at least all the health drains it to 0 and eliminates the
/// entity; a smaller hit takes its damage off. Returns whether the entity is eliminated.
pub fn apply_damage(health: &mut Health, damage: Damage) -> (eliminated: bool)
    ensures
        eliminated == (old(health).0 <= damage.0),
        final(health).0 == if eliminated { 0 } else { (old(health).0 - damage.0) as u32 },
        final(health).0 <= old(health).0,
{
    let health_drained = health.0 <= damage.0;
    if health_drained {
        health.0 = 0;
    } else {
        health.0 = health.0 - damage.0;
    }
    health_drained
}

} // verus!
