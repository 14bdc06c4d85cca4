use vstd::prelude::*;

verus! {

/// The buttons that a player holds down, as a set of bits.
#[derive(Copy, Clone, PartialEq, Eq, Debug, Structural)]
pub struct InputFlags {
    pub bits: u16,
}

impl InputFlags {
    pub const FORWARD: u16 = 1;
    pub const BACKWARD: u16 = 2;
    pub const LEFT: u16 = 4;
    pub const RIGHT: u16 = 8;
    pub const SHOOT: u16 = 16;
    pub const RELOAD: u16 = 32;

    pub fn empty() -> (r: InputFlags)
        ensures
            r.bits == 0,
    {
        InputFlags { bits: 0 }
    }

    /// Some of the flags in `mask` is set.
    pub fn intersects(&self, mask: u16) -> (r: bool)
        ensures
            r == (self.bits & mask != 0),
    {
        self.bits & mask != 0
    }

    /// Sets the flags in `mask`.
    pub fn insert(&mut self, mask: u16)
        ensures
            final(self).bits == old(self).bits | mask,
    {
        self.bits = self.bits | mask;
    }

    /// Sets or clears the flags in `mask`.
    pub fn set(&mut self, mask: u16, value: bool)
        ensures
            final(self).bits == if value { old(self).bits | mask } else { old(self).bits & !mask },
    {
        if value {
            self.bits = self.bits | mask;
        } else {
            self.bits = self.bits & !mask;
        }
    }
}

/// A direction in which a player walks, relative to where it faces.
#[derive(Copy, Clone, PartialEq, Eq, Debug, Structural)]
pub enum MoveDirection {
    Forward,
    Backward,
    StrafeLeft,
    StrafeRight,
}

pub open spec fn when(held: bool, dir: MoveDirection) -> Seq<MoveDirection> {
    if held {
        seq![dir]
    } else {
        seq![]
    }
}

/// The directions of the held movement buttons: forward, backward, left, right, in this order.
pub open spec fn directions_of(flags: InputFlags) -> Seq<MoveDirection> {
    when(flags.bits & InputFlags::FORWARD != 0, MoveDirection::Forward)
        + when(flags.bits & InputFlags::BACKWARD != 0, MoveDirection::Backward)
        + when(flags.bits & InputFlags::LEFT != 0, MoveDirection::StrafeLeft)
        + when(flags.bits & InputFlags::RIGHT != 0, MoveDirection::StrafeRight)
}

/// The directions in which the held buttons move the player.
pub fn move_directions_from_input(flags: &InputFlags) -> (r: Vec<MoveDirection>)
    ensures
        r@ == directions_of(*flags),
{
    let mut directions: Vec<MoveDirection> = Vec::new();
    if flags.intersects(InputFlags::FORWARD) {
        directions.push(MoveDirection::Forward);
    }
    if flags.intersects(InputFlags::BACKWARD) {
        directions.push(MoveDirection::Backward);
    }
    if flags.intersects(InputFlags::LEFT) {
        directions.push(MoveDirection::StrafeLeft);
    }
    if flags.intersects(InputFlags::RIGHT) {
        directions.push(MoveDirection::StrafeRight);
    }
    assert(directions@ =~= directions_of(*flags));
    directions
}

/// The direction is among those of the held buttons exactly when its button is held.
proof fn lemma_direction_listed(bits: u16, dir: MoveDirection, held: bool)
    requires
        held == (match dir {
            MoveDirection::Forward => bits & 1u16 != 0,
            MoveDirection::Backward => bits & 2u16 != 0,
            MoveDirection::StrafeLeft => bits & 4u16 != 0,
            MoveDirection::StrafeRight => bits & 8u16 != 0,
        }),
    ensures
        directions_of(InputFlags { bits }).contains(dir) == held,
{
    let f = InputFlags { bits };
    let a = when(bits & InputFlags::FORWARD != 0, MoveDirection::Forward);
    let b = when(bits & InputFlags::BACKWARD != 0, MoveDirection::Backward);
    let c = when(bits & InputFlags::LEFT != 0, MoveDirection::StrafeLeft);
    let d = when(bits & InputFlags::RIGHT != 0, MoveDirection::StrafeRight);
    let s = directions_of(f);
    assert(s == a + b + c + d);
    if held {
        let k: int = match dir {
            MoveDirection::Forward => 0,
            MoveDirection::Backward => a.len() as int,
            MoveDirection::StrafeLeft => (a.len() + b.len()) as int,
            MoveDirection::StrafeRight => (a.len() + b.len() + c.len()) as int,
        };
        assert(s[k] == dir);
    } else {
        assert forall|k: int| 0 <= k < s.len() implies s[k] != dir by {
            if k < a.len() {
                assert(s[k] == a[k]);
            } else if k < a.len() + b.len() {
                assert(s[k] == b[k - a.len()]);
            } else if k < a.len() + b.len() + c.len() {
                assert(s[k] == c[k - a.len() - b.len()]);
            } else {
                assert(s[k] == d[k - a.len() - b.len() - c.len()]);
            }
        }
    }
}

/// Which directions a player moves in depends on the four movement buttons alone: holding or
/// releasing any other button (shoot, reload, or an unused bit) changes nothing, and each
/// direction is there exactly when its button is held (forward bit 1, backward bit 2, left
/// bit 4, right bit 8).
pub proof fn lemma_directions_depend_on_movement_buttons_only(bits: u16, other: u16)
    requires
        other & 15u16 == 0,
    ensures
        directions_of(InputFlags { bits: bits | other }) == directions_of(InputFlags { bits }),
        directions_of(InputFlags { bits: bits & 15u16 }) == directions_of(InputFlags { bits }),
        directions_of(InputFlags { bits }).contains(MoveDirection::Forward) <==> bits & 1u16 != 0,
        directions_of(InputFlags { bits }).contains(MoveDirection::Backward) <==> bits & 2u16 != 0,
        directions_of(InputFlags { bits }).contains(MoveDirection::StrafeLeft) <==> bits & 4u16 != 0,
        directions_of(InputFlags { bits }).contains(MoveDirection::StrafeRight) <==> bits & 8u16 != 0,
{
    assert((bits | other) & 1u16 == bits & 1u16 && (bits | other) & 2u16 == bits & 2u16
        && (bits | other) & 4u16 == bits & 4u16 && (bits | other) & 8u16 == bits & 8u16) by (bit_vector)
        requires
            other & 15u16 == 0,
    ;
    assert((bits & 15u16) & 1u16 == bits & 1u16 && (bits & 15u16) & 2u16 == bits & 2u16
        && (bits & 15u16) & 4u16 == bits & 4u16 && (bits & 15u16) & 8u16 == bits & 8u16) by (bit_vector);
    lemma_direction_listed(bits, MoveDirection::Forward, bits & 1u16 != 0);
    lemma_direction_listed(bits, MoveDirection::Backward, bits & 2u16 != 0);
    lemma_direction_listed(bits, MoveDirection::StrafeLeft, bits & 4u16 != 0);
    lemma_direction_listed(bits, MoveDirection::StrafeRight, bits & 8u16 != 0);
}

} // verus!
