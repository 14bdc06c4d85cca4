use vstd::prelude::*;

verus! {

/// The sounds that the game plays.
#[derive(Copy, Clone, PartialEq, Eq, Debug, Structural)]
pub enum SoundId {
    SingleShot,
    DirtHit,
    Ricochet,
}

impl SoundId {
    /// The position of the sound in the list of loaded sounds.
    pub open spec fn spec_index(self) -> usize {
        match self {
            SoundId::SingleShot => 0,
            SoundId::DirtHit => 1,
            SoundId::Ricochet => 2,
        }
    }

    pub fn index(self) -> (r: usize)
        ensures
            r == self.spec_index(),
    {
        match self {
            SoundId::SingleShot => 0,
            SoundId::DirtHit => 1,
            SoundId::Ricochet => 2,
        }
    }
}

/// The sound to play next, if any.
#[derive(Copy, Clone, PartialEq, Eq, Debug, Structural)]
pub struct SoundPlayer {
    pub sound: Option<SoundId>,
}

impl Default for SoundPlayer {
    fn default() -> (r: Self)
        ensures
            r.sound is None,
    {
        SoundPlayer { sound: None }
    }
}

impl SoundPlayer {
    /// Queues the sound, in place of any queued before.
    pub fn play_sound(&mut self, id: SoundId)
        ensures
            final(self).sound == Some(id),
    {
        self.sound = Some(id);
    }
}

} // verus!
