use vstd::prelude::*;

verus! {

/// Converts between size units and pixels: one unit is `multiplier` pixels.
pub struct UnitToPixelCalculator {
    multiplier: u32,
}

impl UnitToPixelCalculator {
    pub closed spec fn spec_multiplier(&self) -> u32 {
        self.multiplier
    }

    pub fn new(multiplier: u32) -> (r: UnitToPixelCalculator)
        ensures
            r.spec_multiplier() == multiplier,
    {
        UnitToPixelCalculator { multiplier }
    }

    pub fn multiplier(&self) -> (r: u32)
        ensures
            r == self.spec_multiplier(),
    {
        self.multiplier
    }

    /// The number of whole units that `size_pixel` pixels make.
    pub fn whole_units(&self, size_pixel: u32) -> (r: u32)
        requires
            self.spec_multiplier() != 0,
        ensures
            r == size_pixel / self.spec_multiplier(),
    {
        size_pixel / self.multiplier
    }
}

} // verus!
