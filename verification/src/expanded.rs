use vstd::prelude::*;

verus! {

/// A block of zone levels: the zones from (`x_min`, `z_min`) to (`x_max`,
/// `z_max`) on the levels from `level_min` to `level_max`, all inclusive.
#[derive(Clone, Copy, Debug, PartialEq, Eq, Structural)]
pub struct Region {
    pub x_min: i32,
    pub x_max: i32,
    pub z_min: i32,
    pub z_max: i32,
    pub level_min: i8,
    pub level_max: i8,
}

/// The area that should be expanded into tiles.
pub struct Expanded {
    pub region: Region,
}

impl Expanded {
    /// Sets the region; tells whether it changed.
    pub fn update(&mut self, region: Region) -> (res: bool)
        ensures
            res == (old(self).region != region),
            final(self).region == region,
    {
        let changed = self.region != region;
        if changed {
            self.region = region;
        }
        changed
    }
}

} // verus!
