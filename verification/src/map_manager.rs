use vstd::prelude::*;

verus! {

/// Whether an asset can be used.
#[derive(Clone, Copy, Debug, PartialEq, Eq, Structural)]
pub enum AssetStatus {
    Available,
    Loading,
    Nonexistent,
}

/// Keeps track of the map assets that are still loading, by handle id.
pub struct MapManager {
    loading: Vec<u64>,
}

impl MapManager {
    pub closed spec fn loading(&self) -> Seq<u64> {
        self.loading@
    }

    /// Nothing loading.
    pub fn new() -> (res: MapManager)
        ensures
            res.loading() == Seq::<u64>::empty(),
    {
        MapManager { loading: Vec::new() }
    }

    /// Records what became of a request for a map: a missing file gives
    /// nothing; a loaded asset is available and no longer loading; otherwise
    /// the handle is loading.
    pub fn request(&mut self, handle: u64, exists: bool, available: bool) -> (res: AssetStatus)
        ensures
            !exists ==> res == AssetStatus::Nonexistent && final(self).loading() == old(self).loading(),
            exists && available ==> res == AssetStatus::Available
                && final(self).loading() == old(self).loading().filter(|h: u64| h != handle),
            exists && !available ==> res == AssetStatus::Loading && final(self).loading() == old(self).loading().push(handle),
    {
        if !exists {
            AssetStatus::Nonexistent
        } else if available {
            self.mark_loaded(handle);
            AssetStatus::Available
        } else {
            self.loading.push(handle);
            AssetStatus::Loading
        }
    }

    /// The asset of the handle has loaded.
    pub fn mark_loaded(&mut self, handle: u64)
        ensures
            final(self).loading() == old(self).loading().filter(|h: u64| h != handle),
    {
        let mut kept: Vec<u64> = Vec::new();
        let mut i: usize = 0;
        while i < self.loading.len()
            invariant
                i <= self.loading@.len(),
                self.loading@ == old(self).loading@,
                kept@ == self.loading@.take(i as int).filter(|h: u64| h != handle),
            decreases self.loading@.len() - i,
        {
            let h = self.loading[i];
            proof {
                let s = self.loading@;
                assert(s.take(i + 1).drop_last() =~= s.take(i as int));
                reveal_with_fuel(Seq::filter, 1);
            }
            if h != handle {
                kept.push(h);
            }
            i += 1;
        }
        assert(self.loading@.take(self.loading@.len() as int) =~= self.loading@);
        self.loading = kept;
    }

    /// Nothing is loading any more.
    pub fn loaded(&self) -> (res: bool)
        ensures
            res == (self.loading().len() == 0),
    {
        self.loading.len() == 0
    }
}

} // verus!
