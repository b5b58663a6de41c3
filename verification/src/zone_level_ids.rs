use vstd::prelude::*;
use crate::geometry::{Level, Overzone, ZoneLevel, MAX_LEVEL, MIN_LEVEL};
use crate::vec_map::VecMap;

verus! {

/// The terrain of a zone level where no overmap was made: rock deep down,
/// solid earth just below the ground, fields on it and open air above.
pub open spec fn spec_fallback_terrain(level: Level) -> &'static str {
    if level.h <= -4 {
        "deep_rock"
    } else if level.h <= -2 {
        "empty_rock"
    } else if level.h == -1 {
        "solid_earth"
    } else if level.h == 0 {
        "field"
    } else {
        "open_air"
    }
}

/// The terrain of a zone level where no overmap was made.
pub fn fallback_terrain(level: Level) -> (res: &'static str)
    ensures
        res == spec_fallback_terrain(level),
{
    if level.h <= -4 {
        "deep_rock"
    } else if level.h <= -2 {
        "empty_rock"
    } else if level.h == -1 {
        "solid_earth"
    } else if level.h == 0 {
        "field"
    } else {
        "open_air"
    }
}

/// The overzone that holds the zone level.
pub open spec fn overzone_of(zone_level: ZoneLevel) -> Overzone {
    zone_level.zone.spec_overzone()
}

/// The terrain ids of the zone levels of the overzones that were loaded.
pub struct ZoneLevelIds {
    names: VecMap<ZoneLevel, String>,
    loaded_overzones: Vec<Overzone>,
    /// The loaded overzones without an overmap, which have the fallback terrain.
    fallback_overzones: Vec<Overzone>,
}

fn contains_overzone(overzones: &Vec<Overzone>, overzone: Overzone) -> (res: bool)
    ensures
        res == overzones@.contains(overzone),
{
    let mut i: usize = 0;
    while i < overzones.len()
        invariant
            i <= overzones@.len(),
            forall|j: int| 0 <= j < i ==> overzones@[j] != overzone,
        decreases overzones@.len() - i,
    {
        if overzones[i] == overzone {
            return true;
        }
        i += 1;
    }
    false
}

impl ZoneLevelIds {
    pub closed spec fn names(&self) -> Map<ZoneLevel, String> {
        self.names@
    }

    pub closed spec fn loaded_overzones(&self) -> Seq<Overzone> {
        self.loaded_overzones@
    }

    pub closed spec fn fallback_overzones(&self) -> Seq<Overzone> {
        self.fallback_overzones@
    }

    pub closed spec fn wf(&self) -> bool {
        self.names.wf()
    }

    /// Nothing loaded.
    pub fn new() -> (res: ZoneLevelIds)
        ensures
            res.wf(),
            res.names() == Map::<ZoneLevel, String>::empty(),
            res.loaded_overzones() == Seq::<Overzone>::empty(),
            res.fallback_overzones() == Seq::<Overzone>::empty(),
    {
        ZoneLevelIds { names: VecMap::new(), loaded_overzones: Vec::new(), fallback_overzones: Vec::new() }
    }

    /// The terrain id of the zone level: the one loaded for it, else the
    /// fallback terrain where its overzone had no overmap.
    pub open spec fn spec_get(&self, zone_level: ZoneLevel) -> Option<Seq<char>> {
        if self.names().contains_key(zone_level) {
            Some(self.names()[zone_level]@)
        } else if self.fallback_overzones().contains(overzone_of(zone_level)) {
            Some(spec_fallback_terrain(zone_level.level)@)
        } else {
            None
        }
    }

    /// The terrain id of the zone level, if its overzone was loaded.
    pub fn get(&self, zone_level: ZoneLevel) -> (res: Option<String>)
        requires
            self.wf(),
        ensures
            match res {
                Some(id) => self.spec_get(zone_level) == Some(id@),
                None => self.spec_get(zone_level) is None,
            },
    {
        match self.names.get(&zone_level) {
            Some(name) => Some(name.clone()),
            None => {
                if contains_overzone(&self.fallback_overzones, zone_level.zone.overzone()) {
                    Some(String::from_str(fallback_terrain(zone_level.level)))
                } else {
                    None
                }
            },
        }
    }

    /// Takes the terrain ids of the overzone from its overmap, once.
    pub fn load(&mut self, overzone: Overzone, names: Vec<(ZoneLevel, String)>)
        requires
            old(self).wf(),
        ensures
            final(self).wf(),
            old(self).loaded_overzones().contains(overzone) ==> *final(self) == *old(self),
            !old(self).loaded_overzones().contains(overzone) ==> {
                &&& final(self).loaded_overzones() == old(self).loaded_overzones().push(overzone)
                &&& final(self).fallback_overzones() == old(self).fallback_overzones()
                &&& final(self).names() == names_after(old(self).names(), names@, names@.len())
            },
    {
        if contains_overzone(&self.loaded_overzones, overzone) {
            return;
        }
        let mut rest = names;
        let ghost all = rest@;
        let n = rest.len();
        let mut done: usize = 0;
        while rest.len() > 0
            invariant
                all.len() == n,
                done + rest@.len() == n,
                rest@ == all.skip(done as int),
                self.names.wf(),
                self.names@ == names_after(old(self).names(), all, done as nat),
                self.loaded_overzones@ == old(self).loaded_overzones(),
                self.fallback_overzones@ == old(self).fallback_overzones(),
            decreases rest@.len(),
        {
            let (zone_level, name) = rest.remove(0);
            proof {
                assert(rest@ =~= all.skip(done + 1));
            }
            self.names.insert(zone_level, name);
            done += 1;
        }
        self.loaded_overzones.push(overzone);
    }

    /// Gives an overzone without an overmap the fallback terrain, once.
    pub fn create_missing(&mut self, overzone: Overzone)
        requires
            old(self).wf(),
        ensures
            final(self).wf(),
            old(self).loaded_overzones().contains(overzone) ==> *final(self) == *old(self),
            !old(self).loaded_overzones().contains(overzone) ==> {
                &&& final(self).loaded_overzones() == old(self).loaded_overzones().push(overzone)
                &&& final(self).fallback_overzones() == old(self).fallback_overzones().push(overzone)
                &&& final(self).names() == old(self).names()
            },
    {
        if contains_overzone(&self.loaded_overzones, overzone) {
            return;
        }
        self.fallback_overzones.push(overzone);
        self.loaded_overzones.push(overzone);
    }
}

/// The names after setting those of the first `k` pairs, in order.
pub open spec fn names_after(names: Map<ZoneLevel, String>, pairs: Seq<(ZoneLevel, String)>, k: nat) -> Map<ZoneLevel, String>
    decreases k,
{
    if k == 0 || k > pairs.len() {
        names
    } else {
        names_after(names, pairs, (k - 1) as nat).insert(pairs[k - 1].0, pairs[k - 1].1)
    }
}

/// Law: a zone level of an overzone without an overmap, that nothing else
/// named, has the fallback terrain of its level.
pub proof fn law_missing_overzone_has_fallback(ids: ZoneLevelIds, zone_level: ZoneLevel)
    requires
        ids.fallback_overzones().contains(overzone_of(zone_level)),
        !ids.names().contains_key(zone_level),
    ensures
        ids.spec_get(zone_level) == Some(spec_fallback_terrain(zone_level.level)@),
{
}

} // verus!
