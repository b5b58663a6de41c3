use vstd::prelude::*;
use crate::geometry::{Level, Overzone, Pos, Zone, ZoneLevel};
use crate::vec_map::VecMap;

verus! {

/// From how near the player character has seen a zone level.
#[derive(Clone, Copy, Debug, PartialEq, Eq, Structural)]
pub enum SeenFrom {
    FarAway,
    CloseBy,
    Never,
}

/// What the player character has ever seen.
pub struct Explored {
    zone_levels: VecMap<ZoneLevel, SeenFrom>,
    pos: VecMap<Pos, bool>,
    loaded_overzones: VecMap<Overzone, ()>,
}

/// Zone levels above the ground count as the ground level.
pub open spec fn seen_zone_level(pos: Pos) -> ZoneLevel {
    ZoneLevel {
        zone: Zone::spec_from_pos(pos),
        level: if pos.level.h < 0 { pos.level } else { Level { h: 0 } },
    }
}

impl Explored {
    pub closed spec fn zone_levels(&self) -> Map<ZoneLevel, SeenFrom> {
        self.zone_levels@
    }

    pub closed spec fn positions(&self) -> Map<Pos, bool> {
        self.pos@
    }

    pub closed spec fn loaded_overzones(&self) -> Set<Overzone> {
        self.loaded_overzones@.dom()
    }

    pub closed spec fn wf(&self) -> bool {
        self.zone_levels.wf() && self.pos.wf() && self.loaded_overzones.wf()
    }

    /// Nothing seen yet.
    pub fn new() -> (res: Explored)
        ensures
            res.wf(),
            res.zone_levels() == Map::<ZoneLevel, SeenFrom>::empty(),
            res.positions() == Map::<Pos, bool>::empty(),
            res.loaded_overzones() == Set::<Overzone>::empty(),
    {
        Explored { zone_levels: VecMap::new(), pos: VecMap::new(), loaded_overzones: VecMap::new() }
    }

    /// Marks a position as seen from close by, and its zone level, lowered to
    /// the ground when above it.
    pub fn mark_pos_seen(&mut self, pos: Pos)
        requires
            old(self).wf(),
        ensures
            final(self).wf(),
            final(self).zone_levels() == old(self).zone_levels().insert(seen_zone_level(pos), SeenFrom::CloseBy),
            final(self).positions() == old(self).positions().insert(pos, true),
            final(self).loaded_overzones() == old(self).loaded_overzones(),
    {
        let level = if pos.level.h < 0 { pos.level } else { Level { h: 0 } };
        let zone_level = ZoneLevel { zone: Zone::from_pos(pos), level };
        self.zone_levels.insert(zone_level, SeenFrom::CloseBy);
        self.pos.insert(pos, true);
    }

    /// Marks a zone level as seen from far away, unless it was seen before;
    /// in either case also marks its overzone as loaded.
    pub fn mark_zone_level_seen(&mut self, zone_level: ZoneLevel)
        requires
            old(self).wf(),
        ensures
            final(self).wf(),
            final(self).positions() == old(self).positions(),
            old(self).zone_levels().contains_key(zone_level) ==> final(self).zone_levels() == old(self).zone_levels(),
            !old(self).zone_levels().contains_key(zone_level) ==> final(self).zone_levels() == old(self).zone_levels().insert(
                zone_level,
                SeenFrom::FarAway,
            ),
            final(self).loaded_overzones() == old(self).loaded_overzones().insert(zone_level.zone.spec_overzone()),
    {
        if !self.zone_levels.contains_key(&zone_level) {
            self.zone_levels.insert(zone_level, SeenFrom::FarAway);
        }
        self.loaded_overzones.insert(zone_level.zone.overzone(), ());
        assert(self.loaded_overzones@.dom() =~= old(self).loaded_overzones@.dom().insert(zone_level.zone.spec_overzone()));
    }

    pub open spec fn spec_has_zone_level_been_seen(&self, zone_level: ZoneLevel) -> Option<SeenFrom> {
        if self.zone_levels().contains_key(zone_level) {
            Some(self.zone_levels()[zone_level])
        } else if self.loaded_overzones().contains(zone_level.zone.spec_overzone()) {
            Some(SeenFrom::Never)
        } else {
            None
        }
    }

    /// How the zone level was seen; `Never` when it was not seen but its
    /// overzone is loaded; `None` when nothing is known.
    pub fn has_zone_level_been_seen(&self, zone_level: ZoneLevel) -> (res: Option<SeenFrom>)
        requires
            self.wf(),
        ensures
            res == self.spec_has_zone_level_been_seen(zone_level),
    {
        match self.zone_levels.get(&zone_level) {
            Some(seen) => Some(*seen),
            None => if self.loaded_overzones.contains_key(&zone_level.zone.overzone()) {
                Some(SeenFrom::Never)
            } else {
                None
            },
        }
    }

    /// The position was seen.
    pub fn has_pos_been_seen(&self, pos: Pos) -> (res: bool)
        requires
            self.wf(),
        ensures
            res == (self.positions().contains_key(pos) && self.positions()[pos]),
    {
        match self.pos.get(&pos) {
            Some(seen) => *seen,
            None => false,
        }
    }

    /// Something was explored.
    pub fn loaded(&self) -> (res: bool)
        requires
            self.wf(),
        ensures
            res == (self.zone_levels().dom() != Set::<ZoneLevel>::empty()),
    {
        !self.zone_levels.is_empty()
    }
}

/// Law: a position marked as seen has been seen, and its zone level (lowered
/// to the ground) counts as seen from close by.
pub proof fn law_seen_pos_is_remembered(before: Explored, after: Explored, pos: Pos)
    requires
        after.positions() == before.positions().insert(pos, true),
        after.zone_levels() == before.zone_levels().insert(seen_zone_level(pos), SeenFrom::CloseBy),
    ensures
        after.positions().contains_key(pos) && after.positions()[pos],
        after.spec_has_zone_level_been_seen(seen_zone_level(pos)) == Some(SeenFrom::CloseBy),
{
}

} // verus!
