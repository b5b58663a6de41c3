use vstd::prelude::*;
use crate::geometry::{SubzoneLevel, ZoneLevel};
use crate::units::EntityId;
use crate::vec_map::VecMap;

verus! {

/// The entities that stand for the loaded subzone levels, both ways.
pub struct SubzoneLevelEntities {
    subzone_levels: VecMap<SubzoneLevel, EntityId>,
    reverse: VecMap<EntityId, SubzoneLevel>,
}

impl SubzoneLevelEntities {
    pub closed spec fn entities(&self) -> Map<SubzoneLevel, EntityId> {
        self.subzone_levels@
    }

    pub closed spec fn levels(&self) -> Map<EntityId, SubzoneLevel> {
        self.reverse@
    }

    /// Both maps are each other's inverse.
    pub closed spec fn wf(&self) -> bool {
        &&& self.subzone_levels.wf()
        &&& self.reverse.wf()
        &&& forall|s: SubzoneLevel| #[trigger] self.subzone_levels@.contains_key(s)
            ==> self.reverse@.contains_key(self.subzone_levels@[s]) && self.reverse@[self.subzone_levels@[s]] == s
        &&& forall|e: EntityId| #[trigger] self.reverse@.contains_key(e)
            ==> self.subzone_levels@.contains_key(self.reverse@[e]) && self.subzone_levels@[self.reverse@[e]] == e
    }

    /// Law: every operation keeps both directions consistent.
    pub proof fn law_bijection(&self, s: SubzoneLevel, e: EntityId)
        requires
            self.wf(),
        ensures
            (self.entities().contains_key(s) && self.entities()[s] == e) <==> (self.levels().contains_key(e)
                && self.levels()[e] == s),
    {
    }

    /// Nothing loaded.
    pub fn new() -> (res: SubzoneLevelEntities)
        ensures
            res.wf(),
            res.entities() == Map::<SubzoneLevel, EntityId>::empty(),
            res.levels() == Map::<EntityId, SubzoneLevel>::empty(),
    {
        SubzoneLevelEntities { subzone_levels: VecMap::new(), reverse: VecMap::new() }
    }

    /// The entity of the subzone level, if it is loaded.
    pub fn get(&self, subzone_level: SubzoneLevel) -> (res: Option<EntityId>)
        requires
            self.wf(),
        ensures
            res == (if self.entities().contains_key(subzone_level) { Some(self.entities()[subzone_level]) } else { None }),
    {
        match self.subzone_levels.get(&subzone_level) {
            Some(e) => Some(*e),
            None => None,
        }
    }

    /// Registers a new subzone level entity; neither may be known yet.
    pub fn add(&mut self, subzone_level: SubzoneLevel, entity: EntityId)
        requires
            old(self).wf(),
            !old(self).entities().contains_key(subzone_level),
            !old(self).levels().contains_key(entity),
        ensures
            final(self).wf(),
            final(self).entities() == old(self).entities().insert(subzone_level, entity),
            final(self).levels() == old(self).levels().insert(entity, subzone_level),
    {
        self.subzone_levels.insert(subzone_level, entity);
        self.reverse.insert(entity, subzone_level);
    }

    /// Forgets a registered subzone level entity.
    pub fn remove(&mut self, entity: EntityId)
        requires
            old(self).wf(),
            old(self).levels().contains_key(entity),
        ensures
            final(self).wf(),
            final(self).entities() == old(self).entities().remove(old(self).levels()[entity]),
            final(self).levels() == old(self).levels().remove(entity),
    {
        let subzone_level = match self.reverse.remove(&entity) {
            Some(s) => s,
            None => {
                assert(false);
                return;
            },
        };
        self.subzone_levels.remove(&subzone_level);
    }

    /// Some subzone level is loaded.
    pub fn loaded(&self) -> (res: bool)
        requires
            self.wf(),
        ensures
            res == (self.entities().dom() != Set::<SubzoneLevel>::empty()),
    {
        !self.subzone_levels.is_empty()
    }
}

/// The entities that stand for the spawned zone levels.
pub struct ZoneLevelEntities {
    zone_levels: VecMap<ZoneLevel, EntityId>,
}

impl ZoneLevelEntities {
    pub closed spec fn entities(&self) -> Map<ZoneLevel, EntityId> {
        self.zone_levels@
    }

    pub closed spec fn wf(&self) -> bool {
        self.zone_levels.wf()
    }

    /// Nothing spawned.
    pub fn new() -> (res: ZoneLevelEntities)
        ensures
            res.wf(),
            res.entities() == Map::<ZoneLevel, EntityId>::empty(),
    {
        ZoneLevelEntities { zone_levels: VecMap::new() }
    }

    /// Registers the entity of a newly spawned zone level; it may not be known yet.
    pub fn add(&mut self, zone_level: ZoneLevel, entity: EntityId)
        requires
            old(self).wf(),
            !old(self).entities().contains_key(zone_level),
        ensures
            final(self).wf(),
            final(self).entities() == old(self).entities().insert(zone_level, entity),
    {
        self.zone_levels.insert(zone_level, entity);
    }

    /// Forgets the entity of a despawned zone level; false when it was unknown.
    pub fn remove(&mut self, zone_level: ZoneLevel) -> (res: bool)
        requires
            old(self).wf(),
        ensures
            final(self).wf(),
            final(self).entities() == old(self).entities().remove(zone_level),
            res == old(self).entities().contains_key(zone_level),
    {
        self.zone_levels.remove(&zone_level).is_some()
    }

    /// The entity of the zone level, if it is spawned.
    pub fn get(&self, zone_level: ZoneLevel) -> (res: Option<EntityId>)
        requires
            self.wf(),
        ensures
            res == (if self.entities().contains_key(zone_level) { Some(self.entities()[zone_level]) } else { None }),
    {
        match self.zone_levels.get(&zone_level) {
            Some(e) => Some(*e),
            None => None,
        }
    }
}

} // verus!
