use vstd::prelude::*;
use crate::geometry::Pos;
use crate::units::EntityId;
use crate::vec_map::VecMap;

verus! {

/// Which entities stand on which position, both ways.
pub struct Location {
    objects: VecMap<Pos, Vec<EntityId>>,
    positions: VecMap<EntityId, Pos>,
}

impl Location {
    /// The entities on each position that ever held one; oldest first, up to
    /// removals.
    pub closed spec fn objects(&self) -> Map<Pos, Seq<EntityId>> {
        self.objects@.map_values(|v: Vec<EntityId>| v@)
    }

    /// The position of each placed entity.
    pub closed spec fn positions(&self) -> Map<EntityId, Pos> {
        self.positions@
    }

    /// Each placed entity stands exactly once on its position, and only placed
    /// entities stand anywhere.
    pub open spec fn wf(&self) -> bool {
        &&& self.inner_wf()
        &&& forall|e: EntityId| #[trigger] self.positions().contains_key(e) ==> self.objects().contains_key(self.positions()[e])
            && self.objects()[self.positions()[e]].contains(e)
        &&& forall|p: Pos, i: int| self.objects().contains_key(p) && 0 <= i < self.objects()[p].len()
            ==> self.positions().contains_key(#[trigger] self.objects()[p][i]) && self.positions()[self.objects()[p][i]] == p
        &&& forall|p: Pos, i: int, j: int| self.objects().contains_key(p) && 0 <= i < j < self.objects()[p].len()
            ==> #[trigger] self.objects()[p][i] != #[trigger] self.objects()[p][j]
    }

    pub closed spec fn inner_wf(&self) -> bool {
        self.objects.wf() && self.positions.wf()
    }

    /// The entities on `pos`.
    pub open spec fn spec_all(&self, pos: Pos) -> Seq<EntityId> {
        if self.objects().contains_key(pos) { self.objects()[pos] } else { Seq::empty() }
    }

    /// Nothing placed.
    pub fn new() -> (res: Location)
        ensures
            res.wf(),
            res.objects() == Map::<Pos, Seq<EntityId>>::empty(),
            res.positions() == Map::<EntityId, Pos>::empty(),
    {
        let res = Location { objects: VecMap::new(), positions: VecMap::new() };
        assert(res.objects() =~= Map::<Pos, Seq<EntityId>>::empty());
        res
    }

    /// Places an entity that was not placed yet.
    pub fn add(&mut self, pos: Pos, entity: EntityId)
        requires
            old(self).wf(),
            !old(self).positions().contains_key(entity),
        ensures
            final(self).wf(),
            final(self).positions() == old(self).positions().insert(entity, pos),
            final(self).spec_all(pos) == old(self).spec_all(pos).push(entity),
            forall|p: Pos| p != pos ==> #[trigger] final(self).spec_all(p) == old(self).spec_all(p),
    {
        let ghost before = *self;
        let mut here = match self.objects.remove(&pos) {
            Some(v) => v,
            None => Vec::new(),
        };
        let ghost here_before = here@;
        assert(here_before == before.spec_all(pos));
        here.push(entity);
        self.objects.insert(pos, here);
        self.positions.insert(entity, pos);
        proof {
            assert(self.objects@ == before.objects@.insert(pos, here));
            assert forall|p: Pos| #[trigger] self.objects().contains_key(p) == (before.objects().contains_key(p) || p == pos) by {}
            assert forall|p: Pos| self.objects().contains_key(p) implies #[trigger] self.objects()[p] == (if p == pos {
                here_before.push(entity)
            } else {
                before.objects()[p]
            }) by {}
            assert forall|e: EntityId| #[trigger] self.positions().contains_key(e) implies self.objects().contains_key(self.positions()[e])
                && self.objects()[self.positions()[e]].contains(e) by {
                if e == entity {
                    assert(self.objects()[pos][here_before.len() as int] == entity);
                } else {
                    let p = before.positions()[e];
                    assert(before.objects()[p].contains(e));
                    if p == pos {
                        let k = choose|k: int| 0 <= k < before.objects()[p].len() && before.objects()[p][k] == e;
                        assert(self.objects()[pos][k] == e);
                    }
                }
            }
            assert forall|p: Pos, i: int| self.objects().contains_key(p) && 0 <= i < self.objects()[p].len()
                implies self.positions().contains_key(#[trigger] self.objects()[p][i]) && self.positions()[self.objects()[p][i]] == p by {
                if p == pos && i == here_before.len() {
                } else if p == pos {
                    assert(self.objects()[p][i] == before.objects()[p][i]);
                } else {
                    assert(self.objects()[p][i] == before.objects()[p][i]);
                }
            }
            assert forall|p: Pos, i: int, j: int| self.objects().contains_key(p) && 0 <= i < j < self.objects()[p].len()
                implies #[trigger] self.objects()[p][i] != #[trigger] self.objects()[p][j] by {
                if p == pos && j == here_before.len() {
                    assert(self.objects()[p][i] == before.objects()[p][i]);
                    assert(before.positions().contains_key(before.objects()[p][i]));
                } else if p == pos {
                    assert(self.objects()[p][i] == before.objects()[p][i]);
                    assert(self.objects()[p][j] == before.objects()[p][j]);
                } else {
                    assert(self.objects()[p][i] == before.objects()[p][i]);
                    assert(self.objects()[p][j] == before.objects()[p][j]);
                }
            }
        }
    }

    /// Takes an entity off its position, if it is placed.
    pub fn remove(&mut self, entity: EntityId)
        requires
            old(self).wf(),
        ensures
            final(self).wf(),
            final(self).positions() == old(self).positions().remove(entity),
            old(self).positions().contains_key(entity) ==> {
                let p = old(self).positions()[entity];
                let here = old(self).spec_all(p);
                &&& exists|i: int| 0 <= i < here.len() && here[i] == entity
                    && final(self).spec_all(p) == here.update(i, here.last()).drop_last()
                &&& forall|q: Pos| q != p ==> #[trigger] final(self).spec_all(q) == old(self).spec_all(q)
            },
            !old(self).positions().contains_key(entity) ==> forall|q: Pos| #[trigger] final(self).spec_all(q) == old(self).spec_all(q),
    {
        let ghost before = *self;
        let prev = match self.positions.get(&entity) {
            Some(p) => *p,
            None => {
                assert forall|q: Pos| #[trigger] self.spec_all(q) == before.spec_all(q) by {}
                return;
            },
        };
        assert(before.positions().contains_key(entity));
        assert(before.objects().contains_key(prev));
        assert(before.objects@.contains_key(prev));
        let mut here = match self.objects.remove(&prev) {
            Some(v) => v,
            None => {
                assert(false);
                return;
            },
        };
        let ghost here_before = here@;
        assert(here_before == before.objects()[prev]);
        let mut index: usize = 0;
        while index < here.len() && here[index] != entity
            invariant
                here@ == here_before,
                here_before.contains(entity),
                index <= here@.len(),
                forall|j: int| 0 <= j < index ==> here@[j] != entity,
            decreases here@.len() - index,
        {
            index += 1;
        }
        if index >= here.len() {
            assert(false);
            return;
        }
        here.swap_remove(index);
        let ghost here_after = here@;
        self.objects.insert(prev, here);
        self.positions.remove(&entity);
        proof {
            let n = here_before.len();
            assert(self.objects@ == before.objects@.insert(prev, here));
            assert forall|p: Pos| #[trigger] self.objects().contains_key(p) == before.objects().contains_key(p) by {}
            assert forall|p: Pos| self.objects().contains_key(p) implies #[trigger] self.objects()[p] == (if p == prev {
                here_after
            } else {
                before.objects()[p]
            }) by {}
            assert forall|j: int| 0 <= j < here_after.len() implies #[trigger] here_after[j] == (if j == index {
                here_before[n - 1]
            } else {
                here_before[j]
            }) by {}
            assert forall|a: int, b: int| 0 <= a < b < n implies #[trigger] here_before[a] != #[trigger] here_before[b] by {
                assert(before.objects()[prev][a] == here_before[a]);
                assert(before.objects()[prev][b] == here_before[b]);
            }
            // the removed entity is gone, the others stay
            assert forall|j: int| 0 <= j < here_after.len() implies #[trigger] here_after[j] != entity by {
                if j == index {
                    assert(n - 1 != index);
                    assert(here_before[n - 1] != here_before[index as int]);
                } else {
                    assert(here_before[j] != here_before[index as int]);
                }
            }
            assert forall|e: EntityId| #[trigger] self.positions().contains_key(e) implies self.objects().contains_key(self.positions()[e])
                && self.objects()[self.positions()[e]].contains(e) by {
                let p = before.positions()[e];
                assert(before.objects()[p].contains(e));
                if p == prev {
                    let k = choose|k: int| 0 <= k < here_before.len() && here_before[k] == e;
                    assert(e != entity);
                    assert(k != index);
                    if k == n - 1 {
                        assert(here_after[index as int] == e);
                    } else {
                        assert(here_after[k] == e);
                    }
                }
            }
            assert forall|p: Pos, i: int| self.objects().contains_key(p) && 0 <= i < self.objects()[p].len()
                implies self.positions().contains_key(#[trigger] self.objects()[p][i]) && self.positions()[self.objects()[p][i]] == p by {
                if p == prev {
                    let i2 = if i == index { n - 1 } else { i };
                    assert(self.objects()[p][i] == here_before[i2]);
                    assert(before.positions().contains_key(here_before[i2]));
                    assert(here_before[i2] != entity);
                } else {
                    assert(self.objects()[p][i] == before.objects()[p][i]);
                    assert(before.objects()[p][i] != entity);
                }
            }
            assert forall|p: Pos, i: int, j: int| self.objects().contains_key(p) && 0 <= i < j < self.objects()[p].len()
                implies #[trigger] self.objects()[p][i] != #[trigger] self.objects()[p][j] by {
                if p == prev {
                    let i2 = if i == index { n - 1 } else { i };
                    let j2 = if j == index { n - 1 } else { j };
                    assert(self.objects()[p][i] == here_before[i2]);
                    assert(self.objects()[p][j] == here_before[j2]);
                    if i2 < j2 {
                        assert(here_before[i2] != here_before[j2]);
                    } else {
                        assert(here_before[j2] != here_before[i2]);
                    }
                } else {
                    assert(self.objects()[p][i] == before.objects()[p][i]);
                    assert(self.objects()[p][j] == before.objects()[p][j]);
                }
            }
            assert(here_before[index as int] == entity);
            assert(self.spec_all(prev) == here_before.update(index as int, here_before.last()).drop_last());
            assert(before.positions()[entity] == prev);
            assert(before.spec_all(prev) == here_before);
            let i = index as int;
            assert(0 <= i < here_before.len() && here_before[i] == entity
                && self.spec_all(prev) == here_before.update(i, here_before.last()).drop_last());
            assert forall|q: Pos| q != prev implies #[trigger] self.spec_all(q) == before.spec_all(q) by {}
        }
    }
}


impl Location {
    /// Moves an entity to `to`; an unplaced entity becomes placed there.
    pub fn move_(&mut self, entity: EntityId, to: Pos)
        requires
            old(self).wf(),
        ensures
            final(self).wf(),
            final(self).positions() == old(self).positions().insert(entity, to),
            final(self).spec_all(to).last() == entity,
            final(self).spec_all(to).contains(entity),
    {
        self.remove(entity);
        self.add(to, entity);
        proof {
            let all = self.spec_all(to);
            assert(all[all.len() - 1] == entity);
        }
    }

    /// The entities on `pos`.
    pub fn all(&self, pos: Pos) -> (res: &[EntityId])
        requires
            self.wf(),
        ensures
            res@ == self.spec_all(pos),
    {
        match self.objects.get(&pos) {
            Some(v) => v.as_slice(),
            None => &[],
        }
    }

    /// The position of an entity, if it is placed.
    pub fn position(&self, entity: EntityId) -> (res: Option<Pos>)
        requires
            self.wf(),
        ensures
            res == (if self.positions().contains_key(entity) { Some(self.positions()[entity]) } else { None }),
    {
        match self.positions.get(&entity) {
            Some(p) => Some(*p),
            None => None,
        }
    }
}

/// Law: an entity stands on a position exactly when that is its position, and
/// never twice on it.
pub proof fn law_location_consistent(location: Location, entity: EntityId, pos: Pos)
    requires
        location.wf(),
    ensures
        location.spec_all(pos).contains(entity) <==> (location.positions().contains_key(entity)
            && location.positions()[entity] == pos),
        forall|i: int, j: int| 0 <= i < j < location.spec_all(pos).len()
            ==> location.spec_all(pos)[i] != location.spec_all(pos)[j],
{
    if location.spec_all(pos).contains(entity) {
        let i = choose|i: int| 0 <= i < location.spec_all(pos).len() && location.spec_all(pos)[i] == entity;
        assert(location.objects()[pos][i] == entity);
    }
    assert forall|i: int, j: int| 0 <= i < j < location.spec_all(pos).len()
        implies location.spec_all(pos)[i] != location.spec_all(pos)[j] by {
        assert(location.objects()[pos][i] == location.spec_all(pos)[i]);
        assert(location.objects()[pos][j] == location.spec_all(pos)[j]);
    }
}

} // verus!
