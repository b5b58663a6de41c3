use vstd::prelude::*;
use crate::units::{EntityId, Milliseconds, Timestamp};

verus! {

/// When each character may act next. Keeps at most one entry per entity.
pub struct Timeouts {
    start: Timestamp,
    m: Vec<(EntityId, Timestamp)>,
}

/// The smallest timestamp of the entries, or `fallback` when there are none.
pub open spec fn min_timestamp(entries: Seq<(EntityId, Timestamp)>, fallback: Timestamp) -> Timestamp
    decreases entries.len(),
{
    if entries.len() == 0 {
        fallback
    } else {
        let rest = min_timestamp(entries.drop_last(), fallback);
        if entries.len() == 1 || entries.last().1.ms < rest.ms {
            entries.last().1
        } else {
            rest
        }
    }
}

pub proof fn lemma_min_timestamp(entries: Seq<(EntityId, Timestamp)>, fallback: Timestamp)
    ensures
        entries.len() == 0 ==> min_timestamp(entries, fallback) == fallback,
        entries.len() > 0 ==> exists|i: int| 0 <= i < entries.len() && entries[i].1 == min_timestamp(entries, fallback),
        forall|i: int| 0 <= i < entries.len() ==> min_timestamp(entries, fallback).ms <= (#[trigger] entries[i]).1.ms,
    decreases entries.len(),
{
    if entries.len() > 0 {
        let rest = entries.drop_last();
        lemma_min_timestamp(rest, fallback);
        assert forall|i: int| 0 <= i < entries.len() implies min_timestamp(entries, fallback).ms <= (#[trigger] entries[i]).1.ms by {
            if i < entries.len() - 1 {
                assert(entries[i] == rest[i]);
            }
        }
        if entries.len() > 1 && !(entries.last().1.ms < min_timestamp(rest, fallback).ms) {
            let k = choose|k: int| 0 <= k < rest.len() && rest[k].1 == min_timestamp(rest, fallback);
            assert(entries[k] == rest[k]);
        } else {
            assert(entries[entries.len() - 1] == entries.last());
        }
    }
}

/// Orders candidates by timeout, then by entity.
pub open spec fn earlier(a: (Timestamp, EntityId), b: (Timestamp, EntityId)) -> bool {
    a.0.ms < b.0.ms || (a.0.ms == b.0.ms && a.1.bits <= b.1.bits)
}

impl Timeouts {
    pub closed spec fn entries(&self) -> Seq<(EntityId, Timestamp)> {
        self.m@
    }

    pub closed spec fn start(&self) -> Timestamp {
        self.start
    }

    /// No entity has two entries.
    pub open spec fn wf(&self) -> bool {
        forall|i: int, j: int|
            0 <= i < self.entries().len() && 0 <= j < self.entries().len() && i != j
                ==> #[trigger] self.entries()[i].0 != #[trigger] self.entries()[j].0
    }

    pub open spec fn tracks(&self, entity: EntityId) -> bool {
        exists|i: int| 0 <= i < self.entries().len() && #[trigger] self.entries()[i].0 == entity
    }

    /// The timeout of a tracked entity.
    pub open spec fn timeout(&self, entity: EntityId) -> Timestamp {
        self.entries()[choose|i: int| 0 <= i < self.entries().len() && #[trigger] self.entries()[i].0 == entity].1
    }

    pub proof fn lemma_timeout(&self, i: int)
        requires
            self.wf(),
            0 <= i < self.entries().len(),
        ensures
            self.tracks(self.entries()[i].0),
            self.timeout(self.entries()[i].0) == self.entries()[i].1,
    {
        let e = self.entries()[i].0;
        assert(self.tracks(e));
        let k = choose|k: int| 0 <= k < self.entries().len() && #[trigger] self.entries()[k].0 == e;
        assert(self.entries()[k].0 == self.entries()[i].0);
    }

    /// The current time: the earliest timeout, or the start time when no
    /// entity is tracked.
    pub open spec fn spec_time(&self) -> Timestamp {
        min_timestamp(self.entries(), self.start())
    }

    /// Tracks nothing yet; the time is `timestamp`.
    pub fn new(timestamp: Timestamp) -> (res: Timeouts)
        ensures
            res.wf(),
            res.start() == timestamp,
            forall|e: EntityId| !res.tracks(e),
            res.spec_time() == timestamp,
    {
        Timeouts { start: timestamp, m: Vec::new() }
    }

    fn index_of(&self, entity: EntityId) -> (res: Option<usize>)
        requires
            self.wf(),
        ensures
            res matches Some(i) ==> i < self.entries().len() && self.entries()[i as int].0 == entity,
            res is None ==> !self.tracks(entity),
    {
        let mut i: usize = 0;
        while i < self.m.len()
            invariant
                i <= self.m@.len(),
                forall|j: int| 0 <= j < i ==> self.m@[j].0 != entity,
            decreases self.m@.len() - i,
        {
            if self.m[i].0 == entity {
                return Some(i);
            }
            i += 1;
        }
        None
    }

    /// Postpones the next action of a tracked entity by `timeout`.
    pub fn add(&mut self, entity: EntityId, timeout: Milliseconds)
        requires
            old(self).wf(),
            old(self).tracks(entity),
            old(self).timeout(entity).ms + timeout.ms <= u64::MAX,
        ensures
            final(self).wf(),
            final(self).start() == old(self).start(),
            forall|e: EntityId| #[trigger] final(self).tracks(e) == old(self).tracks(e),
            final(self).timeout(entity).ms == old(self).timeout(entity).ms + timeout.ms,
            forall|e: EntityId| e != entity && old(self).tracks(e) ==> #[trigger] final(self).timeout(e) == old(self).timeout(e),
    {
        let i = match self.index_of(entity) {
            Some(i) => i,
            None => {
                assert(false);
                0
            },
        };
        proof {
            self.lemma_timeout(i as int);
        }
        let ghost before = *self;
        let (e, t) = self.m[i];
        self.m.set(i, (e, t.plus(timeout)));
        proof {
            assert forall|a: int, b: int|
                0 <= a < self.entries().len() && 0 <= b < self.entries().len() && a != b
                    implies #[trigger] self.entries()[a].0 != #[trigger] self.entries()[b].0 by {
                assert(before.entries()[a].0 == self.entries()[a].0);
                assert(before.entries()[b].0 == self.entries()[b].0);
            }
            self.lemma_timeout(i as int);
            assert forall|x: EntityId| #[trigger] self.tracks(x) == before.tracks(x) by {
                if before.tracks(x) {
                    let k = choose|k: int| 0 <= k < before.entries().len() && #[trigger] before.entries()[k].0 == x;
                    assert(self.entries()[k].0 == x);
                }
                if self.tracks(x) {
                    let k = choose|k: int| 0 <= k < self.entries().len() && #[trigger] self.entries()[k].0 == x;
                    assert(before.entries()[k].0 == x);
                }
            }
            assert forall|x: EntityId| x != entity && before.tracks(x) implies #[trigger] self.timeout(x) == before.timeout(x) by {
                let k = choose|k: int| 0 <= k < before.entries().len() && #[trigger] before.entries()[k].0 == x;
                before.lemma_timeout(k);
                assert(self.entries()[k] == before.entries()[k]);
                self.lemma_timeout(k);
            }
        }
    }

    /// The current time: the earliest timeout, or the start time when no
    /// entity is tracked.
    pub fn time(&self) -> (res: Timestamp)
        ensures
            res == self.spec_time(),
    {
        let mut best = self.start;
        let mut i: usize = 0;
        while i < self.m.len()
            invariant
                i <= self.m@.len(),
                best == min_timestamp(self.m@.take(i as int), self.start),
            decreases self.m@.len() - i,
        {
            let t = self.m[i].1;
            proof {
                assert(self.m@.take(i + 1).drop_last() =~= self.m@.take(i as int));
                assert(self.m@.take(i + 1).last() == self.m@[i as int]);
            }
            if i == 0 || t.ms < best.ms {
                best = t;
            }
            i += 1;
        }
        assert(self.m@.take(self.m@.len() as int) =~= self.m@);
        best
    }
}


/// The entries whose entity is among `entities`, in order.
pub open spec fn kept_entries(entries: Seq<(EntityId, Timestamp)>, entities: Seq<EntityId>) -> Seq<(EntityId, Timestamp)>
    decreases entries.len(),
{
    if entries.len() == 0 {
        Seq::empty()
    } else {
        let rest = kept_entries(entries.drop_last(), entities);
        if entities.contains(entries.last().0) {
            rest.push(entries.last())
        } else {
            rest
        }
    }
}

fn slice_contains(s: &[EntityId], x: EntityId) -> (res: bool)
    ensures
        res == s@.contains(x),
{
    let mut i: usize = 0;
    while i < s.len()
        invariant
            i <= s@.len(),
            forall|j: int| 0 <= j < i ==> s@[j] != x,
        decreases s@.len() - i,
    {
        if s[i] == x {
            return true;
        }
        i += 1;
    }
    false
}

impl Timeouts {
    /// The time after forgetting the entities that are not among `entities`.
    pub open spec fn time_among(&self, entities: Seq<EntityId>) -> Timestamp {
        min_timestamp(kept_entries(self.entries(), entities), self.start())
    }

    /// Forgets the entities that are not among `entities`, gives the untracked
    /// ones among them the current time as timeout, and returns the one that
    /// acts next: the earliest timeout, ties broken by the entity.
    pub fn next(&mut self, entities: &[EntityId]) -> (res: Option<EntityId>)
        requires
            old(self).wf(),
        ensures
            final(self).wf(),
            final(self).start() == old(self).start(),
            forall|e: EntityId| #[trigger] final(self).tracks(e) == entities@.contains(e),
            forall|e: EntityId| #[trigger] entities@.contains(e) ==> final(self).timeout(e) == (if old(self).tracks(e) {
                old(self).timeout(e)
            } else {
                old(self).time_among(entities@)
            }),
            entities@.len() == 0 <==> res is None,
            res matches Some(e) ==> entities@.contains(e) && forall|i: int| 0 <= i < entities@.len()
                ==> earlier((final(self).timeout(e), e), (final(self).timeout(#[trigger] entities@[i]), entities@[i])),
    {
        let ghost old_self = *self;
        // forget the entities that are gone
        let mut kept: Vec<(EntityId, Timestamp)> = Vec::new();
        let mut i: usize = 0;
        while i < self.m.len()
            invariant
                *self == old_self,
                old_self.wf(),
                i <= self.m@.len(),
                kept@ == kept_entries(self.m@.take(i as int), entities@),
                forall|a: int, b: int| 0 <= a < kept@.len() && 0 <= b < kept@.len() && a != b
                    ==> #[trigger] kept@[a].0 != #[trigger] kept@[b].0,
                forall|a: int| 0 <= a < kept@.len() ==> exists|j: int| 0 <= j < i && self.m@[j] == #[trigger] kept@[a],
            decreases self.m@.len() - i,
        {
            let entry = self.m[i];
            proof {
                assert(self.m@.take(i + 1).drop_last() =~= self.m@.take(i as int));
                assert(self.m@.take(i + 1).last() == self.m@[i as int]);
            }
            if slice_contains(entities, entry.0) {
                let ghost before = kept@;
                kept.push(entry);
                proof {
                    assert forall|a: int, b: int| 0 <= a < kept@.len() && 0 <= b < kept@.len() && a != b
                        implies #[trigger] kept@[a].0 != #[trigger] kept@[b].0 by {
                        if a < before.len() && b < before.len() {
                            assert(kept@[a] == before[a]);
                            assert(kept@[b] == before[b]);
                        } else if a < before.len() {
                            assert(kept@[a] == before[a]);
                            let j = choose|j: int| 0 <= j < i && self.m@[j] == #[trigger] before[a];
                            assert(self.entries()[j].0 != self.entries()[i as int].0);
                        } else if b < before.len() {
                            assert(kept@[b] == before[b]);
                            let j = choose|j: int| 0 <= j < i && self.m@[j] == #[trigger] before[b];
                            assert(self.entries()[j].0 != self.entries()[i as int].0);
                        }
                    }
                    assert forall|a: int| 0 <= a < kept@.len() implies exists|j: int| 0 <= j < i + 1 && self.m@[j] == #[trigger] kept@[a] by {
                        if a < before.len() {
                            assert(kept@[a] == before[a]);
                            let j = choose|j: int| 0 <= j < i && self.m@[j] == #[trigger] before[a];
                            assert(self.m@[j] == kept@[a]);
                        } else {
                            assert(self.m@[i as int] == kept@[a]);
                        }
                    }
                }
            }
            i += 1;
        }
        proof {
            assert(self.m@.take(self.m@.len() as int) =~= self.m@);
        }
        let ghost kept_seq = kept@;
        proof {
            // tracking among the kept entries
            assert forall|e: EntityId| (exists|a: int| 0 <= a < kept_seq.len() && #[trigger] kept_seq[a].0 == e)
                <==> (old_self.tracks(e) && entities@.contains(e)) by {
                lemma_kept_entries(old_self.entries(), entities@, e);
            }
        }
        self.m = kept;
        proof {
            assert(self.entries() == kept_seq);
            assert forall|e: EntityId| #[trigger] self.tracks(e) == ((old_self.tracks(e) && entities@.contains(e))
                || entities@.take(0).contains(e)) by {
                if self.tracks(e) {
                    let a = choose|a: int| 0 <= a < self.entries().len() && #[trigger] self.entries()[a].0 == e;
                    assert(kept_seq[a].0 == e);
                }
                if old_self.tracks(e) && entities@.contains(e) {
                    let a = choose|a: int| 0 <= a < kept_seq.len() && #[trigger] kept_seq[a].0 == e;
                    assert(self.entries()[a].0 == e);
                }
            }
            assert forall|e: EntityId| #[trigger] self.tracks(e) implies self.timeout(e) == old_self.timeout(e) by {
                let a = choose|a: int| 0 <= a < self.entries().len() && #[trigger] self.entries()[a].0 == e;
                self.lemma_timeout(a);
                let j = choose|j: int| 0 <= j < old_self.entries().len() && old_self.entries()[j] == #[trigger] kept_seq[a];
                old_self.lemma_timeout(j);
            }
        }
        let time = self.time();
        assert(time == old_self.time_among(entities@));
        // track the new entities
        let mut k: usize = 0;
        while k < entities.len()
            invariant
                self.wf(),
                self.start() == old_self.start(),
                k <= entities@.len(),
                old_self.wf(),
                time == old_self.time_among(entities@),
                forall|e: EntityId| #[trigger] self.tracks(e) == ((old_self.tracks(e) && entities@.contains(e))
                    || entities@.take(k as int).contains(e)),
                forall|e: EntityId| #[trigger] self.tracks(e) ==> self.timeout(e) == (if old_self.tracks(e) {
                    old_self.timeout(e)
                } else {
                    time
                }),
            decreases entities@.len() - k,
        {
            let e = entities[k];
            proof {
                assert(entities@.take(k + 1) =~= entities@.take(k as int).push(e));
            }
            match self.index_of(e) {
                Some(_) => {
                    proof {
                        assert forall|x: EntityId| #[trigger] self.tracks(x) == ((old_self.tracks(x) && entities@.contains(x))
                            || entities@.take(k + 1).contains(x)) by {
                            if x == e {
                                assert(entities@.take(k + 1)[k as int] == e);
                            }
                            if entities@.take(k + 1).contains(x) && x != e {
                                let w = choose|w: int| 0 <= w < k + 1 && #[trigger] entities@.take(k + 1)[w] == x;
                                assert(entities@.take(k as int)[w] == x);
                            }
                        }
                    }
                },
                None => {
                    proof {
                        assert(!old_self.tracks(e) || !entities@.contains(e));
                        assert(entities@.contains(e)) by {
                            assert(entities@[k as int] == e);
                        }
                    }
                    let ghost before = *self;
                    self.m.push((e, time));
                    proof {
                        let n = before.entries().len();
                        assert forall|a: int, b: int|
                            0 <= a < self.entries().len() && 0 <= b < self.entries().len() && a != b
                                implies #[trigger] self.entries()[a].0 != #[trigger] self.entries()[b].0 by {
                            if a < n && b < n {
                                assert(before.entries()[a] == self.entries()[a]);
                                assert(before.entries()[b] == self.entries()[b]);
                            } else if a < n {
                                assert(before.entries()[a] == self.entries()[a]);
                            } else if b < n {
                                assert(before.entries()[b] == self.entries()[b]);
                            }
                        }
                        self.lemma_timeout(n as int);
                        assert forall|x: EntityId| #[trigger] self.tracks(x) == (before.tracks(x) || x == e) by {
                            if before.tracks(x) {
                                let j = choose|j: int| 0 <= j < before.entries().len() && #[trigger] before.entries()[j].0 == x;
                                assert(self.entries()[j] == before.entries()[j]);
                            }
                            if self.tracks(x) && x != e {
                                let j = choose|j: int| 0 <= j < self.entries().len() && #[trigger] self.entries()[j].0 == x;
                                assert(j < n);
                                assert(before.entries()[j] == self.entries()[j]);
                            }
                        }
                        assert forall|x: EntityId| #[trigger] self.tracks(x) == ((old_self.tracks(x) && entities@.contains(x))
                            || entities@.take(k + 1).contains(x)) by {
                            if x == e {
                                assert(entities@.take(k + 1)[k as int] == e);
                            }
                            if entities@.take(k + 1).contains(x) && x != e {
                                let w = choose|w: int| 0 <= w < k + 1 && #[trigger] entities@.take(k + 1)[w] == x;
                                assert(entities@.take(k as int)[w] == x);
                            }
                        }
                        assert forall|x: EntityId| #[trigger] self.tracks(x) && x != e implies self.timeout(x) == before.timeout(x) by {
                            let j = choose|j: int| 0 <= j < before.entries().len() && #[trigger] before.entries()[j].0 == x;
                            before.lemma_timeout(j);
                            assert(self.entries()[j] == before.entries()[j]);
                            self.lemma_timeout(j);
                        }
                    }
                },
            }
            k += 1;
        }
        proof {
            assert(entities@.take(entities@.len() as int) =~= entities@);
        }
        // pick the entity that acts next
        let mut best: Option<(EntityId, Timestamp)> = None;
        let mut j: usize = 0;
        while j < entities.len()
            invariant
                self.wf(),
                j <= entities@.len(),
                forall|e: EntityId| #[trigger] self.tracks(e) == entities@.contains(e),
                j == 0 <==> best is None,
                old_self.wf(),
                time == old_self.time_among(entities@),
                forall|e: EntityId| #[trigger] self.tracks(e) ==> self.timeout(e) == (if old_self.tracks(e) {
                    old_self.timeout(e)
                } else {
                    time
                }),
                best matches Some(b) ==> entities@.contains(b.0) && b.1 == self.timeout(b.0) && forall|i: int|
                    0 <= i < j ==> earlier((b.1, b.0), (self.timeout(#[trigger] entities@[i]), entities@[i])),
            decreases entities@.len() - j,
        {
            let e = entities[j];
            assert(entities@.contains(e)) by {
                assert(entities@[j as int] == e);
            }
            let idx = match self.index_of(e) {
                Some(idx) => idx,
                None => {
                    assert(false);
                    0
                },
            };
            proof {
                self.lemma_timeout(idx as int);
            }
            let t = self.m[idx].1;
            let replace = match best {
                None => true,
                Some((be, bt)) => t.ms < bt.ms || (t.ms == bt.ms && e.bits < be.bits),
            };
            if replace {
                best = Some((e, t));
            }
            j += 1;
        }
        proof {
            assert forall|e: EntityId| #[trigger] entities@.contains(e) implies self.timeout(e) == (if old_self.tracks(e) {
                old_self.timeout(e)
            } else {
                old_self.time_among(entities@)
            }) by {
                assert(self.tracks(e));
            }
        }
        match best {
            Some((e, _)) => Some(e),
            None => None,
        }
    }
}

proof fn lemma_kept_entries(entries: Seq<(EntityId, Timestamp)>, entities: Seq<EntityId>, e: EntityId)
    ensures
        (exists|a: int| 0 <= a < kept_entries(entries, entities).len() && #[trigger] kept_entries(entries, entities)[a].0 == e)
            <==> ((exists|i: int| 0 <= i < entries.len() && #[trigger] entries[i].0 == e) && entities.contains(e)),
    decreases entries.len(),
{
    if entries.len() > 0 {
        let rest = entries.drop_last();
        lemma_kept_entries(rest, entities, e);
        let k = kept_entries(entries, entities);
        let kr = kept_entries(rest, entities);
        if exists|i: int| 0 <= i < entries.len() && #[trigger] entries[i].0 == e {
            if entities.contains(e) {
                let i = choose|i: int| 0 <= i < entries.len() && #[trigger] entries[i].0 == e;
                if i == entries.len() - 1 {
                    assert(k[k.len() - 1].0 == e);
                } else {
                    assert(rest[i].0 == e);
                    let a = choose|a: int| 0 <= a < kr.len() && #[trigger] kr[a].0 == e;
                    assert(k[a] == kr[a]);
                }
            }
        }
        if exists|a: int| 0 <= a < k.len() && #[trigger] k[a].0 == e {
            let a = choose|a: int| 0 <= a < k.len() && #[trigger] k[a].0 == e;
            if a < kr.len() {
                assert(kr[a] == k[a]);
                let i = choose|i: int| 0 <= i < rest.len() && #[trigger] rest[i].0 == e;
                assert(entries[i] == rest[i]);
            } else {
                assert(entries[entries.len() - 1].0 == e);
            }
        }
    }
}

/// Law: the current time is the earliest timeout of the tracked entities, and
/// the start time while none is tracked.
pub proof fn law_time_is_earliest_timeout(timeouts: Timeouts)
    ensures
        timeouts.entries().len() == 0 ==> timeouts.spec_time() == timeouts.start(),
        forall|i: int| 0 <= i < timeouts.entries().len() ==> timeouts.spec_time().ms <= (#[trigger] timeouts.entries()[i]).1.ms,
        timeouts.entries().len() > 0 ==> exists|i: int|
            0 <= i < timeouts.entries().len() && (#[trigger] timeouts.entries()[i]).1 == timeouts.spec_time(),
{
    lemma_min_timestamp(timeouts.entries(), timeouts.start());
}

} // verus!
