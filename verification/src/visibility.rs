use vstd::prelude::*;
use crate::envir::{abs_diff, Envir};
use crate::geometry::{offset_fits, pos_diff, spec_pos_offset, Level, LevelOffset, Pos, PosOffset, SubzoneLevel};
use crate::vec_map::VecMap;

verus! {

/// The position of the observer that rays and segments are relative to.
pub open spec fn origin() -> Pos {
    Pos { x: 0, level: Level { h: 0 }, z: 0 }
}

/// `pos - origin()`: the offset that leads from the origin to `pos`.
pub open spec fn origin_offset(pos: Pos) -> PosOffset {
    PosOffset { x: pos.x, level: LevelOffset { h: pos.level.h }, z: pos.z }
}

/// `prefix` is where `path` starts.
pub open spec fn is_prefix(prefix: Seq<Pos>, path: Seq<Pos>) -> bool {
    prefix.len() <= path.len() && path.subrange(0, prefix.len() as int) == prefix
}

/// The positions that the sight passes from the origin to a target, the
/// target last.
pub struct RelativeRay {
    pub path: Vec<Pos>,
}

/// What has to be transparent to see a target from the origin.
pub struct RelativeSegment {
    /// The target of a shorter ray that this ray extends: the sight must reach it first.
    pub preceding: Option<PosOffset>,
    /// The positions after the preceding target and before the target.
    pub segment: Vec<PosOffset>,
    /// Where the sight changes levels: the positions on the upper level above
    /// the two ends of the step, one of which must let the sight through.
    pub down_pairs: Vec<(PosOffset, PosOffset)>,
}

/// Among the first `k` positions of `path`, the last one whose own ray is
/// where `path` starts.
pub open spec fn preceding_index(path: Seq<Pos>, rays: Map<Pos, RelativeRay>, k: int) -> Option<int>
    decreases k,
{
    if k <= 0 {
        None
    } else if is_prefix(rays[path[k - 1]].path@, path) {
        Some(k - 1)
    } else {
        preceding_index(path, rays, k - 1)
    }
}

proof fn lemma_preceding_index_bounds(path: Seq<Pos>, rays: Map<Pos, RelativeRay>, k: int)
    ensures
        preceding_index(path, rays, k) matches Some(i) ==> 0 <= i < k && is_prefix(rays[path[i]].path@, path),
    decreases k,
{
    if k > 0 {
        lemma_preceding_index_bounds(path, rays, k - 1);
    }
}

/// How many positions of `path` the preceding ray covers, but its target.
pub open spec fn skipped(path: Seq<Pos>, rays: Map<Pos, RelativeRay>) -> int {
    match preceding_index(path, rays, path.len() - 1) {
        Some(i) => rays[path[i]].path@.len() - 1,
        None => 0,
    }
}

/// The position before step `j` of `path`: the origin before the first.
pub open spec fn step_start(path: Seq<Pos>, j: int) -> Pos {
    if j == 0 {
        origin()
    } else {
        path[j - 1]
    }
}

/// The higher of two levels.
pub open spec fn upper(a: Level, b: Level) -> Level {
    if a.h < b.h {
        b
    } else {
        a
    }
}

/// The two ends of a step between levels, both lifted to the upper level.
pub open spec fn down_pair(current: Pos, next: Pos) -> (PosOffset, PosOffset) {
    let level = upper(current.level, next.level);
    (
        origin_offset(Pos { x: current.x, level, z: current.z }),
        origin_offset(Pos { x: next.x, level, z: next.z }),
    )
}

/// The down pairs of the steps of `path` from `start` up to `k`.
pub open spec fn down_pairs_upto(path: Seq<Pos>, start: int, k: int) -> Seq<(PosOffset, PosOffset)>
    decreases k,
{
    if k <= start || k <= 0 {
        Seq::empty()
    } else {
        let earlier = down_pairs_upto(path, start, k - 1);
        let current = step_start(path, k - 1);
        let next = path[k - 1];
        if current.level != next.level {
            earlier.push(down_pair(current, next))
        } else {
            earlier
        }
    }
}

/// The positions of `path` from `start` on, without the target.
pub open spec fn segment_offsets(path: Seq<Pos>, start: int) -> Seq<PosOffset> {
    let rest = path.subrange(start, path.len() as int);
    let kept = if rest.len() > 0 {
        rest.drop_last()
    } else {
        rest
    };
    kept.map_values(|p: Pos| origin_offset(p))
}

/// The rays that `to_segment` reads are there: one for each position before
/// the target, and the ray that it extends is not empty.
pub open spec fn rays_cover(path: Seq<Pos>, rays: Map<Pos, RelativeRay>) -> bool {
    &&& forall|i: int| 0 <= i < path.len() ==> (#[trigger] path[i]).level.is_valid()
    &&& forall|i: int| 0 <= i < path.len() - 1 ==> rays.contains_key(#[trigger] path[i])
    &&& preceding_index(path, rays, path.len() - 1) matches Some(i) ==> rays[path[i]].path@.len() > 0
}

fn from_origin(pos: Pos) -> (res: PosOffset)
    ensures
        res == origin_offset(pos),
{
    PosOffset { x: pos.x, level: LevelOffset { h: pos.level.h }, z: pos.z }
}

/// Whether `path` starts with `prefix`.
fn starts_with(path: &Vec<Pos>, prefix: &Vec<Pos>) -> (res: bool)
    ensures
        res == is_prefix(prefix@, path@),
{
    if prefix.len() > path.len() {
        return false;
    }
    let mut i: usize = 0;
    while i < prefix.len()
        invariant
            prefix@.len() <= path@.len(),
            i <= prefix@.len(),
            forall|j: int| 0 <= j < i ==> path@[j] == prefix@[j],
        decreases prefix@.len() - i,
    {
        if path[i] != prefix[i] {
            assert(path@.subrange(0, prefix@.len() as int)[i as int] != prefix@[i as int]);
            return false;
        }
        i += 1;
    }
    assert(path@.subrange(0, prefix@.len() as int) =~= prefix@);
    true
}

impl RelativeRay {
    fn find_preceding(&self, others: &VecMap<Pos, RelativeRay>) -> (res: Option<usize>)
        requires
            others.wf(),
            rays_cover(self.path@, others@),
        ensures
            res matches Some(i) ==> i < self.path@.len(),
            match res {
                Some(i) => preceding_index(self.path@, others@, self.path@.len() - 1) == Some(i as int),
                None => preceding_index(self.path@, others@, self.path@.len() - 1) is None,
            },
    {
        let n = self.path.len();
        proof {
            lemma_preceding_index_bounds(self.path@, others@, n - 1);
        }
        let mut k: usize = if n == 0 { 0 } else { n - 1 };
        while k > 0
            invariant
                n == self.path@.len(),
                k < n || k == 0,
                rays_cover(self.path@, others@),
                others.wf(),
                preceding_index(self.path@, others@, n - 1) == preceding_index(self.path@, others@, k as int),
            decreases k,
        {
            let p = self.path[k - 1];
            match others.get(&p) {
                Some(sub) => {
                    if starts_with(&self.path, &sub.path) {
                        return Some(k - 1);
                    }
                },
                None => {
                    assert(others@.contains_key(self.path@[k - 1]));
                },
            }
            k -= 1;
        }
        None
    }

    /// What has to be transparent to see the target of this ray: what lies
    /// after the longest ray among `others` that this one extends.
    pub fn to_segment(&self, others: &VecMap<Pos, RelativeRay>) -> (res: RelativeSegment)
        requires
            others.wf(),
            rays_cover(self.path@, others@),
        ensures
            res.preceding == (match preceding_index(self.path@, others@, self.path@.len() - 1) {
                Some(i) => Some(origin_offset(self.path@[i])),
                None => None::<PosOffset>,
            }),
            res.segment@ == segment_offsets(self.path@, skipped(self.path@, others@)),
            res.down_pairs@ == down_pairs_upto(
                self.path@,
                skipped(self.path@, others@),
                self.path@.len() as int,
            ),
    {
        let n = self.path.len();
        proof {
            lemma_preceding_index_bounds(self.path@, others@, n - 1);
        }
        let found = self.find_preceding(others);
        let mut skip: usize = 0;
        let mut preceding: Option<PosOffset> = None;
        match found {
            Some(i) => {
                let p = self.path[i];
                preceding = Some(from_origin(p));
                match others.get(&p) {
                    Some(sub) => {
                        skip = sub.path.len() - 1;
                        proof {
                            let prefix = others@[self.path@[i as int]].path@;
                            assert(is_prefix(prefix, self.path@));
                        }
                    },
                    None => {
                        assert(others@.contains_key(self.path@[i as int]));
                    },
                }
            },
            None => {},
        }
        assert(skip == skipped(self.path@, others@));
        assert(skip < n || (skip == 0 && n == 0));
        let mut segment: Vec<PosOffset> = Vec::new();
        let mut j: usize = skip;
        while n > 0 && j < n - 1
            invariant
                n == self.path@.len(),
                skip <= j,
                skip < n || (skip == 0 && n == 0),
                n > 0 ==> j <= n - 1,
                n == 0 ==> j == 0,
                segment@ == self.path@.subrange(skip as int, j as int).map_values(|p: Pos| origin_offset(p)),
            decreases n - j,
        {
            segment.push(from_origin(self.path[j]));
            proof {
                assert(self.path@.subrange(skip as int, j + 1) =~= self.path@.subrange(skip as int, j as int).push(
                    self.path@[j as int],
                ));
            }
            j += 1;
        }
        proof {
            let rest = self.path@.subrange(skip as int, n as int);
            if rest.len() > 0 {
                assert(j == n - 1);
                assert(rest.drop_last() =~= self.path@.subrange(skip as int, j as int));
            } else {
                assert(self.path@.subrange(skip as int, j as int) =~= rest);
            }
            assert(segment@ =~= segment_offsets(self.path@, skip as int));
        }
        let mut down_pairs: Vec<(PosOffset, PosOffset)> = Vec::new();
        let mut j: usize = skip;
        while j < n
            invariant
                n == self.path@.len(),
                skip <= j <= n,
                forall|i: int| 0 <= i < self.path@.len() ==> (#[trigger] self.path@[i]).level.is_valid(),
                down_pairs@ == down_pairs_upto(self.path@, skip as int, j as int),
            decreases n - j,
        {
            let current = if j == 0 { Pos { x: 0, level: Level { h: 0 }, z: 0 } } else { self.path[j - 1] };
            let next = self.path[j];
            if current.level != next.level {
                let level = if current.level.h < next.level.h { next.level } else { current.level };
                down_pairs.push((
                    from_origin(Pos { x: current.x, level, z: current.z }),
                    from_origin(Pos { x: next.x, level, z: next.z }),
                ));
            }
            j += 1;
        }
        RelativeSegment { preceding, segment, down_pairs }
    }
}

/// Whether a position can be seen.
#[derive(Clone, Copy, Debug, PartialEq, Eq, Structural)]
pub enum Visible {
    Seen,
    Unseen,
}

/// For each viewing distance, the segment of each offset within that distance.
pub struct RelativeSegments {
    pub segments: Vec<VecMap<PosOffset, RelativeSegment>>,
}

/// The offset of no step.
pub open spec fn here() -> PosOffset {
    PosOffset { x: 0, level: LevelOffset { h: 0 }, z: 0 }
}

/// The offset one level below `offset`.
pub open spec fn offset_down(offset: PosOffset) -> PosOffset {
    PosOffset { x: offset.x, level: LevelOffset { h: (offset.level.h - 1) as i8 }, z: offset.z }
}

/// The positions relative to `from`.
pub open spec fn offsets_from(positions: Seq<Pos>, from: Pos) -> Seq<PosOffset> {
    positions.map_values(|p: Pos| pos_diff(p, from))
}

/// The offset of the position that the stairs at `from` lead to, where `from`
/// holds stairs without stairs back straight above (or below): that position
/// is seen from `from`.
pub open spec fn seen_stairs(envir: &Envir, from: Pos, magic_up: Seq<PosOffset>, magic_down: Seq<PosOffset>) -> Option<PosOffset> {
    if magic_up.contains(here()) {
        match envir.spec_stairs_to(from, true) {
            Some(up) => Some(pos_diff(up, from)),
            None => None,
        }
    } else if magic_down.contains(here()) {
        match envir.spec_stairs_to(from, false) {
            Some(down) => Some(pos_diff(down, from)),
            None => None,
        }
    } else {
        None
    }
}

/// What can be seen from one position.
pub struct CurrentlyVisible<'a> {
    pub envir: &'a Envir,
    pub segments: &'a VecMap<PosOffset, RelativeSegment>,
    /// Rounded up; `None` when not even `from` is visible.
    pub viewing_distance: Option<usize>,
    pub from: Pos,
    /// The offset that the stairs at `from` lead to, which is seen in any case.
    pub seen_stairs: Option<PosOffset>,
    /// Only the subzone levels near `from` are looked at.
    pub only_nearby: bool,
    /// The stairs up that do not have stairs down directly above them.
    pub magic_stairs_up: Vec<PosOffset>,
    /// The stairs down that do not have stairs up directly below them.
    pub magic_stairs_down: Vec<PosOffset>,
}

/// Whether `offsets` holds `offset`.
fn contains_offset(offsets: &Vec<PosOffset>, offset: PosOffset) -> (res: bool)
    ensures
        res == offsets@.contains(offset),
{
    let mut i: usize = 0;
    while i < offsets.len()
        invariant
            i <= offsets@.len(),
            forall|j: int| 0 <= j < i ==> offsets@[j] != offset,
        decreases offsets@.len() - i,
    {
        if offsets[i] == offset {
            return true;
        }
        i += 1;
    }
    false
}

/// The positions relative to `from`.
fn relative_to(positions: Vec<Pos>, from: Pos) -> (res: Vec<PosOffset>)
    requires
        from.in_world(),
        forall|i: int| 0 <= i < positions@.len() ==> (#[trigger] positions@[i]).in_world()
            && offset_fits(positions@[i], from),
    ensures
        res@ == offsets_from(positions@, from),
{
    let mut res: Vec<PosOffset> = Vec::new();
    let mut i: usize = 0;
    while i < positions.len()
        invariant
            from.in_world(),
            forall|j: int| 0 <= j < positions@.len() ==> (#[trigger] positions@[j]).in_world()
                && offset_fits(positions@[j], from),
            i <= positions@.len(),
            res@ == offsets_from(positions@.take(i as int), from),
        decreases positions@.len() - i,
    {
        let p = positions[i];
        res.push(p.offset_from(from));
        proof {
            assert(positions@.take(i + 1) =~= positions@.take(i as int).push(p));
            assert(offsets_from(positions@.take(i + 1), from) =~= offsets_from(positions@.take(i as int), from).push(
                pos_diff(p, from),
            ));
        }
        i += 1;
    }
    assert(positions@.take(positions@.len() as int) =~= positions@);
    res
}

impl<'a> CurrentlyVisible<'a> {
    pub open spec fn wf(&self) -> bool {
        &&& self.envir.wf()
        &&& self.segments.wf()
        &&& self.from.in_world()
        &&& self.viewing_distance matches Some(d) ==> d <= i32::MAX
    }

    /// What can be seen from `from` within the viewing distance, `None` when
    /// nothing can be seen, with the segments for that distance.
    pub fn build(
        envir: &'a Envir,
        relative_segments: &'a RelativeSegments,
        viewing_distance: Option<usize>,
        from: Pos,
        only_nearby: bool,
    ) -> (res: CurrentlyVisible<'a>)
        requires
            envir.wf(),
            forall|i: int| 0 <= i < envir.tiles().len() ==> (#[trigger] envir.tiles()[i]).pos.in_world(),
            from.in_world(),
            (match viewing_distance {
                Some(d) => d,
                None => 0,
            }) < relative_segments.segments@.len(),
            forall|i: int| 0 <= i < relative_segments.segments@.len() ==> (#[trigger] relative_segments.segments@[i]).wf(),
            viewing_distance matches Some(d) ==> d <= i32::MAX,
            forall|p: Pos| #[trigger] envir.spec_magic_stairs(true, envir.tiles().len()).contains(p) ==> offset_fits(p, from),
            forall|p: Pos| #[trigger] envir.spec_magic_stairs(false, envir.tiles().len()).contains(p) ==> offset_fits(p, from),
        ensures
            res.wf(),
            res.envir == envir,
            *res.segments == relative_segments.segments@[match viewing_distance {
                Some(d) => d as int,
                None => 0,
            }],
            res.viewing_distance == viewing_distance,
            res.from == from,
            res.only_nearby == only_nearby,
            res.magic_stairs_up@ == offsets_from(envir.spec_magic_stairs(true, envir.tiles().len()), from),
            res.magic_stairs_down@ == offsets_from(envir.spec_magic_stairs(false, envir.tiles().len()), from),
            res.seen_stairs == seen_stairs(envir, from, res.magic_stairs_up@, res.magic_stairs_down@),
    {
        // the segments are not used without a viewing distance, so then any will do
        let index = match viewing_distance {
            Some(d) => d,
            None => 0,
        };
        let count = relative_segments.segments.len();
        assert(index < count);
        let segments = &relative_segments.segments[index];
        let up_positions = envir.magic_stairs_up();
        let down_positions = envir.magic_stairs_down();
        proof {
            envir.lemma_magic_stairs_in_world(true, envir.tiles().len());
            envir.lemma_magic_stairs_in_world(false, envir.tiles().len());
            assert forall|i: int| 0 <= i < up_positions@.len() implies offset_fits(#[trigger] up_positions@[i], from) by {
                assert(up_positions@.contains(up_positions@[i]));
            }
            assert forall|i: int| 0 <= i < down_positions@.len() implies offset_fits(#[trigger] down_positions@[i], from) by {
                assert(down_positions@.contains(down_positions@[i]));
            }
        }
        let magic_stairs_up = relative_to(up_positions, from);
        let magic_stairs_down = relative_to(down_positions, from);
        let here = PosOffset { x: 0, level: LevelOffset { h: 0 }, z: 0 };
        let mut seen_stairs: Option<PosOffset> = None;
        if contains_offset(&magic_stairs_up, here) {
            proof {
                envir.lemma_stairs_to_in_world(from, true);
            }
            if let Some(up) = envir.stairs_up_to(from) {
                seen_stairs = Some(up.offset_from(from));
            }
        } else if contains_offset(&magic_stairs_down, here) {
            proof {
                envir.lemma_stairs_to_in_world(from, false);
            }
            if let Some(down) = envir.stairs_down_to(from) {
                seen_stairs = Some(down.offset_from(from));
            }
        }
        CurrentlyVisible {
            envir,
            segments,
            viewing_distance,
            from,
            seen_stairs,
            only_nearby,
            magic_stairs_up,
            magic_stairs_down,
        }
    }

    /// `pos` lies within the viewing distance plus `extra`, horizontally.
    pub open spec fn spec_nearby_pos(&self, pos: Pos, extra: int) -> bool {
        match self.viewing_distance {
            Some(d) => abs_diff(self.from.x as int, pos.x as int) <= d + extra
                && abs_diff(self.from.z as int, pos.z as int) <= d + extra,
            None => false,
        }
    }

    /// Whether `pos` lies within the viewing distance plus `extra`, horizontally.
    pub fn nearby_pos(&self, pos: Pos, extra: usize) -> (res: bool)
        requires
            self.wf(),
            pos.in_world(),
            extra <= 1,
        ensures
            res == self.spec_nearby_pos(pos, extra as int),
    {
        match self.viewing_distance {
            Some(d) => {
                let dx: i64 = self.from.x as i64 - pos.x as i64;
                let dz: i64 = self.from.z as i64 - pos.z as i64;
                let ax: u64 = if dx < 0 { (-dx) as u64 } else { dx as u64 };
                let az: u64 = if dz < 0 { (-dz) as u64 } else { dz as u64 };
                let limit: u128 = d as u128 + extra as u128;
                ax as u128 <= limit && az as u128 <= limit
            },
            None => false,
        }
    }

    /// Something at `offset` from `from` blocks the sight: an opaque entity,
    /// or no terrain below the ground. Outside the world nothing is seen.
    pub open spec fn spec_is_opaque(&self, offset: PosOffset) -> bool {
        match spec_pos_offset(self.from, offset) {
            Some(to) => self.envir.spec_is_opaque(to) || (to.level.h < 0 && !(self.envir.tile_at(to) matches Some(
                t,
            ) && t.terrain is Some)),
            None => true,
        }
    }

    fn is_opaque(&self, offset: PosOffset) -> (res: bool)
        requires
            self.wf(),
        ensures
            res == self.spec_is_opaque(offset),
    {
        match self.from.offset(offset) {
            Some(to) => self.envir.is_opaque(to) || (to.level.h < 0 && self.envir.find_terrain(to).is_none()),
            None => true,
        }
    }

    /// The sight passes vertically at `above`, the upper one of two positions
    /// at offsets from `from`: no stairs without a way back are in the way,
    /// the floor there lets the sight through, and below the ground a floor
    /// stands there.
    pub open spec fn spec_can_look_vertical(&self, above: PosOffset) -> bool {
        if 0 < above.level.h && self.magic_stairs_up@.contains(offset_down(above)) {
            false
        } else if above.level.h <= 0 && self.magic_stairs_down@.contains(above) {
            false
        } else {
            match spec_pos_offset(self.from, above) {
                Some(p) => !self.envir.spec_has_opaque_floor(p) && (0 <= p.level.h || self.envir.spec_is_accessible(p)),
                None => false,
            }
        }
    }

    fn can_look_vertical(&self, above: PosOffset) -> (res: bool)
        requires
            self.wf(),
        ensures
            res == self.spec_can_look_vertical(above),
    {
        if 0 < above.level.h {
            // looking up
            let below = PosOffset { x: above.x, level: LevelOffset { h: above.level.h - 1 }, z: above.z };
            if contains_offset(&self.magic_stairs_up, below) {
                return false;
            }
        } else if contains_offset(&self.magic_stairs_down, above) {
            return false;
        }
        match self.from.offset(above) {
            Some(p) => !self.envir.has_opaque_floor(p) && (0 <= p.level.h || self.envir.is_accessible(p)),
            None => false,
        }
    }

    /// Whether the target at `relative_to` is seen, following at most `fuel`
    /// preceding segments: it is seen when the stairs lead there, or when its
    /// segment is known, the preceding target is seen, nothing in the segment
    /// is opaque and every change of levels lets the sight through.
    pub open spec fn spec_visible(&self, relative_to: PosOffset, fuel: nat) -> Visible
        decreases fuel,
    {
        if self.seen_stairs == Some(relative_to) {
            Visible::Seen
        } else if !self.segments@.contains_key(relative_to) {
            Visible::Unseen
        } else {
            let segment = self.segments@[relative_to];
            let preceding_unseen = match segment.preceding {
                Some(preceding) => if fuel == 0 {
                    true
                } else {
                    self.spec_visible(preceding, (fuel - 1) as nat) == Visible::Unseen
                },
                None => false,
            };
            if preceding_unseen {
                Visible::Unseen
            } else if exists|i: int| 0 <= i < segment.segment@.len() && self.spec_is_opaque(#[trigger] segment.segment@[i]) {
                Visible::Unseen
            } else if forall|i: int| 0 <= i < segment.down_pairs@.len() ==> {
                let pair = #[trigger] segment.down_pairs@[i];
                self.spec_can_look_vertical(pair.0) || self.spec_can_look_vertical(pair.1)
            } {
                Visible::Seen
            } else {
                Visible::Unseen
            }
        }
    }

    /// Whether the target at `relative_to` is seen. A chain of preceding
    /// segments without repeats is no longer than the number of segments.
    pub open spec fn spec_can_see_relative(&self, relative_to: PosOffset) -> Visible {
        self.spec_visible(relative_to, self.segments.entries().len() as nat)
    }

    /// Nothing in the segment is opaque.
    fn segment_clear(&self, segment: &RelativeSegment) -> (res: bool)
        requires
            self.wf(),
        ensures
            res == !exists|i: int| 0 <= i < segment.segment@.len() && self.spec_is_opaque(#[trigger] segment.segment@[i]),
    {
        let mut i: usize = 0;
        while i < segment.segment.len()
            invariant
                self.wf(),
                i <= segment.segment@.len(),
                forall|j: int| 0 <= j < i ==> !self.spec_is_opaque(#[trigger] segment.segment@[j]),
            decreases segment.segment@.len() - i,
        {
            if self.is_opaque(segment.segment[i]) {
                assert(self.spec_is_opaque(segment.segment@[i as int]));
                return false;
            }
            i += 1;
        }
        true
    }

    /// Every change of levels of the segment lets the sight through.
    fn steps_clear(&self, segment: &RelativeSegment) -> (res: bool)
        requires
            self.wf(),
        ensures
            res == forall|i: int| 0 <= i < segment.down_pairs@.len() ==> {
                let pair = #[trigger] segment.down_pairs@[i];
                self.spec_can_look_vertical(pair.0) || self.spec_can_look_vertical(pair.1)
            },
    {
        let mut i: usize = 0;
        while i < segment.down_pairs.len()
            invariant
                self.wf(),
                i <= segment.down_pairs@.len(),
                forall|j: int| 0 <= j < i ==> {
                    let pair = #[trigger] segment.down_pairs@[j];
                    self.spec_can_look_vertical(pair.0) || self.spec_can_look_vertical(pair.1)
                },
            decreases segment.down_pairs@.len() - i,
        {
            let (a, b) = segment.down_pairs[i];
            if !(self.can_look_vertical(a) || self.can_look_vertical(b)) {
                assert(!{
                    let pair = segment.down_pairs@[i as int];
                    self.spec_can_look_vertical(pair.0) || self.spec_can_look_vertical(pair.1)
                });
                return false;
            }
            i += 1;
        }
        true
    }

    fn visible_within(&self, relative_to: PosOffset, fuel: usize) -> (res: Visible)
        requires
            self.wf(),
        ensures
            res == self.spec_visible(relative_to, fuel as nat),
        decreases fuel,
    {
        if let Some(stairs) = self.seen_stairs {
            if stairs == relative_to {
                return Visible::Seen;
            }
        }
        let segment = match self.segments.get(&relative_to) {
            Some(segment) => segment,
            None => {
                return Visible::Unseen;
            },
        };
        if let Some(preceding) = segment.preceding {
            if fuel == 0 {
                return Visible::Unseen;
            }
            if self.visible_within(preceding, fuel - 1) == Visible::Unseen {
                return Visible::Unseen;
            }
        }
        if !self.segment_clear(segment) || !self.steps_clear(segment) {
            return Visible::Unseen;
        }
        Visible::Seen
    }

    /// Whether the target at `relative_to` from `from` is seen.
    pub fn can_see_relative(&self, relative_to: PosOffset) -> (res: Visible)
        requires
            self.wf(),
        ensures
            res == self.spec_can_see_relative(relative_to),
    {
        self.visible_within(relative_to, self.segments.len())
    }

    pub open spec fn spec_can_see(&self, to: Pos, accessible: bool) -> Visible {
        if self.spec_nearby_pos(to, 0) && (to.level.h <= self.from.level.h || !accessible) {
            self.spec_can_see_relative(pos_diff(to, self.from))
        } else {
            Visible::Unseen
        }
    }

    /// Whether `to` is seen. Floors (`accessible`) seen from below are left
    /// unseen.
    pub fn can_see(&self, to: Pos, accessible: bool) -> (res: Visible)
        requires
            self.wf(),
            to.in_world(),
        ensures
            res == self.spec_can_see(to, accessible),
    {
        if self.nearby_pos(to, 0) && (to.level.h <= self.from.level.h || !accessible) {
            self.can_see_relative(to.offset_from(self.from))
        } else {
            Visible::Unseen
        }
    }

    pub open spec fn spec_nearby(&self, subzone_level: SubzoneLevel) -> bool {
        !self.only_nearby || exists|i: int|
            0 <= i < 4 && self.spec_nearby_pos(#[trigger] subzone_level.spec_corners()[i], 1)
    }

    /// Whether the subzone level is to be looked at: always when everything
    /// is, else when a corner lies within the viewing distance plus one.
    pub fn nearby(&self, subzone_level: SubzoneLevel) -> (res: bool)
        requires
            self.wf(),
            subzone_level.in_world(),
        ensures
            res == self.spec_nearby(subzone_level),
    {
        if !self.only_nearby {
            return true;
        }
        let corners = subzone_level.corners();
        let mut i: usize = 0;
        while i < corners.len()
            invariant
                self.wf(),
                corners@ == subzone_level.spec_corners(),
                forall|j: int| 0 <= j < corners@.len() ==> (#[trigger] corners@[j]).in_world(),
                i <= corners@.len(),
                forall|j: int| 0 <= j < i ==> !self.spec_nearby_pos(#[trigger] corners@[j], 1),
            decreases corners@.len() - i,
        {
            if self.nearby_pos(corners[i], 1) {
                return true;
            }
            i += 1;
        }
        false
    }
}

impl<'a> CurrentlyVisible<'a> {
    /// Law: without a viewing distance (while sleeping) nothing is seen.
    pub proof fn law_nothing_seen_without_viewing_distance(&self, to: Pos, accessible: bool)
        requires
            self.wf(),
            self.viewing_distance is None,
        ensures
            self.spec_can_see(to, accessible) == Visible::Unseen,
    {
    }

    /// Law: the position that the stairs at `from` lead to is seen.
    pub proof fn law_stairs_target_seen(&self)
        requires
            self.wf(),
            self.seen_stairs is Some,
        ensures
            self.spec_can_see_relative(self.seen_stairs->0) == Visible::Seen,
    {
    }

    /// Law: an opaque position between the observer and a target hides the
    /// target, unless the stairs lead there.
    pub proof fn law_opaque_segment_hides(&self, relative_to: PosOffset, i: int)
        requires
            self.wf(),
            self.seen_stairs != Some(relative_to),
            self.segments@.contains_key(relative_to),
            0 <= i < self.segments@[relative_to].segment@.len(),
            self.spec_is_opaque(self.segments@[relative_to].segment@[i]),
        ensures
            self.spec_can_see_relative(relative_to) == Visible::Unseen,
    {
        let segment = self.segments@[relative_to];
        assert(self.spec_is_opaque(segment.segment@[i]));
    }

    /// Law: a change of levels that the sight cannot pass hides the target:
    /// where the segment of a target changes levels at a pair of positions
    /// through neither of which the sight passes vertically, the target is
    /// unseen, unless the stairs lead there.
    pub proof fn law_blocked_level_change_hides(&self, relative_to: PosOffset, i: int)
        requires
            self.wf(),
            self.seen_stairs != Some(relative_to),
            self.segments@.contains_key(relative_to),
            0 <= i < self.segments@[relative_to].down_pairs@.len(),
            !self.spec_can_look_vertical(self.segments@[relative_to].down_pairs@[i].0),
            !self.spec_can_look_vertical(self.segments@[relative_to].down_pairs@[i].1),
        ensures
            self.spec_can_see_relative(relative_to) == Visible::Unseen,
    {
        let segment = self.segments@[relative_to];
        let pair = segment.down_pairs@[i];
        assert(!(self.spec_can_look_vertical(pair.0) || self.spec_can_look_vertical(pair.1)));
    }

    /// Law: floors and ceilings hide what lies beyond them: where the segment
    /// of a target changes levels at a pair of positions in the world that
    /// both have an opaque floor, the target is unseen, unless the stairs
    /// lead there.
    pub proof fn law_opaque_floors_hide(&self, relative_to: PosOffset, i: int)
        requires
            self.wf(),
            self.seen_stairs != Some(relative_to),
            self.segments@.contains_key(relative_to),
            0 <= i < self.segments@[relative_to].down_pairs@.len(),
            spec_pos_offset(self.from, self.segments@[relative_to].down_pairs@[i].0) matches Some(a)
                && self.envir.spec_has_opaque_floor(a),
            spec_pos_offset(self.from, self.segments@[relative_to].down_pairs@[i].1) matches Some(b)
                && self.envir.spec_has_opaque_floor(b),
        ensures
            self.spec_can_see_relative(relative_to) == Visible::Unseen,
    {
        self.law_blocked_level_change_hides(relative_to, i);
    }

    /// Law: a target whose preceding target is unseen is unseen, unless the
    /// stairs lead there.
    pub proof fn law_unseen_preceding_hides(&self, relative_to: PosOffset, fuel: nat)
        requires
            self.wf(),
            self.seen_stairs != Some(relative_to),
            self.segments@.contains_key(relative_to),
            self.segments@[relative_to].preceding matches Some(p) && fuel > 0
                && self.spec_visible(p, (fuel - 1) as nat) == Visible::Unseen,
        ensures
            self.spec_visible(relative_to, fuel) == Visible::Unseen,
    {
    }
}

} // verus!
