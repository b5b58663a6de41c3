use vstd::prelude::*;
use crate::geometry::{Level, Nbor, Pos, Zone, ZoneLevel, HorizontalDirection, MAX_COORD, MAX_LEVEL, MIN_LEVEL, ZONE_SIZE, coord_in_world, offset_fits};
use crate::units::EntityId;

verus! {

/// How hard a floor is to walk on; `NORMAL_MOVE_COST` is plain ground.
#[derive(Clone, Copy, Debug, PartialEq, Eq, Structural)]
pub struct MoveCost {
    pub value: u16,
}

/// The move cost of plain ground.
pub const NORMAL_MOVE_COST: u16 = 2;

impl MoveCost {
    pub open spec fn spec_adjust(self, hurdle: Option<u8>) -> MoveCost {
        match hurdle {
            Some(increase) => MoveCost { value: (self.value + increase) as u16 },
            None => self,
        }
    }

    /// The move cost with the increase of a hurdle on top, if there is one.
    pub fn adjust(self, hurdle: Option<u8>) -> (res: MoveCost)
        requires
            self.value <= 1000,
        ensures
            res == self.spec_adjust(hurdle),
    {
        match hurdle {
            Some(increase) => MoveCost { value: self.value + increase as u16 },
            None => self,
        }
    }
}

/// A floor that can be walked on.
#[derive(Clone, Copy, Debug, PartialEq, Eq, Structural)]
pub struct Floor {
    pub water: bool,
    pub move_cost: MoveCost,
}

/// What the rules of movement and sight read of the entities on one position.
/// Where several entities have a property, the first one in the position's
/// list of entities is named.
#[derive(Clone, Copy, Debug, PartialEq, Eq, Structural)]
pub struct Tile {
    pub pos: Pos,
    pub floor: Option<Floor>,
    pub hurdle: Option<u8>,
    pub openable: Option<EntityId>,
    pub closeable: Option<EntityId>,
    pub stairs_up: bool,
    pub stairs_down: bool,
    pub terrain: Option<EntityId>,
    pub obstacle: Option<EntityId>,
    pub opaque: bool,
    pub opaque_floor: bool,
    pub character: Option<EntityId>,
    pub smashable: Option<EntityId>,
    pub pulpable: Option<EntityId>,
    pub item: Option<EntityId>,
}

impl Tile {
    /// A tile at `pos` with entities that have none of the properties.
    pub fn empty(pos: Pos) -> (res: Tile)
        ensures
            res.pos == pos,
            res.floor is None,
            res.hurdle is None,
            res.openable is None,
            res.closeable is None,
            !res.stairs_up,
            !res.stairs_down,
            res.terrain is None,
            res.obstacle is None,
            !res.opaque,
            !res.opaque_floor,
            res.character is None,
            res.smashable is None,
            res.pulpable is None,
            res.item is None,
    {
        Tile {
            pos,
            floor: None,
            hurdle: None,
            openable: None,
            closeable: None,
            stairs_up: false,
            stairs_down: false,
            terrain: None,
            obstacle: None,
            opaque: false,
            opaque_floor: false,
            character: None,
            smashable: None,
            pulpable: None,
            item: None,
        }
    }
}

/// The surroundings of the characters: one tile for each position that holds
/// at least one entity.
pub struct Envir {
    tiles: Vec<Tile>,
}

/// The Chebyshev distance of a horizontal offset.
pub open spec fn cheb(dx: int, dz: int) -> int {
    let ax = if dx < 0 { -dx } else { dx };
    let az = if dz < 0 { -dz } else { dz };
    if ax < az { az } else { ax }
}

/// The order in which the stairs search tries offsets: by distance, then by x, then by z.
pub open spec fn search_before(dx1: int, dz1: int, dx2: int, dz2: int) -> bool {
    ||| cheb(dx1, dz1) < cheb(dx2, dz2)
    ||| cheb(dx1, dz1) == cheb(dx2, dz2) && dx1 < dx2
    ||| cheb(dx1, dz1) == cheb(dx2, dz2) && dx1 == dx2 && dz1 < dz2
}

/// The vertical neighbour direction for going up (`true`) or down.
pub open spec fn vertical(up: bool) -> Nbor {
    if up { Nbor::Up } else { Nbor::Down }
}

impl Envir {
    pub closed spec fn tiles(&self) -> Seq<Tile> {
        self.tiles@
    }

    /// No position has two tiles.
    pub open spec fn wf(&self) -> bool {
        forall|i: int, j: int|
            0 <= i < self.tiles().len() && 0 <= j < self.tiles().len() && i != j
                ==> #[trigger] self.tiles()[i].pos != #[trigger] self.tiles()[j].pos
    }

    pub open spec fn has_tile(&self, pos: Pos) -> bool {
        exists|i: int| 0 <= i < self.tiles().len() && #[trigger] self.tiles()[i].pos == pos
    }

    /// The tile at `pos`, if any entity stands there.
    pub open spec fn tile_at(&self, pos: Pos) -> Option<Tile> {
        if self.has_tile(pos) {
            Some(self.tiles()[choose|i: int| 0 <= i < self.tiles().len() && #[trigger] self.tiles()[i].pos == pos])
        } else {
            None
        }
    }

    pub proof fn lemma_tile_at(&self, i: int)
        requires
            self.wf(),
            0 <= i < self.tiles().len(),
        ensures
            self.tile_at(self.tiles()[i].pos) == Some(self.tiles()[i]),
    {
        let pos = self.tiles()[i].pos;
        assert(self.has_tile(pos));
        let k = choose|k: int| 0 <= k < self.tiles().len() && #[trigger] self.tiles()[k].pos == pos;
        assert(self.tiles()[k].pos == self.tiles()[i].pos);
    }

    /// Every tile lies inside the world.
    pub fn tiles_in_world(&self) -> (res: bool)
        ensures
            res == forall|i: int| 0 <= i < self.tiles().len() ==> (#[trigger] self.tiles()[i]).pos.in_world(),
    {
        let mut i: usize = 0;
        while i < self.tiles.len()
            invariant
                i <= self.tiles@.len(),
                forall|j: int| 0 <= j < i ==> (#[trigger] self.tiles@[j]).pos.in_world(),
            decreases self.tiles@.len() - i,
        {
            if !self.tiles[i].pos.is_in_world() {
                return false;
            }
            i += 1;
        }
        true
    }

    /// An empty surrounding.
    pub fn new() -> (res: Envir)
        ensures
            res.wf(),
            forall|p: Pos| #[trigger] res.tile_at(p) is None,
    {
        Envir { tiles: Vec::new() }
    }

    /// Sets the tile at the tile's position, replacing an earlier one there.
    pub fn set_tile(&mut self, tile: Tile)
        requires
            old(self).wf(),
        ensures
            final(self).wf(),
            final(self).tile_at(tile.pos) == Some(tile),
            forall|p: Pos| p != tile.pos ==> #[trigger] final(self).tile_at(p) == old(self).tile_at(p),
    {
        let mut i: usize = 0;
        while i < self.tiles.len()
            invariant
                i <= self.tiles@.len(),
                self.wf(),
                self.tiles() == old(self).tiles(),
                forall|j: int| 0 <= j < i ==> self.tiles@[j].pos != tile.pos,
            decreases self.tiles@.len() - i,
        {
            if self.tiles[i].pos == tile.pos {
                let ghost before = *self;
                self.tiles.set(i, tile);
                proof {
                    assert forall|a: int, b: int|
                        0 <= a < self.tiles().len() && 0 <= b < self.tiles().len() && a != b
                            implies #[trigger] self.tiles()[a].pos != #[trigger] self.tiles()[b].pos by {
                        assert(before.tiles()[a].pos == self.tiles()[a].pos);
                        assert(before.tiles()[b].pos == self.tiles()[b].pos);
                    }
                    self.lemma_tile_at(i as int);
                    assert forall|p: Pos| p != tile.pos implies #[trigger] self.tile_at(p) == before.tile_at(p) by {
                        if before.has_tile(p) {
                            let k = choose|k: int| 0 <= k < before.tiles().len() && #[trigger] before.tiles()[k].pos == p;
                            before.lemma_tile_at(k);
                            assert(self.tiles()[k] == before.tiles()[k]);
                            self.lemma_tile_at(k);
                        } else if self.has_tile(p) {
                            let k = choose|k: int| 0 <= k < self.tiles().len() && #[trigger] self.tiles()[k].pos == p;
                            assert(before.tiles()[k].pos == p);
                        }
                    }
                }
                return;
            }
            i += 1;
        }
        let ghost before = *self;
        self.tiles.push(tile);
        proof {
            let n = before.tiles().len();
            assert forall|a: int, b: int|
                0 <= a < self.tiles().len() && 0 <= b < self.tiles().len() && a != b
                    implies #[trigger] self.tiles()[a].pos != #[trigger] self.tiles()[b].pos by {
                if a < n && b < n {
                    assert(before.tiles()[a].pos == self.tiles()[a].pos);
                    assert(before.tiles()[b].pos == self.tiles()[b].pos);
                }
            }
            self.lemma_tile_at(n as int);
            assert forall|p: Pos| p != tile.pos implies #[trigger] self.tile_at(p) == before.tile_at(p) by {
                if before.has_tile(p) {
                    let k = choose|k: int| 0 <= k < before.tiles().len() && #[trigger] before.tiles()[k].pos == p;
                    before.lemma_tile_at(k);
                    assert(self.tiles()[k] == before.tiles()[k]);
                    self.lemma_tile_at(k);
                } else if self.has_tile(p) {
                    let k = choose|k: int| 0 <= k < self.tiles().len() && #[trigger] self.tiles()[k].pos == p;
                    assert(k < n);
                    assert(before.tiles()[k].pos == p);
                }
            }
        }
    }

    /// The tile at `pos`, if any entity stands there.
    pub fn tile(&self, pos: Pos) -> (res: Option<Tile>)
        requires
            self.wf(),
        ensures
            res == self.tile_at(pos),
    {
        let mut i: usize = 0;
        while i < self.tiles.len()
            invariant
                i <= self.tiles@.len(),
                self.wf(),
                forall|j: int| 0 <= j < i ==> self.tiles@[j].pos != pos,
            decreases self.tiles@.len() - i,
        {
            if self.tiles[i].pos == pos {
                proof {
                    self.lemma_tile_at(i as int);
                }
                return Some(self.tiles[i]);
            }
            i += 1;
        }
        None
    }

    // base predicates

    pub open spec fn spec_is_accessible(&self, pos: Pos) -> bool {
        self.tile_at(pos) matches Some(t) && t.floor is Some
    }

    pub open spec fn spec_is_water(&self, pos: Pos) -> bool {
        self.tile_at(pos) matches Some(t) && (t.floor matches Some(f) && f.water)
    }

    pub open spec fn spec_is_opaque(&self, pos: Pos) -> bool {
        self.tile_at(pos) matches Some(t) && t.opaque
    }

    pub open spec fn spec_has_opaque_floor(&self, pos: Pos) -> bool {
        self.tile_at(pos) matches Some(t) && t.opaque_floor
    }

    pub open spec fn spec_has_stairs(&self, pos: Pos, up: bool) -> bool {
        if up {
            pos.level.h < MAX_LEVEL && (self.tile_at(pos) matches Some(t) && t.stairs_up)
        } else {
            pos.level.h > MIN_LEVEL && (self.tile_at(pos) matches Some(t) && t.stairs_down)
        }
    }

    /// The entity of the tile at `pos` that `field` picks.
    pub open spec fn find(&self, pos: Pos, field: spec_fn(Tile) -> Option<EntityId>) -> Option<EntityId> {
        match self.tile_at(pos) {
            Some(t) => field(t),
            None => None,
        }
    }

    /// A floor to walk on stands at `pos`.
    pub fn is_accessible(&self, pos: Pos) -> (res: bool)
        requires
            self.wf(),
        ensures
            res == self.spec_is_accessible(pos),
    {
        match self.tile(pos) {
            Some(t) => t.floor.is_some(),
            None => false,
        }
    }

    /// The floor at `pos` is water.
    pub fn is_water(&self, pos: Pos) -> (res: bool)
        requires
            self.wf(),
        ensures
            res == self.spec_is_water(pos),
    {
        match self.tile(pos) {
            Some(t) => match t.floor {
                Some(f) => f.water,
                None => false,
            },
            None => false,
        }
    }

    /// Something at `pos` blocks the sight.
    pub fn is_opaque(&self, pos: Pos) -> (res: bool)
        requires
            self.wf(),
        ensures
            res == self.spec_is_opaque(pos),
    {
        match self.tile(pos) {
            Some(t) => t.opaque,
            None => false,
        }
    }

    /// The floor at `pos` blocks the sight up and down.
    pub fn has_opaque_floor(&self, pos: Pos) -> (res: bool)
        requires
            self.wf(),
        ensures
            res == self.spec_has_opaque_floor(pos),
    {
        match self.tile(pos) {
            Some(t) => t.opaque_floor,
            None => false,
        }
    }

    /// Stairs up stand at `pos`, and a level lies above.
    pub fn has_stairs_up(&self, pos: Pos) -> (res: bool)
        requires
            self.wf(),
        ensures
            res == self.spec_has_stairs(pos, true),
    {
        pos.level.h < MAX_LEVEL && match self.tile(pos) {
            Some(t) => t.stairs_up,
            None => false,
        }
    }

    /// Stairs down stand at `pos`, and a level lies below.
    pub fn has_stairs_down(&self, pos: Pos) -> (res: bool)
        requires
            self.wf(),
        ensures
            res == self.spec_has_stairs(pos, false),
    {
        pos.level.h > MIN_LEVEL && match self.tile(pos) {
            Some(t) => t.stairs_down,
            None => false,
        }
    }

    fn has_stairs(&self, pos: Pos, up: bool) -> (res: bool)
        requires
            self.wf(),
        ensures
            res == self.spec_has_stairs(pos, up),
    {
        if up {
            self.has_stairs_up(pos)
        } else {
            self.has_stairs_down(pos)
        }
    }

    pub fn find_openable(&self, pos: Pos) -> (res: Option<EntityId>)
        requires
            self.wf(),
        ensures
            res == self.find(pos, |t: Tile| t.openable),
    {
        match self.tile(pos) {
            Some(t) => t.openable,
            None => None,
        }
    }

    pub fn find_closeable(&self, pos: Pos) -> (res: Option<EntityId>)
        requires
            self.wf(),
        ensures
            res == self.find(pos, |t: Tile| t.closeable),
    {
        match self.tile(pos) {
            Some(t) => t.closeable,
            None => None,
        }
    }

    pub fn find_terrain(&self, pos: Pos) -> (res: Option<EntityId>)
        requires
            self.wf(),
        ensures
            res == self.find(pos, |t: Tile| t.terrain),
    {
        match self.tile(pos) {
            Some(t) => t.terrain,
            None => None,
        }
    }

    pub fn find_obstacle(&self, pos: Pos) -> (res: Option<EntityId>)
        requires
            self.wf(),
        ensures
            res == self.find(pos, |t: Tile| t.obstacle),
    {
        match self.tile(pos) {
            Some(t) => t.obstacle,
            None => None,
        }
    }

    pub fn find_character(&self, pos: Pos) -> (res: Option<EntityId>)
        requires
            self.wf(),
        ensures
            res == self.find(pos, |t: Tile| t.character),
    {
        match self.tile(pos) {
            Some(t) => t.character,
            None => None,
        }
    }

    pub fn find_smashable(&self, pos: Pos) -> (res: Option<EntityId>)
        requires
            self.wf(),
        ensures
            res == self.find(pos, |t: Tile| t.smashable),
    {
        match self.tile(pos) {
            Some(t) => t.smashable,
            None => None,
        }
    }

    pub fn find_pulpable(&self, pos: Pos) -> (res: Option<EntityId>)
        requires
            self.wf(),
        ensures
            res == self.find(pos, |t: Tile| t.pulpable),
    {
        match self.tile(pos) {
            Some(t) => t.pulpable,
            None => None,
        }
    }

    pub fn find_item(&self, pos: Pos) -> (res: Option<EntityId>)
        requires
            self.wf(),
        ensures
            res == self.find(pos, |t: Tile| t.item),
    {
        match self.tile(pos) {
            Some(t) => t.item,
            None => None,
        }
    }
}


/// The position that the stairs search tries at offset (`dx`, `dz`) one level
/// up or down from `from`, if it lies in the world.
pub open spec fn stairs_candidate(from: Pos, dx: int, dz: int, up: bool) -> Option<Pos> {
    let h = if up { from.level.h + 1 } else { from.level.h - 1 };
    let x = from.x + dx;
    let z = from.z + dz;
    if coord_in_world(x) && coord_in_world(z) && MIN_LEVEL <= h <= MAX_LEVEL {
        Some(Pos { x: x as i32, level: Level { h: h as i8 }, z: z as i32 })
    } else {
        None
    }
}

impl Envir {
    /// The candidate at (`dx`, `dz`) lies in the zone of `from`, one level up or
    /// down, within the search distance, and has stairs that lead back.
    pub open spec fn stairs_match(&self, from: Pos, dx: int, dz: int, up: bool) -> bool {
        &&& cheb(dx, dz) < ZONE_SIZE
        &&& stairs_candidate(from, dx, dz, up) matches Some(c)
        &&& Zone::spec_from_pos(c) == Zone::spec_from_pos(from)
        &&& self.spec_has_stairs(c, !up)
    }

    /// The match that the search meets first.
    pub open spec fn is_first_stairs_match(&self, from: Pos, dx: int, dz: int, up: bool) -> bool {
        &&& self.stairs_match(from, dx, dz, up)
        &&& forall|dx2: int, dz2: int|
            #[trigger] self.stairs_match(from, dx2, dz2, up) ==> !search_before(dx2, dz2, dx, dz)
    }

    /// Where the stairs at `from` lead: to the nearest stairs back in the same
    /// zone one level up (or down); to the position straight above (or below)
    /// when there is none; nowhere without stairs at `from`.
    pub open spec fn spec_stairs_to(&self, from: Pos, up: bool) -> Option<Pos> {
        if !self.spec_has_stairs(from, up) {
            None
        } else if exists|dx: int, dz: int| self.is_first_stairs_match(from, dx, dz, up) {
            let (dx, dz) = choose|dx: int, dz: int| self.is_first_stairs_match(from, dx, dz, up);
            stairs_candidate(from, dx, dz, up)
        } else {
            from.spec_raw_nbor(vertical(up))
        }
    }

    proof fn lemma_first_unique(&self, from: Pos, dx: int, dz: int, dx2: int, dz2: int, up: bool)
        requires
            self.is_first_stairs_match(from, dx, dz, up),
            self.is_first_stairs_match(from, dx2, dz2, up),
        ensures
            dx == dx2 && dz == dz2,
    {
        assert(!search_before(dx2, dz2, dx, dz));
        assert(!search_before(dx, dz, dx2, dz2));
    }

    fn stairs_to(&self, from: Pos, up: bool) -> (res: Option<Pos>)
        requires
            self.wf(),
            from.in_world(),
        ensures
            res == self.spec_stairs_to(from, up),
    {
        if !self.has_stairs(from, up) {
            return None;
        }
        let level = if up { from.level.h + 1 } else { from.level.h - 1 };
        let from_zone = Zone::from_pos(from);
        let mut distance: i32 = 0;
        while distance < ZONE_SIZE
            invariant
                self.wf(),
                from.in_world(),
                self.spec_has_stairs(from, up),
                0 <= distance <= ZONE_SIZE,
                level == (if up { from.level.h + 1 } else { from.level.h - 1 }),
                MIN_LEVEL <= level <= MAX_LEVEL,
                from_zone == Zone::spec_from_pos(from),
                forall|dx2: int, dz2: int|
                    #[trigger] self.stairs_match(from, dx2, dz2, up) ==> cheb(dx2, dz2) >= distance,
            decreases ZONE_SIZE - distance,
        {
            let mut dx: i32 = -distance;
            while dx <= distance
                invariant
                    self.wf(),
                    from.in_world(),
                    self.spec_has_stairs(from, up),
                    0 <= distance < ZONE_SIZE,
                    -distance <= dx <= distance + 1,
                    level == (if up { from.level.h + 1 } else { from.level.h - 1 }),
                    MIN_LEVEL <= level <= MAX_LEVEL,
                    from_zone == Zone::spec_from_pos(from),
                    forall|dx2: int, dz2: int|
                        #[trigger] self.stairs_match(from, dx2, dz2, up) ==> cheb(dx2, dz2) >= distance
                            && (cheb(dx2, dz2) == distance ==> dx2 >= dx),
                decreases distance + 1 - dx,
            {
                let mut dz: i32 = -distance;
                while dz <= distance
                    invariant
                        self.wf(),
                        from.in_world(),
                        self.spec_has_stairs(from, up),
                        0 <= distance < ZONE_SIZE,
                        -distance <= dx <= distance,
                        -distance <= dz <= distance + 1,
                        level == (if up { from.level.h + 1 } else { from.level.h - 1 }),
                        MIN_LEVEL <= level <= MAX_LEVEL,
                        from_zone == Zone::spec_from_pos(from),
                        forall|dx2: int, dz2: int|
                            #[trigger] self.stairs_match(from, dx2, dz2, up) ==> cheb(dx2, dz2) >= distance
                                && (cheb(dx2, dz2) == distance ==> dx2 >= dx)
                                && (cheb(dx2, dz2) == distance && dx2 == dx ==> dz2 >= dz),
                    decreases distance + 1 - dz,
                {
                    let ax: i32 = if dx < 0 { -dx } else { dx };
                    let az: i32 = if dz < 0 { -dz } else { dz };
                    let m: i32 = if ax < az { az } else { ax };
                    if m == distance {
                        let x: i32 = from.x + dx;
                        let z: i32 = from.z + dz;
                        if -MAX_COORD <= x && x <= MAX_COORD && -MAX_COORD <= z && z <= MAX_COORD {
                            let c = Pos { x, level: Level { h: level }, z };
                            assert(stairs_candidate(from, dx as int, dz as int, up) == Some(c));
                            if Zone::from_pos(c) == from_zone && self.has_stairs(c, !up) {
                                proof {
                                    assert(self.stairs_match(from, dx as int, dz as int, up));
                                    assert(self.is_first_stairs_match(from, dx as int, dz as int, up));
                                    let (cx, cz) = choose|cx: int, cz: int| self.is_first_stairs_match(from, cx, cz, up);
                                    self.lemma_first_unique(from, dx as int, dz as int, cx, cz, up);
                                }
                                return Some(c);
                            }
                        }
                    }
                    dz += 1;
                }
                dx += 1;
            }
            distance += 1;
        }
        proof {
            assert forall|dx2: int, dz2: int| !self.is_first_stairs_match(from, dx2, dz2, up) by {
                if self.stairs_match(from, dx2, dz2, up) {
                    assert(cheb(dx2, dz2) >= ZONE_SIZE);
                }
            }
        }
        if up {
            from.raw_nbor(Nbor::Up)
        } else {
            from.raw_nbor(Nbor::Down)
        }
    }

    /// Where the stairs up at `from` lead, if there are any.
    pub fn stairs_up_to(&self, from: Pos) -> (res: Option<Pos>)
        requires
            self.wf(),
            from.in_world(),
        ensures
            res == self.spec_stairs_to(from, true),
    {
        self.stairs_to(from, true)
    }

    /// Where the stairs down at `from` lead, if there are any.
    pub fn stairs_down_to(&self, from: Pos) -> (res: Option<Pos>)
        requires
            self.wf(),
            from.in_world(),
        ensures
            res == self.spec_stairs_to(from, false),
    {
        self.stairs_to(from, false)
    }
}


/// Speed of a character, in millimetres per second.
#[derive(Clone, Copy, Debug, PartialEq, Eq, Structural)]
pub struct MillimeterPerSecond {
    pub mm_per_s: u64,
}

/// The length of a step to a neighbour.
#[derive(Clone, Copy, Debug, PartialEq, Eq, Structural)]
pub enum NborDistance {
    Up,
    Adjacent,
    Diagonal,
    Down,
    Zero,
}

impl NborDistance {
    /// The length of the step, in millimetres of walking on plain ground.
    pub open spec fn spec_mm(self) -> u64 {
        match self {
            NborDistance::Up => 2000,
            NborDistance::Adjacent => 1000,
            NborDistance::Diagonal => 1414,
            NborDistance::Down => 1000,
            NborDistance::Zero => 0,
        }
    }

    pub fn mm(self) -> (res: u64)
        ensures
            res == self.spec_mm(),
    {
        match self {
            NborDistance::Up => 2000,
            NborDistance::Adjacent => 1000,
            NborDistance::Diagonal => 1414,
            NborDistance::Down => 1000,
            NborDistance::Zero => 0,
        }
    }
}

impl Nbor {
    pub open spec fn spec_distance(self) -> NborDistance {
        match self {
            Nbor::Up => NborDistance::Up,
            Nbor::Down => NborDistance::Down,
            Nbor::Horizontal(HorizontalDirection::Here) => NborDistance::Zero,
            Nbor::Horizontal(HorizontalDirection::North) => NborDistance::Adjacent,
            Nbor::Horizontal(HorizontalDirection::East) => NborDistance::Adjacent,
            Nbor::Horizontal(HorizontalDirection::South) => NborDistance::Adjacent,
            Nbor::Horizontal(HorizontalDirection::West) => NborDistance::Adjacent,
            Nbor::Horizontal(_) => NborDistance::Diagonal,
        }
    }

    /// The length of a step in this direction.
    pub fn distance(self) -> (res: NborDistance)
        ensures
            res == self.spec_distance(),
    {
        match self {
            Nbor::Up => NborDistance::Up,
            Nbor::Down => NborDistance::Down,
            Nbor::Horizontal(HorizontalDirection::Here) => NborDistance::Zero,
            Nbor::Horizontal(HorizontalDirection::North) => NborDistance::Adjacent,
            Nbor::Horizontal(HorizontalDirection::East) => NborDistance::Adjacent,
            Nbor::Horizontal(HorizontalDirection::South) => NborDistance::Adjacent,
            Nbor::Horizontal(HorizontalDirection::West) => NborDistance::Adjacent,
            Nbor::Horizontal(_) => NborDistance::Diagonal,
        }
    }
}

/// The effort of walking somewhere, as millimetres of plain ground.
#[derive(Clone, Copy, Debug, PartialEq, Eq, Structural)]
pub struct WalkingCost {
    pub equivalent_mm: u64,
}

/// Upper bound on the move costs that the rules handle.
pub const MAX_MOVE_COST: u16 = 1000;

impl WalkingCost {
    pub open spec fn spec_new(nbor_distance: NborDistance, move_cost: MoveCost) -> WalkingCost {
        WalkingCost {
            equivalent_mm: (nbor_distance.spec_mm() * move_cost.value / NORMAL_MOVE_COST as int) as u64,
        }
    }

    /// The effort of one step of the given length on the given floor.
    pub fn new(nbor_distance: NborDistance, move_cost: MoveCost) -> (res: WalkingCost)
        requires
            move_cost.value <= MAX_MOVE_COST + 255,
        ensures
            res == Self::spec_new(nbor_distance, move_cost),
    {
        let mm = nbor_distance.mm();
        assert(mm * move_cost.value <= 2000 * 1255) by (nonlinear_arith)
            requires
                mm <= 2000,
                move_cost.value <= 1255,
        ;
        WalkingCost { equivalent_mm: mm * (move_cost.value as u64) / (NORMAL_MOVE_COST as u64) }
    }

    pub open spec fn spec_duration(self, speed: MillimeterPerSecond) -> u64 {
        (self.equivalent_mm * 1000 / speed.mm_per_s as int) as u64
    }

    /// How long the walk takes at the given speed, in milliseconds.
    pub fn duration(self, speed: MillimeterPerSecond) -> (res: crate::units::Milliseconds)
        requires
            speed.mm_per_s > 0,
            self.equivalent_mm <= u64::MAX / 1000,
        ensures
            res.ms == self.spec_duration(speed),
    {
        crate::units::Milliseconds { ms: self.equivalent_mm * 1000 / speed.mm_per_s }
    }
}

/// Which characters can find their way.
#[derive(Clone, Copy, Debug, PartialEq, Eq, Structural)]
pub enum Intelligence {
    Smart,
    Dumb,
}

/// What a player looks for around them.
#[derive(Clone, Copy, Debug, PartialEq, Eq, Structural)]
pub enum ExploreTarget {
    Attack,
    Smash,
    Pulp,
    Close,
}

/// Which neighbours a search accepts.
#[derive(Clone, Copy, Debug, PartialEq, Eq, Structural)]
pub enum NborFilter {
    /// Every neighbour.
    All,
    /// Only the given position.
    Exactly(Pos),
    /// Neighbours with something of the given kind, seen from `from`.
    Explore { from: Pos, target: ExploreTarget },
    /// Neighbours on the given level.
    SameLevel(Level),
    /// Neighbours that a character at `from` may move to.
    Moving { from: Pos, destination: Option<Pos>, intelligence: Intelligence },
}

impl Envir {
    pub open spec fn spec_get_nbor(&self, from: Pos, nbor: Nbor) -> Result<Pos, &'static str> {
        match nbor {
            Nbor::Up => match self.spec_stairs_to(from, true) {
                Some(p) => Ok(p),
                None => Err("No stairs up"),
            },
            Nbor::Down => match self.spec_stairs_to(from, false) {
                Some(p) => Ok(p),
                None => Err("No stairs down"),
            },
            Nbor::Horizontal(dir) => Ok(from.spec_horizontal_nbor(dir)),
        }
    }

    /// The neighbour of `from`; vertical neighbours follow the stairs, even
    /// when these do not go straight up or down. A horizontal neighbour is
    /// always there; from the edge of the world it lies just outside.
    pub fn get_nbor(&self, from: Pos, nbor: Nbor) -> (res: Result<Pos, &'static str>)
        requires
            self.wf(),
            from.in_world(),
        ensures
            res == self.spec_get_nbor(from, nbor),
            !(nbor is Horizontal) ==> (res matches Ok(p) ==> p.in_world()),
    {
        match nbor {
            Nbor::Up => match self.stairs_up_to(from) {
                Some(p) => Ok(p),
                None => Err("No stairs up"),
            },
            Nbor::Down => match self.stairs_down_to(from) {
                Some(p) => Ok(p),
                None => Err("No stairs down"),
            },
            Nbor::Horizontal(dir) => Ok(from.horizontal_nbor(dir)),
        }
    }

    /// The neighbour of `from` that movement and route planning take: the
    /// neighbour, where it lies in the world.
    pub open spec fn spec_world_nbor(&self, from: Pos, nbor: Nbor) -> Result<Pos, &'static str> {
        match self.spec_get_nbor(from, nbor) {
            Ok(p) => if p.in_world() { Ok(p) } else { Err("Outside the world") },
            Err(text) => Err(text),
        }
    }

    /// The neighbour of `from` inside the world.
    pub fn world_nbor(&self, from: Pos, nbor: Nbor) -> (res: Result<Pos, &'static str>)
        requires
            self.wf(),
            from.in_world(),
        ensures
            res == self.spec_world_nbor(from, nbor),
            res matches Ok(p) ==> p.in_world(),
    {
        match self.get_nbor(from, nbor) {
            Ok(p) => if p.is_in_world() { Ok(p) } else { Err("Outside the world") },
            Err(text) => Err(text),
        }
    }

    /// Looking up (or down) from `from`: along the stairs where there are
    /// stairs; else at the position straight above (or below), unless that
    /// holds stairs down (or up) that lead somewhere other than `from`.
    pub open spec fn spec_looking_vertical(&self, from: Pos, up: bool) -> Option<Pos> {
        match self.spec_stairs_to(from, up) {
            Some(p) => Some(p),
            None => match from.spec_raw_nbor(vertical(up)) {
                Some(raw) => match self.spec_stairs_to(raw, !up) {
                    Some(back) => if back == from { Some(raw) } else { None },
                    None => Some(raw),
                },
                None => None,
            },
        }
    }

    fn looking_vertical(&self, from: Pos, up: bool) -> (res: Option<Pos>)
        requires
            self.wf(),
            from.in_world(),
        ensures
            res == self.spec_looking_vertical(from, up),
    {
        match self.stairs_to(from, up) {
            Some(p) => Some(p),
            None => {
                let raw = if up { from.raw_nbor(Nbor::Up) } else { from.raw_nbor(Nbor::Down) };
                match raw {
                    Some(raw) => match self.stairs_to(raw, !up) {
                        Some(back) => if back == from { Some(raw) } else { None },
                        None => Some(raw),
                    },
                    None => None,
                }
            },
        }
    }

    /// The neighbour that one looks at: along the stairs where there are
    /// stairs, else straight up or down, unless the position there holds
    /// stairs that lead somewhere else.
    pub fn get_looking_nbor(&self, from: Pos, nbor: Nbor) -> (res: Option<Pos>)
        requires
            self.wf(),
            from.in_world(),
        ensures
            res == (match nbor {
                Nbor::Up => self.spec_looking_vertical(from, true),
                Nbor::Down => self.spec_looking_vertical(from, false),
                Nbor::Horizontal(dir) => Some(from.spec_horizontal_nbor(dir)),
            }),
    {
        match nbor {
            Nbor::Up => self.looking_vertical(from, true),
            Nbor::Down => self.looking_vertical(from, false),
            Nbor::Horizontal(dir) => Some(from.horizontal_nbor(dir)),
        }
    }

    /// The move cost of the floor at `pos`, plain ground where there is none.
    pub open spec fn spec_floor_move_cost(&self, pos: Pos) -> MoveCost {
        match self.tile_at(pos) {
            Some(t) => match t.floor {
                Some(f) => f.move_cost,
                None => MoveCost { value: NORMAL_MOVE_COST },
            },
            None => MoveCost { value: NORMAL_MOVE_COST },
        }
    }

    fn floor_move_cost(&self, pos: Pos) -> (res: MoveCost)
        requires
            self.wf(),
        ensures
            res == self.spec_floor_move_cost(pos),
    {
        match self.tile(pos) {
            Some(t) => match t.floor {
                Some(f) => f.move_cost,
                None => MoveCost { value: NORMAL_MOVE_COST },
            },
            None => MoveCost { value: NORMAL_MOVE_COST },
        }
    }

    /// The floors have move costs that the rules handle.
    pub open spec fn costs_bounded(&self) -> bool {
        forall|i: int| 0 <= i < self.tiles().len() ==> (#[trigger] self.tiles()[i].floor matches Some(f)
            ==> f.move_cost.value <= MAX_MOVE_COST)
    }

    proof fn lemma_floor_cost_bounded(&self, pos: Pos)
        requires
            self.wf(),
            self.costs_bounded(),
        ensures
            self.spec_floor_move_cost(pos).value <= MAX_MOVE_COST,
    {
        if self.has_tile(pos) {
            let k = choose|k: int| 0 <= k < self.tiles().len() && #[trigger] self.tiles()[k].pos == pos;
            self.lemma_tile_at(k);
            assert(self.tiles()[k].floor matches Some(f) ==> f.move_cost.value <= MAX_MOVE_COST);
        }
    }

    pub open spec fn spec_accepts(&self, filter: NborFilter, npos: Pos) -> bool {
        match filter {
            NborFilter::All => true,
            NborFilter::Exactly(p) => npos == p,
            NborFilter::Explore { from, target } => match target {
                ExploreTarget::Attack => npos != from && self.find(npos, |t: Tile| t.character) is Some,
                ExploreTarget::Smash => self.find(npos, |t: Tile| t.smashable) is Some,
                ExploreTarget::Pulp => self.find(npos, |t: Tile| t.pulpable) is Some,
                ExploreTarget::Close => self.find(npos, |t: Tile| t.closeable) is Some,
            },
            NborFilter::SameLevel(level) => npos.level == level,
            NborFilter::Moving { from, destination, intelligence } => {
                &&& (from.level.h == 0 || self.has_tile(from))
                &&& {
                    let at_destination = destination == Some(npos);
                    match intelligence {
                        Intelligence::Smart => self.spec_is_accessible(npos)
                            && (at_destination || self.find(npos, |t: Tile| t.obstacle) is None),
                        Intelligence::Dumb => at_destination || !self.spec_is_opaque(npos),
                    }
                }
            },
        }
    }

    fn accepts(&self, filter: NborFilter, npos: Pos) -> (res: bool)
        requires
            self.wf(),
        ensures
            res == self.spec_accepts(filter, npos),
    {
        match filter {
            NborFilter::All => true,
            NborFilter::Exactly(p) => npos == p,
            NborFilter::Explore { from, target } => match target {
                ExploreTarget::Attack => npos != from && self.find_character(npos).is_some(),
                ExploreTarget::Smash => self.find_smashable(npos).is_some(),
                ExploreTarget::Pulp => self.find_pulpable(npos).is_some(),
                ExploreTarget::Close => self.find_closeable(npos).is_some(),
            },
            NborFilter::SameLevel(level) => npos.level == level,
            NborFilter::Moving { from, destination, intelligence } => {
                let occupied = from.level.h == 0 || self.tile(from).is_some();
                if !occupied {
                    return false;
                }
                let at_destination = match destination {
                    Some(d) => d == npos,
                    None => false,
                };
                match intelligence {
                    Intelligence::Smart => self.is_accessible(npos)
                        && (at_destination || self.find_obstacle(npos).is_none()),
                    Intelligence::Dumb => at_destination || !self.is_opaque(npos),
                }
            },
        }
    }

    /// The neighbours of `pos` among the first `k` directions that exist and
    /// that `filter` accepts, each with the direction and the effort of the step.
    pub open spec fn spec_nbors_if(&self, pos: Pos, filter: NborFilter, k: nat) -> Seq<(Nbor, Pos, WalkingCost)>
        decreases k,
    {
        if k == 0 {
            Seq::empty()
        } else {
            let earlier = self.spec_nbors_if(pos, filter, (k - 1) as nat);
            let nbor = Nbor::spec_all()[k - 1];
            match self.spec_world_nbor(pos, nbor) {
                Ok(npos) => if self.spec_accepts(filter, npos) {
                    earlier.push((nbor, npos, WalkingCost::spec_new(nbor.spec_distance(), self.spec_floor_move_cost(npos))))
                } else {
                    earlier
                },
                Err(_) => earlier,
            }
        }
    }

    /// The existing neighbours of `pos` that `filter` accepts, in the order of
    /// `Nbor::all`, with the effort of each step.
    pub fn nbors_if(&self, pos: Pos, filter: NborFilter) -> (res: Vec<(Nbor, Pos, WalkingCost)>)
        requires
            self.wf(),
            self.costs_bounded(),
            pos.in_world(),
        ensures
            res@ == self.spec_nbors_if(pos, filter, 11),
            forall|i: int| 0 <= i < res@.len() ==> (#[trigger] res@[i]).2.equivalent_mm <= 1_000_000,
    {
        let all = Nbor::all();
        let mut res: Vec<(Nbor, Pos, WalkingCost)> = Vec::new();
        let mut i: usize = 0;
        while i < all.len()
            invariant
                self.wf(),
                self.costs_bounded(),
                pos.in_world(),
                all@ == Nbor::spec_all(),
                i <= all@.len(),
                res@ == self.spec_nbors_if(pos, filter, i as nat),
                forall|j: int| 0 <= j < res@.len() ==> (#[trigger] res@[j]).2.equivalent_mm <= 1_000_000,
            decreases all@.len() - i,
        {
            let nbor = all[i];
            match self.world_nbor(pos, nbor) {
                Ok(npos) => {
                    if self.accepts(filter, npos) {
                        let cost = self.floor_move_cost(npos);
                        proof {
                            self.lemma_floor_cost_bounded(npos);
                        }
                        let distance = nbor.distance();
                        let mm = distance.mm();
                        assert(mm * cost.value <= 2_000_000) by (nonlinear_arith)
                            requires
                                mm <= 2000,
                                cost.value <= 1000,
                        ;
                        let step = WalkingCost::new(distance, cost);
                        res.push((nbor, npos, step));
                    }
                },
                Err(_) => {},
            }
            i += 1;
        }
        res
    }

    /// The direction from `one` to the neighbouring position `other`, if it is one.
    pub fn nbor(&self, one: Pos, other: Pos) -> (res: Option<Nbor>)
        requires
            self.wf(),
            self.costs_bounded(),
            one.in_world(),
        ensures
            res == (if self.spec_nbors_if(one, NborFilter::Exactly(other), 11).len() > 0 {
                Some(self.spec_nbors_if(one, NborFilter::Exactly(other), 11)[0].0)
            } else {
                None::<Nbor>
            }),
    {
        let found = self.nbors_if(one, NborFilter::Exactly(other));
        if found.len() > 0 {
            Some(found[0].0)
        } else {
            None
        }
    }

    /// The neighbours of `pos` where the player finds something of the given kind.
    pub fn nbors_for_exploring(&self, pos: Pos, target: ExploreTarget) -> (res: Vec<Nbor>)
        requires
            self.wf(),
            self.costs_bounded(),
            pos.in_world(),
        ensures
            res@ == self.spec_nbors_if(pos, NborFilter::Explore { from: pos, target }, 11).map_values(
                |n: (Nbor, Pos, WalkingCost)| n.0,
            ),
    {
        let found = self.nbors_if(pos, NborFilter::Explore { from: pos, target });
        let mut res: Vec<Nbor> = Vec::new();
        let mut i: usize = 0;
        while i < found.len()
            invariant
                i <= found@.len(),
                res@ == found@.take(i as int).map_values(|n: (Nbor, Pos, WalkingCost)| n.0),
            decreases found@.len() - i,
        {
            res.push(found[i].0);
            proof {
                assert(found@.take(i + 1).drop_last() =~= found@.take(i as int));
            }
            i += 1;
            assert(res@ =~= found@.take(i as int).map_values(|n: (Nbor, Pos, WalkingCost)| n.0));
        }
        assert(found@.take(found@.len() as int) =~= found@);
        res
    }

    /// The neighbours of `pos` on its own level, where items can be handled.
    pub fn nbors_for_item_handling(&self, pos: Pos) -> (res: Vec<(Nbor, Pos)>)
        requires
            self.wf(),
            self.costs_bounded(),
            pos.in_world(),
        ensures
            res@ == self.spec_nbors_if(pos, NborFilter::SameLevel(pos.level), 11).map_values(
                |n: (Nbor, Pos, WalkingCost)| (n.0, n.1),
            ),
    {
        let found = self.nbors_if(pos, NborFilter::SameLevel(pos.level));
        let mut res: Vec<(Nbor, Pos)> = Vec::new();
        let mut i: usize = 0;
        while i < found.len()
            invariant
                i <= found@.len(),
                res@ == found@.take(i as int).map_values(|n: (Nbor, Pos, WalkingCost)| (n.0, n.1)),
            decreases found@.len() - i,
        {
            res.push((found[i].0, found[i].1));
            i += 1;
            assert(res@ =~= found@.take(i as int).map_values(|n: (Nbor, Pos, WalkingCost)| (n.0, n.1)));
        }
        assert(found@.take(found@.len() as int) =~= found@);
        res
    }
}


/// What happens when a character moves to a neighbouring position.
#[derive(Clone, Copy, Debug, PartialEq, Eq, Structural)]
pub enum Collision {
    Pass,
    Blocked(EntityId),
    Ledged,
    Opened(EntityId),
}

pub open spec fn abs_diff(a: int, b: int) -> int {
    if a < b { b - a } else { a - b }
}

pub open spec fn min_int(a: int, b: int) -> int {
    if a < b { a } else { b }
}

pub open spec fn max_int(a: int, b: int) -> int {
    if a < b { b } else { a }
}

impl Envir {
    /// The move cost at `to` when `to` is a direct neighbour: the floor's, raised
    /// by a hurdle, or plain ground where there is no floor.
    pub open spec fn spec_nbor_move_cost(&self, to: Pos) -> MoveCost {
        match self.tile_at(to) {
            Some(t) => match t.floor {
                Some(f) => f.move_cost.spec_adjust(t.hurdle),
                None => MoveCost { value: NORMAL_MOVE_COST },
            },
            None => MoveCost { value: NORMAL_MOVE_COST },
        }
    }

    /// The walking effort from `from` to `to`, ignoring obstacles and stairs:
    /// the steps up, straight, diagonal and down that a direct route takes,
    /// on the floor of `to` when it is a neighbour, else on plain ground.
    pub open spec fn spec_walking_cost(&self, from: Pos, to: Pos) -> WalkingCost {
        let dx = abs_diff(from.x as int, to.x as int);
        let dz = abs_diff(from.z as int, to.z as int);
        let diagonal = min_int(dx, dz);
        let adjacent = max_int(dx, dz) - diagonal;
        let dy = to.level.h - from.level.h;
        let up = max_int(dy, 0);
        let down = max_int(-dy, 0);
        let move_cost = if diagonal + adjacent + up + down == 1 {
            self.spec_nbor_move_cost(to)
        } else {
            MoveCost { value: NORMAL_MOVE_COST }
        };
        WalkingCost {
            equivalent_mm: (up * WalkingCost::spec_new(NborDistance::Up, move_cost).equivalent_mm
                + adjacent * WalkingCost::spec_new(NborDistance::Adjacent, move_cost).equivalent_mm
                + diagonal * WalkingCost::spec_new(NborDistance::Diagonal, move_cost).equivalent_mm
                + down * WalkingCost::spec_new(NborDistance::Down, move_cost).equivalent_mm) as u64,
        }
    }

    /// The walking effort from `from` to `to`, without regard for obstacles or
    /// stairs, unless they are neighbours.
    pub fn walking_cost(&self, from: Pos, to: Pos) -> (res: WalkingCost)
        requires
            self.wf(),
            self.costs_bounded(),
            from.in_world(),
            to.in_world(),
        ensures
            res == self.spec_walking_cost(from, to),
            res.equivalent_mm <= 4_000_000_000_000_000,
    {
        let dx: u64 = if from.x < to.x { (to.x as i64 - from.x as i64) as u64 } else { (from.x as i64 - to.x as i64) as u64 };
        let dz: u64 = if from.z < to.z { (to.z as i64 - from.z as i64) as u64 } else { (from.z as i64 - to.z as i64) as u64 };
        let diagonal: u64 = if dx < dz { dx } else { dz };
        let adjacent: u64 = (if dx < dz { dz } else { dx }) - diagonal;
        let dy: i64 = to.level.h as i64 - from.level.h as i64;
        let up: u64 = if dy > 0 { dy as u64 } else { 0 };
        let down: u64 = if dy < 0 { (-dy) as u64 } else { 0 };
        let move_cost = if diagonal + adjacent + up + down == 1 {
            match self.tile(to) {
                Some(t) => match t.floor {
                    Some(f) => {
                        proof {
                            self.lemma_floor_cost_bounded(to);
                        }
                        f.move_cost.adjust(t.hurdle)
                    },
                    None => MoveCost { value: NORMAL_MOVE_COST },
                },
                None => MoveCost { value: NORMAL_MOVE_COST },
            }
        } else {
            MoveCost { value: NORMAL_MOVE_COST }
        };
        let c_up = WalkingCost::new(NborDistance::Up, move_cost).equivalent_mm;
        let c_adjacent = WalkingCost::new(NborDistance::Adjacent, move_cost).equivalent_mm;
        let c_diagonal = WalkingCost::new(NborDistance::Diagonal, move_cost).equivalent_mm;
        let c_down = WalkingCost::new(NborDistance::Down, move_cost).equivalent_mm;
        assert(c_up <= 1_255_000 && c_adjacent <= 627_500 && c_diagonal <= 887_285 && c_down <= 627_500) by (nonlinear_arith)
            requires
                move_cost.value <= 1255,
                c_up == 2000 * move_cost.value / 2,
                c_adjacent == 1000 * move_cost.value / 2,
                c_diagonal == 1414 * move_cost.value / 2,
                c_down == 1000 * move_cost.value / 2,
        ;
        assert(up * c_up + adjacent * c_adjacent + diagonal * c_diagonal + down * c_down <= 4_000_000_000_000_000) by (nonlinear_arith)
            requires
                up <= 20,
                down <= 20,
                adjacent + diagonal <= 4_295_000_000,
                c_up <= 1_255_000,
                c_adjacent <= 627_500,
                c_diagonal <= 887_285,
                c_down <= 627_500,
        ;
        WalkingCost { equivalent_mm: up * c_up + adjacent * c_adjacent + diagonal * c_diagonal + down * c_down }
    }

    /// The neighbours that a character at `pos` may move to, with the time
    /// each step takes at `speed`.
    pub fn nbors_for_moving(
        &self,
        pos: Pos,
        destination: Option<Pos>,
        intelligence: Intelligence,
        speed: MillimeterPerSecond,
    ) -> (res: Vec<(Nbor, Pos, crate::units::Milliseconds)>)
        requires
            self.wf(),
            self.costs_bounded(),
            pos.in_world(),
            speed.mm_per_s > 0,
        ensures
            res@.len() == self.spec_nbors_if(pos, NborFilter::Moving { from: pos, destination, intelligence }, 11).len(),
            forall|i: int| 0 <= i < res@.len() ==> {
                let n = #[trigger] self.spec_nbors_if(pos, NborFilter::Moving { from: pos, destination, intelligence }, 11)[i];
                res@[i].0 == n.0 && res@[i].1 == n.1 && res@[i].2.ms == n.2.spec_duration(speed)
            },
    {
        let found = self.nbors_if(pos, NborFilter::Moving { from: pos, destination, intelligence });
        let mut res: Vec<(Nbor, Pos, crate::units::Milliseconds)> = Vec::new();
        let mut i: usize = 0;
        while i < found.len()
            invariant
                i <= found@.len(),
                speed.mm_per_s > 0,
                forall|j: int| 0 <= j < found@.len() ==> (#[trigger] found@[j]).2.equivalent_mm <= 1_255_000,
                res@.len() == i,
                forall|j: int| 0 <= j < i ==> {
                    let n = #[trigger] found@[j];
                    res@[j].0 == n.0 && res@[j].1 == n.1 && res@[j].2.ms == n.2.spec_duration(speed)
                },
            decreases found@.len() - i,
        {
            let (nbor, npos, cost) = found[i];
            res.push((nbor, npos, cost.duration(speed)));
            i += 1;
        }
        res
    }

    pub open spec fn spec_to_nbor(&self, from: Pos, to: Pos) -> Option<Nbor> {
        if to.level.h - from.level.h == 1 {
            if self.spec_get_nbor(from, Nbor::Up) == Ok::<Pos, &'static str>(to) { Some(Nbor::Up) } else { None }
        } else if to.level.h == from.level.h {
            match HorizontalDirection::spec_from_offset(to.x - from.x, to.z - from.z) {
                Some(d) => Some(Nbor::Horizontal(d)),
                None => None,
            }
        } else if to.level.h - from.level.h == -1 {
            if self.spec_get_nbor(from, Nbor::Down) == Ok::<Pos, &'static str>(to) { Some(Nbor::Down) } else { None }
        } else {
            None
        }
    }

    /// The direction from `from` to `to`, if `to` is its neighbour; vertical
    /// directions count only where the stairs lead to `to`.
    pub fn to_nbor(&self, from: Pos, to: Pos) -> (res: Option<Nbor>)
        requires
            self.wf(),
            from.in_world(),
            offset_fits(to, from),
        ensures
            res == self.spec_to_nbor(from, to),
    {
        let dh: i16 = to.level.h as i16 - from.level.h as i16;
        if dh == 1 {
            match self.get_nbor(from, Nbor::Up) {
                Ok(p) => if p == to { Some(Nbor::Up) } else { None },
                Err(_) => None,
            }
        } else if dh == 0 {
            match HorizontalDirection::from_offset(to.x - from.x, to.z - from.z) {
                Some(d) => Some(Nbor::Horizontal(d)),
                None => None,
            }
        } else if dh == -1 {
            match self.get_nbor(from, Nbor::Down) {
                Ok(p) => if p == to { Some(Nbor::Down) } else { None },
                Err(_) => None,
            }
        } else {
            None
        }
    }

    /// Moving from `from` to `to` would make the game fail: the rules do not
    /// cover doors between levels, nor uncontrolled moves up, down or off a ledge.
    pub open spec fn collision_unsupported(&self, from: Pos, to: Pos, controlled: bool) -> bool {
        if to.level != from.level {
            self.find(to, |t: Tile| t.openable) is Some || !controlled
        } else {
            !controlled && self.find(to, |t: Tile| t.obstacle) is None && !self.spec_is_accessible(to)
        }
    }

    pub open spec fn spec_collide(&self, from: Pos, to: Pos, controlled: bool) -> Collision {
        if to.level != from.level {
            match self.find(to, |t: Tile| t.obstacle) {
                Some(obstacle) => Collision::Blocked(obstacle),
                None => Collision::Pass,
            }
        } else if controlled && self.find(to, |t: Tile| t.openable) is Some {
            Collision::Opened(self.find(to, |t: Tile| t.openable)->0)
        } else if self.find(to, |t: Tile| t.obstacle) is Some {
            Collision::Blocked(self.find(to, |t: Tile| t.obstacle)->0)
        } else if self.spec_is_accessible(to) {
            Collision::Pass
        } else {
            Collision::Ledged
        }
    }

    /// What happens when a character moves from `from` to its neighbour `to`;
    /// `controlled` moves are those of the player.
    pub fn collide(&self, from: Pos, to: Pos, controlled: bool) -> (res: Collision)
        requires
            self.wf(),
            self.costs_bounded(),
            from.in_world(),
            from != to,
            self.spec_nbors_if(from, NborFilter::Exactly(to), 11).len() > 0,
            !self.collision_unsupported(from, to, controlled),
        ensures
            res == self.spec_collide(from, to, controlled),
    {
        if to.level != from.level {
            match self.find_obstacle(to) {
                Some(obstacle) => Collision::Blocked(obstacle),
                None => Collision::Pass,
            }
        } else {
            let opened = if controlled { self.find_openable(to) } else { None };
            if let Some(openable) = opened {
                Collision::Opened(openable)
            } else if let Some(obstacle) = self.find_obstacle(to) {
                Collision::Blocked(obstacle)
            } else if self.is_accessible(to) {
                Collision::Pass
            } else {
                Collision::Ledged
            }
        }
    }

    /// The positions among the first `k` tiles with stairs up (or down) whose
    /// position straight above (or below) has no stairs back.
    pub open spec fn spec_magic_stairs(&self, up: bool, k: nat) -> Seq<Pos>
        decreases k,
    {
        if k == 0 {
            Seq::empty()
        } else {
            let earlier = self.spec_magic_stairs(up, (k - 1) as nat);
            let t = self.tiles()[k - 1];
            let has = if up { t.stairs_up } else { t.stairs_down };
            if has && (t.pos.spec_raw_nbor(vertical(up)) matches Some(other) && !self.spec_has_stairs(other, !up)) {
                earlier.push(t.pos)
            } else {
                earlier
            }
        }
    }

    fn magic_stairs(&self, up: bool) -> (res: Vec<Pos>)
        requires
            self.wf(),
            forall|i: int| 0 <= i < self.tiles().len() ==> (#[trigger] self.tiles()[i]).pos.in_world(),
        ensures
            res@ == self.spec_magic_stairs(up, self.tiles().len()),
    {
        let mut res: Vec<Pos> = Vec::new();
        let mut i: usize = 0;
        while i < self.tiles.len()
            invariant
                self.wf(),
                forall|j: int| 0 <= j < self.tiles().len() ==> (#[trigger] self.tiles()[j]).pos.in_world(),
                i <= self.tiles@.len(),
                res@ == self.spec_magic_stairs(up, i as nat),
            decreases self.tiles@.len() - i,
        {
            let t = self.tiles[i];
            let has = if up { t.stairs_up } else { t.stairs_down };
            if has {
                let other = if up { t.pos.raw_nbor(Nbor::Up) } else { t.pos.raw_nbor(Nbor::Down) };
                if let Some(other) = other {
                    if !self.has_stairs(other, !up) {
                        res.push(t.pos);
                    }
                }
            }
            i += 1;
        }
        res
    }

    /// The stairs up that do not have stairs down directly above them.
    pub fn magic_stairs_up(&self) -> (res: Vec<Pos>)
        requires
            self.wf(),
            forall|i: int| 0 <= i < self.tiles().len() ==> (#[trigger] self.tiles()[i]).pos.in_world(),
        ensures
            res@ == self.spec_magic_stairs(true, self.tiles().len()),
    {
        self.magic_stairs(true)
    }

    /// The stairs down that do not have stairs up directly below them.
    pub fn magic_stairs_down(&self) -> (res: Vec<Pos>)
        requires
            self.wf(),
            forall|i: int| 0 <= i < self.tiles().len() ==> (#[trigger] self.tiles()[i]).pos.in_world(),
        ensures
            res@ == self.spec_magic_stairs(false, self.tiles().len()),
    {
        self.magic_stairs(false)
    }
}


impl Envir {
    /// Where the stairs lead lies in the world.
    pub proof fn lemma_stairs_to_in_world(&self, from: Pos, up: bool)
        requires
            from.in_world(),
        ensures
            self.spec_stairs_to(from, up) matches Some(p) ==> p.in_world(),
    {
        if self.spec_has_stairs(from, up) && exists|dx: int, dz: int| self.is_first_stairs_match(from, dx, dz, up) {
            let (dx, dz) = choose|dx: int, dz: int| self.is_first_stairs_match(from, dx, dz, up);
            assert(self.stairs_match(from, dx, dz, up));
        }
    }

    /// The magic stairs are positions of tiles, which lie in the world.
    pub proof fn lemma_magic_stairs_in_world(&self, up: bool, k: nat)
        requires
            k <= self.tiles().len(),
            forall|i: int| 0 <= i < self.tiles().len() ==> (#[trigger] self.tiles()[i]).pos.in_world(),
        ensures
            forall|i: int| 0 <= i < self.spec_magic_stairs(up, k).len()
                ==> (#[trigger] self.spec_magic_stairs(up, k)[i]).in_world(),
        decreases k,
    {
        if k > 0 {
            self.lemma_magic_stairs_in_world(up, (k - 1) as nat);
            let earlier = self.spec_magic_stairs(up, (k - 1) as nat);
            let cur = self.spec_magic_stairs(up, k);
            assert(self.tiles()[k - 1].pos.in_world());
            assert forall|i: int| 0 <= i < cur.len() implies (#[trigger] cur[i]).in_world() by {
                if i < earlier.len() {
                    assert(earlier[i].in_world());
                }
            }
        }
    }

    /// Neighbours lie in the world.
    pub proof fn lemma_get_nbor_in_world(&self, from: Pos, nbor: Nbor)
        requires
            from.in_world(),
        ensures
            self.spec_world_nbor(from, nbor) matches Ok(p) ==> p.in_world(),
            !(nbor is Horizontal) ==> self.spec_world_nbor(from, nbor) == self.spec_get_nbor(from, nbor),
    {
        self.lemma_stairs_to_in_world(from, true);
        self.lemma_stairs_to_in_world(from, false);
    }

    /// The neighbours that a search finds lie in the world.
    pub proof fn lemma_nbors_if_in_world(&self, pos: Pos, filter: NborFilter, k: nat)
        requires
            pos.in_world(),
        ensures
            forall|i: int| 0 <= i < self.spec_nbors_if(pos, filter, k).len()
                ==> (#[trigger] self.spec_nbors_if(pos, filter, k)[i]).1.in_world(),
        decreases k,
    {
        if k > 0 {
            self.lemma_nbors_if_in_world(pos, filter, (k - 1) as nat);
            self.lemma_get_nbor_in_world(pos, Nbor::spec_all()[k - 1]);
            let earlier = self.spec_nbors_if(pos, filter, (k - 1) as nat);
            let cur = self.spec_nbors_if(pos, filter, k);
            assert forall|i: int| 0 <= i < cur.len() implies (#[trigger] cur[i]).1.in_world() by {
                if i < earlier.len() {
                    assert(earlier[i].1.in_world());
                }
            }
        }
    }
}


impl Envir {
    /// Following the stairs up (or down) goes exactly one level up (or down).
    pub proof fn lemma_stairs_to_level(&self, from: Pos, up: bool)
        requires
            from.in_world(),
        ensures
            self.spec_stairs_to(from, up) matches Some(p) ==> p.level.h == (if up { from.level.h + 1 } else { from.level.h - 1 }),
    {
        if self.spec_has_stairs(from, up) && exists|dx: int, dz: int| self.is_first_stairs_match(from, dx, dz, up) {
            let (dx, dz) = choose|dx: int, dz: int| self.is_first_stairs_match(from, dx, dz, up);
            assert(self.stairs_match(from, dx, dz, up));
        }
    }

    /// Law: the player opens a door by walking into it on the same level:
    /// where the tile at `to` holds an openable entity, a controlled move there
    /// opens that entity. Moves that are not controlled never open anything,
    /// and what is opened is the openable entity at `to`.
    pub proof fn law_player_opens_doors(&self, from: Pos, to: Pos, controlled: bool)
        ensures
            controlled && to.level == from.level && (self.tile_at(to) matches Some(t) && t.openable is Some)
                ==> self.spec_collide(from, to, controlled) == Collision::Opened(self.tile_at(to)->0.openable->0),
            !controlled ==> !(self.spec_collide(from, to, controlled) is Opened),
            self.spec_collide(from, to, controlled) matches Collision::Opened(door)
                ==> (self.tile_at(to) matches Some(t) && t.openable == Some(door)),
    {
    }

    /// Law: what moving onto a neighbour runs into. Between levels, an
    /// obstacle there blocks and otherwise the move passes. On the same level,
    /// unless the player opens something, an obstacle there blocks; else a
    /// floor lets the move pass, and without a floor the mover is at a ledge.
    pub proof fn law_collision_outcomes(&self, from: Pos, to: Pos, controlled: bool)
        ensures
            to.level != from.level ==> self.spec_collide(from, to, controlled) == match self.tile_at(to) {
                Some(t) => match t.obstacle {
                    Some(obstacle) => Collision::Blocked(obstacle),
                    None => Collision::Pass,
                },
                None => Collision::Pass,
            },
            to.level == from.level && !(controlled && (self.tile_at(to) matches Some(t) && t.openable is Some))
                ==> self.spec_collide(from, to, controlled) == match self.tile_at(to) {
                    Some(t) => match t.obstacle {
                        Some(obstacle) => Collision::Blocked(obstacle),
                        None => if t.floor is Some { Collision::Pass } else { Collision::Ledged },
                    },
                    None => Collision::Ledged,
                },
    {
    }

    /// Every neighbour that a search finds passes its filter.
    pub proof fn lemma_nbors_if_accepted(&self, pos: Pos, filter: NborFilter, k: nat)
        ensures
            forall|i: int| 0 <= i < self.spec_nbors_if(pos, filter, k).len()
                ==> self.spec_accepts(filter, (#[trigger] self.spec_nbors_if(pos, filter, k)[i]).1),
        decreases k,
    {
        if k > 0 {
            self.lemma_nbors_if_accepted(pos, filter, (k - 1) as nat);
            let earlier = self.spec_nbors_if(pos, filter, (k - 1) as nat);
            let all = self.spec_nbors_if(pos, filter, k);
            assert forall|i: int| 0 <= i < all.len() implies self.spec_accepts(filter, (#[trigger] all[i]).1) by {
                if i < earlier.len() {
                    assert(all[i] == earlier[i]);
                }
            }
        }
    }

    /// Law: a smart character moves only onto floors, and onto an obstacle
    /// only where it is its destination: every neighbour offered to it for
    /// moving has a floor and, unless it is the destination, no obstacle.
    pub proof fn law_smart_moves_avoid_obstacles(&self, pos: Pos, destination: Option<Pos>)
        ensures
            forall|i: int| 0 <= i < self.spec_nbors_if(pos, NborFilter::Moving { from: pos, destination, intelligence: Intelligence::Smart }, 11).len()
                ==> {
                    let npos = (#[trigger] self.spec_nbors_if(pos, NborFilter::Moving { from: pos, destination, intelligence: Intelligence::Smart }, 11)[i]).1;
                    &&& self.tile_at(npos) matches Some(t) && t.floor is Some
                    &&& destination != Some(npos) ==> !(self.tile_at(npos) matches Some(t) && t.obstacle is Some)
                },
            self.spec_nbors_if(pos, NborFilter::Moving { from: pos, destination, intelligence: Intelligence::Smart }, 11).len() > 0
                ==> pos.level.h == 0 || self.has_tile(pos),
    {
        let filter = NborFilter::Moving { from: pos, destination, intelligence: Intelligence::Smart };
        self.lemma_nbors_if_accepted(pos, filter, 11);
        if self.spec_nbors_if(pos, filter, 11).len() > 0 {
            assert(self.spec_accepts(filter, self.spec_nbors_if(pos, filter, 11)[0].1));
        }
    }

    /// Law: the direction that `to_nbor` finds leads there: where it gives
    /// `nbor` for `to`, `get_nbor` leads from `from` in direction `nbor` to
    /// `to`; where the levels differ by more than one, it finds none.
    pub proof fn law_to_nbor_leads_there(&self, from: Pos, to: Pos)
        ensures
            self.spec_to_nbor(from, to) matches Some(nbor) ==> self.spec_get_nbor(from, nbor) == Ok::<Pos, &'static str>(to),
            !(-1 <= to.level.h - from.level.h <= 1) ==> self.spec_to_nbor(from, to) is None,
    {
        if to.level.h == from.level.h {
            if let Some(d) = HorizontalDirection::spec_from_offset(to.x - from.x, to.z - from.z) {
                match d {
                    HorizontalDirection::NorthWest => {},
                    HorizontalDirection::North => {},
                    HorizontalDirection::NorthEast => {},
                    HorizontalDirection::West => {},
                    HorizontalDirection::Here => {},
                    HorizontalDirection::East => {},
                    HorizontalDirection::SouthWest => {},
                    HorizontalDirection::South => {},
                    HorizontalDirection::SouthEast => {},
                }
                assert(from.spec_horizontal_nbor(d) == to);
            }
        }
    }

    /// Law: the direction to a neighbour is the direction that leads there.
    /// Where `get_nbor` leads from `from` in direction `nbor` to `to`, `to_nbor`
    /// gives `nbor` back for `to`.
    pub proof fn law_to_nbor_inverts_get_nbor(&self, from: Pos, nbor: Nbor, to: Pos)
        requires
            from.in_world(),
            self.spec_get_nbor(from, nbor) == Ok::<Pos, &'static str>(to),
        ensures
            self.spec_to_nbor(from, to) == Some(nbor),
    {
        self.lemma_stairs_to_level(from, true);
        self.lemma_stairs_to_level(from, false);
        match nbor {
            Nbor::Horizontal(d) => {
                assert(to.x - from.x == d.spec_offset().0);
                assert(to.z - from.z == d.spec_offset().1);
                match d {
                    HorizontalDirection::NorthWest => {},
                    HorizontalDirection::North => {},
                    HorizontalDirection::NorthEast => {},
                    HorizontalDirection::West => {},
                    HorizontalDirection::Here => {},
                    HorizontalDirection::East => {},
                    HorizontalDirection::SouthWest => {},
                    HorizontalDirection::South => {},
                    HorizontalDirection::SouthEast => {},
                }
            },
            _ => {},
        }
    }
}

} // verus!
