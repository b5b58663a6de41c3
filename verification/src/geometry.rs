use vstd::prelude::*;

verus! {

/// Bound on the horizontal coordinates of the game world: the widest world
/// in which a step to a horizontal neighbour, the search for stairs over the
/// width of a zone (23 tiles on) and the middle of every zone that holds a
/// position of the world all stay within `i32`.
pub const MAX_COORD: i32 = 2_147_483_615;

/// Lowest level of the game world, relative to the ground.
pub const MIN_LEVEL: i8 = -10;

/// Highest level of the game world, relative to the ground.
pub const MAX_LEVEL: i8 = 10;

/// A vertical layer of the world; level zero is the ground.
#[derive(Clone, Copy, Debug, PartialEq, Eq, Hash, Structural)]
pub struct Level {
    pub h: i8,
}

/// Where a level lies with respect to the ground.
#[derive(Clone, Copy, Debug, PartialEq, Eq, Structural)]
pub enum GroundRelation {
    Below,
    On,
    Above,
}

impl Level {
    pub open spec fn is_valid(self) -> bool {
        MIN_LEVEL <= self.h <= MAX_LEVEL
    }

    /// The level directly above, if the world has one.
    pub fn up(self) -> (res: Option<Level>)
        ensures
            res == (if self.h < MAX_LEVEL { Some(Level { h: (self.h + 1) as i8 }) } else { None::<Level> }),
    {
        if self.h < MAX_LEVEL {
            Some(Level { h: self.h + 1 })
        } else {
            None
        }
    }

    /// The level directly below, if the world has one.
    pub fn down(self) -> (res: Option<Level>)
        ensures
            res == (if self.h > MIN_LEVEL { Some(Level { h: (self.h - 1) as i8 }) } else { None::<Level> }),
    {
        if self.h > MIN_LEVEL {
            Some(Level { h: self.h - 1 })
        } else {
            None
        }
    }

    pub open spec fn ground_relation(self) -> GroundRelation {
        if self.h < 0 {
            GroundRelation::Below
        } else if self.h == 0 {
            GroundRelation::On
        } else {
            GroundRelation::Above
        }
    }

    /// How this level relates to the ground.
    pub fn compare_to_ground(self) -> (res: GroundRelation)
        ensures
            res == self.ground_relation(),
    {
        if self.h < 0 {
            GroundRelation::Below
        } else if self.h == 0 {
            GroundRelation::On
        } else {
            GroundRelation::Above
        }
    }
}

/// A vertical difference between levels.
#[derive(Clone, Copy, Debug, PartialEq, Eq, Structural)]
pub struct LevelOffset {
    pub h: i8,
}

/// One of the nine horizontal directions, `Here` included.
#[derive(Clone, Copy, Debug, PartialEq, Eq, Hash, Structural)]
pub enum HorizontalDirection {
    NorthWest,
    North,
    NorthEast,
    West,
    Here,
    East,
    SouthWest,
    South,
    SouthEast,
}

impl HorizontalDirection {
    /// The step in x and in z, north being negative z.
    pub open spec fn spec_offset(self) -> (i32, i32) {
        match self {
            HorizontalDirection::NorthWest => (-1i32, -1i32),
            HorizontalDirection::North => (0i32, -1i32),
            HorizontalDirection::NorthEast => (1i32, -1i32),
            HorizontalDirection::West => (-1i32, 0i32),
            HorizontalDirection::Here => (0i32, 0i32),
            HorizontalDirection::East => (1i32, 0i32),
            HorizontalDirection::SouthWest => (-1i32, 1i32),
            HorizontalDirection::South => (0i32, 1i32),
            HorizontalDirection::SouthEast => (1i32, 1i32),
        }
    }

    /// The step in x and in z of this direction.
    pub fn offset(self) -> (res: (i32, i32))
        ensures
            res == self.spec_offset(),
    {
        match self {
            HorizontalDirection::NorthWest => (-1, -1),
            HorizontalDirection::North => (0, -1),
            HorizontalDirection::NorthEast => (1, -1),
            HorizontalDirection::West => (-1, 0),
            HorizontalDirection::Here => (0, 0),
            HorizontalDirection::East => (1, 0),
            HorizontalDirection::SouthWest => (-1, 1),
            HorizontalDirection::South => (0, 1),
            HorizontalDirection::SouthEast => (1, 1),
        }
    }

    pub open spec fn spec_from_offset(dx: int, dz: int) -> Option<HorizontalDirection> {
        if dx == -1 && dz == -1 {
            Some(HorizontalDirection::NorthWest)
        } else if dx == 0 && dz == -1 {
            Some(HorizontalDirection::North)
        } else if dx == 1 && dz == -1 {
            Some(HorizontalDirection::NorthEast)
        } else if dx == -1 && dz == 0 {
            Some(HorizontalDirection::West)
        } else if dx == 0 && dz == 0 {
            Some(HorizontalDirection::Here)
        } else if dx == 1 && dz == 0 {
            Some(HorizontalDirection::East)
        } else if dx == -1 && dz == 1 {
            Some(HorizontalDirection::SouthWest)
        } else if dx == 0 && dz == 1 {
            Some(HorizontalDirection::South)
        } else if dx == 1 && dz == 1 {
            Some(HorizontalDirection::SouthEast)
        } else {
            None
        }
    }

    /// The direction of a horizontal step, if it is one.
    pub fn from_offset(dx: i32, dz: i32) -> (res: Option<HorizontalDirection>)
        ensures
            res == Self::spec_from_offset(dx as int, dz as int),
    {
        if dx == -1 && dz == -1 {
            Some(HorizontalDirection::NorthWest)
        } else if dx == 0 && dz == -1 {
            Some(HorizontalDirection::North)
        } else if dx == 1 && dz == -1 {
            Some(HorizontalDirection::NorthEast)
        } else if dx == -1 && dz == 0 {
            Some(HorizontalDirection::West)
        } else if dx == 0 && dz == 0 {
            Some(HorizontalDirection::Here)
        } else if dx == 1 && dz == 0 {
            Some(HorizontalDirection::East)
        } else if dx == -1 && dz == 1 {
            Some(HorizontalDirection::SouthWest)
        } else if dx == 0 && dz == 1 {
            Some(HorizontalDirection::South)
        } else if dx == 1 && dz == 1 {
            Some(HorizontalDirection::SouthEast)
        } else {
            None
        }
    }
}

/// A neighbouring direction: up, down, or one of the horizontal ones.
#[derive(Clone, Copy, Debug, PartialEq, Eq, Structural)]
pub enum Nbor {
    Up,
    Horizontal(HorizontalDirection),
    Down,
}

impl Nbor {
    /// All neighbour directions, in the order in which they are tried.
    pub open spec fn spec_all() -> Seq<Nbor> {
        seq![
            Nbor::Up,
            Nbor::Horizontal(HorizontalDirection::NorthWest),
            Nbor::Horizontal(HorizontalDirection::North),
            Nbor::Horizontal(HorizontalDirection::NorthEast),
            Nbor::Horizontal(HorizontalDirection::West),
            Nbor::Horizontal(HorizontalDirection::Here),
            Nbor::Horizontal(HorizontalDirection::East),
            Nbor::Horizontal(HorizontalDirection::SouthWest),
            Nbor::Horizontal(HorizontalDirection::South),
            Nbor::Horizontal(HorizontalDirection::SouthEast),
            Nbor::Down,
        ]
    }

    /// All neighbour directions.
    pub fn all() -> (res: Vec<Nbor>)
        ensures
            res@ == Self::spec_all(),
    {
        let v = vec![
            Nbor::Up,
            Nbor::Horizontal(HorizontalDirection::NorthWest),
            Nbor::Horizontal(HorizontalDirection::North),
            Nbor::Horizontal(HorizontalDirection::NorthEast),
            Nbor::Horizontal(HorizontalDirection::West),
            Nbor::Horizontal(HorizontalDirection::Here),
            Nbor::Horizontal(HorizontalDirection::East),
            Nbor::Horizontal(HorizontalDirection::SouthWest),
            Nbor::Horizontal(HorizontalDirection::South),
            Nbor::Horizontal(HorizontalDirection::SouthEast),
            Nbor::Down,
        ];
        assert(v@ =~= Self::spec_all());
        v
    }
}

/// A direction as the player gives it on the numeric keypad and with `<` and `>`.
#[derive(Clone, Copy, Debug, PartialEq, Eq, Structural)]
pub enum PlayerDirection {
    Above,
    AwayLeft,
    Away,
    AwayRight,
    Left,
    Here,
    Right,
    CloserLeft,
    Closer,
    CloserRight,
    Below,
}

impl PlayerDirection {
    pub open spec fn spec_to_nbor(self) -> Nbor {
        match self {
            PlayerDirection::Above => Nbor::Up,
            PlayerDirection::AwayLeft => Nbor::Horizontal(HorizontalDirection::NorthWest),
            PlayerDirection::Away => Nbor::Horizontal(HorizontalDirection::North),
            PlayerDirection::AwayRight => Nbor::Horizontal(HorizontalDirection::NorthEast),
            PlayerDirection::Left => Nbor::Horizontal(HorizontalDirection::West),
            PlayerDirection::Here => Nbor::Horizontal(HorizontalDirection::Here),
            PlayerDirection::Right => Nbor::Horizontal(HorizontalDirection::East),
            PlayerDirection::CloserLeft => Nbor::Horizontal(HorizontalDirection::SouthWest),
            PlayerDirection::Closer => Nbor::Horizontal(HorizontalDirection::South),
            PlayerDirection::CloserRight => Nbor::Horizontal(HorizontalDirection::SouthEast),
            PlayerDirection::Below => Nbor::Down,
        }
    }

    /// The neighbour direction that this player direction stands for.
    pub fn to_nbor(self) -> (res: Nbor)
        ensures
            res == self.spec_to_nbor(),
    {
        match self {
            PlayerDirection::Above => Nbor::Up,
            PlayerDirection::AwayLeft => Nbor::Horizontal(HorizontalDirection::NorthWest),
            PlayerDirection::Away => Nbor::Horizontal(HorizontalDirection::North),
            PlayerDirection::AwayRight => Nbor::Horizontal(HorizontalDirection::NorthEast),
            PlayerDirection::Left => Nbor::Horizontal(HorizontalDirection::West),
            PlayerDirection::Here => Nbor::Horizontal(HorizontalDirection::Here),
            PlayerDirection::Right => Nbor::Horizontal(HorizontalDirection::East),
            PlayerDirection::CloserLeft => Nbor::Horizontal(HorizontalDirection::SouthWest),
            PlayerDirection::Closer => Nbor::Horizontal(HorizontalDirection::South),
            PlayerDirection::CloserRight => Nbor::Horizontal(HorizontalDirection::SouthEast),
            PlayerDirection::Below => Nbor::Down,
        }
    }
}

/// A tile position: horizontal coordinates and a level.
#[derive(Clone, Copy, Debug, PartialEq, Eq, Hash, Structural)]
pub struct Pos {
    pub x: i32,
    pub level: Level,
    pub z: i32,
}

/// The difference between two positions.
#[derive(Clone, Copy, Debug, PartialEq, Eq, Structural)]
pub struct PosOffset {
    pub x: i32,
    pub level: LevelOffset,
    pub z: i32,
}

/// The offset from `from` to `to` fits in the coordinates of an offset.
pub open spec fn offset_fits(to: Pos, from: Pos) -> bool {
    &&& i32::MIN <= to.x - from.x <= i32::MAX
    &&& i32::MIN <= to.z - from.z <= i32::MAX
}

pub open spec fn coord_in_world(c: int) -> bool {
    -MAX_COORD <= c <= MAX_COORD
}

impl Pos {
    /// The position lies inside the game world.
    pub open spec fn in_world(self) -> bool {
        &&& coord_in_world(self.x as int)
        &&& coord_in_world(self.z as int)
        &&& self.level.is_valid()
    }

    pub open spec fn spec_raw_nbor(self, nbor: Nbor) -> Option<Pos> {
        match nbor {
            Nbor::Up => if self.level.h < MAX_LEVEL {
                Some(Pos { x: self.x, level: Level { h: (self.level.h + 1) as i8 }, z: self.z })
            } else {
                None
            },
            Nbor::Down => if self.level.h > MIN_LEVEL {
                Some(Pos { x: self.x, level: Level { h: (self.level.h - 1) as i8 }, z: self.z })
            } else {
                None
            },
            Nbor::Horizontal(dir) => {
                let x = self.x + dir.spec_offset().0;
                let z = self.z + dir.spec_offset().1;
                if coord_in_world(x) && coord_in_world(z) {
                    Some(Pos { x: x as i32, level: self.level, z: z as i32 })
                } else {
                    None
                }
            },
        }
    }

    /// The neighbouring position in the given direction, ignoring stairs; `None`
    /// where it would lie outside the world.
    pub fn raw_nbor(self, nbor: Nbor) -> (res: Option<Pos>)
        requires
            self.in_world(),
        ensures
            res == self.spec_raw_nbor(nbor),
            res matches Some(p) ==> p.in_world(),
    {
        match nbor {
            Nbor::Up => match self.level.up() {
                Some(level) => Some(Pos { x: self.x, level, z: self.z }),
                None => None,
            },
            Nbor::Down => match self.level.down() {
                Some(level) => Some(Pos { x: self.x, level, z: self.z }),
                None => None,
            },
            Nbor::Horizontal(dir) => {
                let (dx, dz) = dir.offset();
                let x: i32 = self.x + dx;
                let z: i32 = self.z + dz;
                if -MAX_COORD <= x && x <= MAX_COORD && -MAX_COORD <= z && z <= MAX_COORD {
                    Some(Pos { x, level: self.level, z })
                } else {
                    None
                }
            },
        }
    }

    /// The horizontal neighbour in the direction, whether or not it lies in
    /// the world.
    pub open spec fn spec_horizontal_nbor(self, dir: HorizontalDirection) -> Pos {
        Pos {
            x: (self.x + dir.spec_offset().0) as i32,
            level: self.level,
            z: (self.z + dir.spec_offset().1) as i32,
        }
    }

    /// The horizontal neighbour in the direction; from the edge of the world
    /// it lies one step outside.
    pub fn horizontal_nbor(self, dir: HorizontalDirection) -> (res: Pos)
        requires
            self.in_world(),
        ensures
            res == self.spec_horizontal_nbor(dir),
            res.x == self.x + dir.spec_offset().0,
            res.z == self.z + dir.spec_offset().1,
    {
        let (dx, dz) = dir.offset();
        Pos { x: self.x + dx, level: self.level, z: self.z + dz }
    }

    /// `self - from`: the offset that leads from `from` to `self`.
    pub fn offset_from(self, from: Pos) -> (res: PosOffset)
        requires
            self.in_world(),
            from.in_world(),
            offset_fits(self, from),
        ensures
            res.x == self.x - from.x,
            res.level.h == self.level.h - from.level.h,
            res.z == self.z - from.z,
    {
        PosOffset {
            x: self.x - from.x,
            level: LevelOffset { h: self.level.h - from.level.h },
            z: self.z - from.z,
        }
    }
}

/// `from + offset`, if that lies in the world.
pub open spec fn spec_pos_offset(from: Pos, offset: PosOffset) -> Option<Pos> {
    let x = from.x + offset.x;
    let h = from.level.h + offset.level.h;
    let z = from.z + offset.z;
    if coord_in_world(x) && coord_in_world(z) && MIN_LEVEL <= h <= MAX_LEVEL {
        Some(Pos { x: x as i32, level: Level { h: h as i8 }, z: z as i32 })
    } else {
        None
    }
}

/// `to - from`: the offset that leads from `from` to `to`.
pub open spec fn pos_diff(to: Pos, from: Pos) -> PosOffset {
    PosOffset {
        x: (to.x - from.x) as i32,
        level: LevelOffset { h: (to.level.h - from.level.h) as i8 },
        z: (to.z - from.z) as i32,
    }
}

impl Pos {
    /// Whether the position lies inside the game world.
    pub fn is_in_world(self) -> (res: bool)
        ensures
            res == self.in_world(),
    {
        -MAX_COORD <= self.x && self.x <= MAX_COORD && -MAX_COORD <= self.z && self.z <= MAX_COORD
            && MIN_LEVEL <= self.level.h && self.level.h <= MAX_LEVEL
    }

    /// Whether the offset from `from` to this position fits in an offset.
    pub fn offset_fits_from(self, from: Pos) -> (res: bool)
        ensures
            res == offset_fits(self, from),
    {
        let dx: i64 = self.x as i64 - from.x as i64;
        let dz: i64 = self.z as i64 - from.z as i64;
        i32::MIN as i64 <= dx && dx <= i32::MAX as i64 && i32::MIN as i64 <= dz && dz <= i32::MAX as i64
    }

    /// The position at `offset` from this one, if it lies in the world.
    pub fn offset(self, offset: PosOffset) -> (res: Option<Pos>)
        ensures
            res == spec_pos_offset(self, offset),
            res matches Some(p) ==> p.in_world(),
    {
        let x: i64 = self.x as i64 + offset.x as i64;
        let h: i16 = self.level.h as i16 + offset.level.h as i16;
        let z: i64 = self.z as i64 + offset.z as i64;
        if -(MAX_COORD as i64) <= x && x <= MAX_COORD as i64 && -(MAX_COORD as i64) <= z && z <= MAX_COORD as i64
            && MIN_LEVEL as i16 <= h && h <= MAX_LEVEL as i16 {
            Some(Pos { x: x as i32, level: Level { h: h as i8 }, z: z as i32 })
        } else {
            None
        }
    }
}

/// Horizontal size of a zone, in tiles.
pub const ZONE_SIZE: i32 = 24;

/// Horizontal size of an overzone, in zones.
pub const OVERZONE_SIZE: i32 = 180;

/// Horizontal size of a subzone, in tiles.
pub const SUBZONE_SIZE: i32 = 12;

/// A square area of `ZONE_SIZE` by `ZONE_SIZE` tiles, on all levels.
#[derive(Clone, Copy, Debug, PartialEq, Eq, Structural)]
pub struct Zone {
    pub x: i32,
    pub z: i32,
}

/// A zone on one level.
#[derive(Clone, Copy, Debug, PartialEq, Eq, Structural)]
pub struct ZoneLevel {
    pub zone: Zone,
    pub level: Level,
}

/// A square area of `OVERZONE_SIZE` by `OVERZONE_SIZE` zones.
#[derive(Clone, Copy, Debug, PartialEq, Eq, Structural)]
pub struct Overzone {
    pub x: i32,
    pub z: i32,
}

/// A quarter of a zone on one level.
#[derive(Clone, Copy, Debug, PartialEq, Eq, Structural)]
pub struct SubzoneLevel {
    pub x: i32,
    pub level: Level,
    pub z: i32,
}

/// The zone coordinate of a tile coordinate: rounded down.
pub open spec fn zone_coord(c: int) -> int {
    c / (ZONE_SIZE as int)
}

pub open spec fn zone_coord_in_world(c: int) -> bool {
    zone_coord(-MAX_COORD as int) <= c <= zone_coord(MAX_COORD as int)
}

fn floor_div(c: i32, size: i32) -> (res: i32)
    requires
        size > 0,
    ensures
        res == c as int / size as int,
{
    assert(i32::MIN <= c as int / size as int <= i32::MAX) by (nonlinear_arith)
        requires
            size > 0,
            i32::MIN <= c <= i32::MAX,
    ;
    match c.checked_div_euclid(size) {
        Some(q) => q,
        None => {
            assert(false);
            0
        },
    }
}

impl Zone {
    pub open spec fn spec_from_pos(pos: Pos) -> Zone {
        Zone { x: zone_coord(pos.x as int) as i32, z: zone_coord(pos.z as int) as i32 }
    }

    /// The zone that holds the position.
    pub fn from_pos(pos: Pos) -> (res: Zone)
        ensures
            res == Self::spec_from_pos(pos),
    {
        Zone { x: floor_div(pos.x, ZONE_SIZE), z: floor_div(pos.z, ZONE_SIZE) }
    }

    pub open spec fn in_world(self) -> bool {
        zone_coord_in_world(self.x as int) && zone_coord_in_world(self.z as int)
    }

    pub open spec fn spec_overzone(self) -> Overzone {
        Overzone {
            x: (self.x as int / OVERZONE_SIZE as int) as i32,
            z: (self.z as int / OVERZONE_SIZE as int) as i32,
        }
    }

    /// The overzone that holds this zone.
    pub fn overzone(self) -> (res: Overzone)
        ensures
            res == self.spec_overzone(),
    {
        Overzone { x: floor_div(self.x, OVERZONE_SIZE), z: floor_div(self.z, OVERZONE_SIZE) }
    }
}

impl ZoneLevel {
    pub open spec fn spec_from_pos(pos: Pos) -> ZoneLevel {
        ZoneLevel { zone: Zone::spec_from_pos(pos), level: pos.level }
    }

    /// The zone level that holds the position.
    pub fn from_pos(pos: Pos) -> (res: ZoneLevel)
        ensures
            res == Self::spec_from_pos(pos),
    {
        ZoneLevel { zone: Zone::from_pos(pos), level: pos.level }
    }

    pub open spec fn in_world(self) -> bool {
        self.zone.in_world() && self.level.is_valid()
    }

    pub open spec fn spec_center_pos(self) -> Pos {
        Pos {
            x: (self.zone.x * ZONE_SIZE + ZONE_SIZE / 2) as i32,
            level: self.level,
            z: (self.zone.z * ZONE_SIZE + ZONE_SIZE / 2) as i32,
        }
    }

    /// The position in the middle of the zone level.
    pub fn center_pos(self) -> (res: Pos)
        requires
            self.in_world(),
        ensures
            res == self.spec_center_pos(),
            res.in_world(),
            Self::spec_from_pos(res) == self,
    {
        Pos {
            x: self.zone.x * ZONE_SIZE + ZONE_SIZE / 2,
            level: self.level,
            z: self.zone.z * ZONE_SIZE + ZONE_SIZE / 2,
        }
    }

    pub open spec fn spec_nbor(self, nbor: Nbor) -> Option<ZoneLevel> {
        match nbor {
            Nbor::Up => if self.level.h < MAX_LEVEL {
                Some(ZoneLevel { zone: self.zone, level: Level { h: (self.level.h + 1) as i8 } })
            } else {
                None
            },
            Nbor::Down => if self.level.h > MIN_LEVEL {
                Some(ZoneLevel { zone: self.zone, level: Level { h: (self.level.h - 1) as i8 } })
            } else {
                None
            },
            Nbor::Horizontal(dir) => {
                let x = self.zone.x + dir.spec_offset().0;
                let z = self.zone.z + dir.spec_offset().1;
                if zone_coord_in_world(x) && zone_coord_in_world(z) {
                    Some(ZoneLevel { zone: Zone { x: x as i32, z: z as i32 }, level: self.level })
                } else {
                    None
                }
            },
        }
    }

    /// The neighbouring zone level in the given direction, if it lies in the world.
    pub fn nbor(self, nbor: Nbor) -> (res: Option<ZoneLevel>)
        requires
            self.in_world(),
        ensures
            res == self.spec_nbor(nbor),
            res matches Some(z) ==> z.in_world(),
    {
        match nbor {
            Nbor::Up => match self.level.up() {
                Some(level) => Some(ZoneLevel { zone: self.zone, level }),
                None => None,
            },
            Nbor::Down => match self.level.down() {
                Some(level) => Some(ZoneLevel { zone: self.zone, level }),
                None => None,
            },
            Nbor::Horizontal(dir) => {
                let (dx, dz) = dir.offset();
                let x: i32 = self.zone.x + dx;
                let z: i32 = self.zone.z + dz;
                let min = floor_div(-MAX_COORD, ZONE_SIZE);
                let max = floor_div(MAX_COORD, ZONE_SIZE);
                if min <= x && x <= max && min <= z && z <= max {
                    Some(ZoneLevel { zone: Zone { x, z }, level: self.level })
                } else {
                    None
                }
            },
        }
    }
}

impl SubzoneLevel {
    pub open spec fn spec_from_pos(pos: Pos) -> SubzoneLevel {
        SubzoneLevel {
            x: (pos.x as int / SUBZONE_SIZE as int) as i32,
            level: pos.level,
            z: (pos.z as int / SUBZONE_SIZE as int) as i32,
        }
    }

    /// The subzone level that holds the position.
    pub fn from_pos(pos: Pos) -> (res: SubzoneLevel)
        ensures
            res == Self::spec_from_pos(pos),
    {
        SubzoneLevel {
            x: floor_div(pos.x, SUBZONE_SIZE),
            level: pos.level,
            z: floor_div(pos.z, SUBZONE_SIZE),
        }
    }
}

impl SubzoneLevel {
    /// All positions of the subzone level lie in the world.
    pub open spec fn in_world(self) -> bool {
        &&& coord_in_world(self.x * SUBZONE_SIZE)
        &&& coord_in_world(self.x * SUBZONE_SIZE + SUBZONE_SIZE - 1)
        &&& coord_in_world(self.z * SUBZONE_SIZE)
        &&& coord_in_world(self.z * SUBZONE_SIZE + SUBZONE_SIZE - 1)
        &&& self.level.is_valid()
    }

    pub open spec fn spec_corners(self) -> Seq<Pos> {
        let x0 = (self.x * SUBZONE_SIZE) as i32;
        let x1 = (self.x * SUBZONE_SIZE + SUBZONE_SIZE - 1) as i32;
        let z0 = (self.z * SUBZONE_SIZE) as i32;
        let z1 = (self.z * SUBZONE_SIZE + SUBZONE_SIZE - 1) as i32;
        seq![
            Pos { x: x0, level: self.level, z: z0 },
            Pos { x: x1, level: self.level, z: z0 },
            Pos { x: x0, level: self.level, z: z1 },
            Pos { x: x1, level: self.level, z: z1 },
        ]
    }

    /// The four corner positions of the subzone level.
    pub fn corners(self) -> (res: Vec<Pos>)
        requires
            self.in_world(),
        ensures
            res@ == self.spec_corners(),
            forall|i: int| 0 <= i < res@.len() ==> (#[trigger] res@[i]).in_world(),
    {
        let x0 = self.x * SUBZONE_SIZE;
        let x1 = x0 + SUBZONE_SIZE - 1;
        let z0 = self.z * SUBZONE_SIZE;
        let z1 = z0 + SUBZONE_SIZE - 1;
        let res = vec![
            Pos { x: x0, level: self.level, z: z0 },
            Pos { x: x1, level: self.level, z: z0 },
            Pos { x: x0, level: self.level, z: z1 },
            Pos { x: x1, level: self.level, z: z1 },
        ];
        assert(res@ =~= self.spec_corners());
        res
    }
}

pub proof fn lemma_pos_in_world_zone_in_world(pos: Pos)
    requires
        pos.in_world(),
    ensures
        ZoneLevel::spec_from_pos(pos).in_world(),
{
}

} // verus!
