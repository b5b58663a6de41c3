use vstd::prelude::*;
use crate::crafting_rules::ObjectCategory;
use crate::envir::{Floor, MoveCost};
use crate::explored::{Explored, SeenFrom};
use crate::geometry::ZoneLevel;
use crate::map_manager::AssetStatus;
use crate::zone_level_ids::ZoneLevelIds;
use crate::sorting::same_text;
use crate::text::TextColor;

verus! {

/// The sides that characters take.
#[derive(Clone, Copy, Debug, PartialEq, Eq, Structural)]
pub enum Faction {
    Human,
    Zombie,
    Animal,
}

/// The faction of a character by the "default_faction" of its data:
/// "human" and "zombie" name their factions, anything else is an animal.
pub open spec fn spec_faction_of(default_faction: Seq<char>) -> Faction {
    if default_faction == "human"@ {
        Faction::Human
    } else if default_faction == "zombie"@ {
        Faction::Zombie
    } else {
        Faction::Animal
    }
}

/// The faction of a character by the "default_faction" of its data.
pub fn faction_of(default_faction: &str) -> (res: Faction)
    ensures
        res == spec_faction_of(default_faction@),
{
    if same_text(default_faction, "human") {
        Faction::Human
    } else if same_text(default_faction, "zombie") {
        Faction::Zombie
    } else {
        Faction::Animal
    }
}

/// How a character moves by default.
#[derive(Clone, Copy, Debug, PartialEq, Eq, Structural)]
pub enum WalkingMode {
    Walking,
    Running,
}

/// What the data of a kind of character says that spawning it reads.
pub struct CharacterInfo {
    pub default_faction: String,
    pub hp: Option<u32>,
    pub speed: u64,
    pub melee_dice: u16,
    pub melee_dice_sides: u16,
    pub aquatic: bool,
}

/// The health of a character whose data gives no hit points.
pub const DEFAULT_HEALTH: u32 = 60;

/// The stamina of the player at the start.
pub const PLAYER_STAMINA: u16 = 300;

/// The state that a character starts with.
#[derive(Clone, Copy, Debug, PartialEq, Eq, Structural)]
pub struct CharacterSetup {
    pub faction: Faction,
    /// Full health, at its maximum.
    pub health: u16,
    /// `None` for unlimited stamina; else full stamina, at its maximum.
    pub stamina: Option<u16>,
    pub walking_mode: WalkingMode,
    pub melee_dices: u16,
    pub melee_sides: u16,
    /// The base speed as a percentage of the normal one, where the data gives a positive speed.
    pub base_speed_percent: Option<u64>,
    pub aquatic: bool,
    /// Humans carry things in their hands and clothing.
    pub body_containers: bool,
    pub player: bool,
}

/// A character as spawned from its data: alive and in the way of others,
/// with full health (the data's hit points, cut to 16 bits, else
/// `DEFAULT_HEALTH`), unlimited stamina, running, with the melee dice of the
/// data, its speed where that is positive, and body containers for humans.
pub open spec fn spec_character_setup(info: CharacterInfo) -> CharacterSetup {
    let faction = spec_faction_of(info.default_faction@);
    CharacterSetup {
        faction,
        health: (match info.hp {
            Some(hp) => hp,
            None => DEFAULT_HEALTH,
        }) as u16,
        stamina: None,
        walking_mode: WalkingMode::Running,
        melee_dices: info.melee_dice,
        melee_sides: info.melee_dice_sides,
        base_speed_percent: if 0 < info.speed { Some(info.speed) } else { None },
        aquatic: info.aquatic,
        body_containers: faction == Faction::Human,
        player: false,
    }
}

/// The state of a character spawned from its data.
pub fn character_setup(info: &CharacterInfo) -> (res: CharacterSetup)
    ensures
        res == spec_character_setup(*info),
{
    let faction = faction_of(info.default_faction.as_str());
    let hp: u32 = match info.hp {
        Some(hp) => hp,
        None => DEFAULT_HEALTH,
    };
    CharacterSetup {
        faction,
        health: hp as u16,
        stamina: None,
        walking_mode: WalkingMode::Running,
        melee_dices: info.melee_dice,
        melee_sides: info.melee_dice_sides,
        base_speed_percent: if 0 < info.speed { Some(info.speed) } else { None },
        aquatic: info.aquatic,
        body_containers: faction == Faction::Human,
        player: false,
    }
}

/// The player: a character from the same data, but marked as the player,
/// with limited stamina (`PLAYER_STAMINA`) and walking.
pub open spec fn spec_player_setup(info: CharacterInfo) -> CharacterSetup {
    CharacterSetup {
        stamina: Some(PLAYER_STAMINA),
        walking_mode: WalkingMode::Walking,
        player: true,
        ..spec_character_setup(info)
    }
}

/// The state of the player character, from the player's kind of character.
pub fn player_setup(info: &CharacterInfo) -> (res: CharacterSetup)
    ensures
        res == spec_player_setup(*info),
{
    let base = character_setup(info);
    CharacterSetup {
        stamina: Some(PLAYER_STAMINA),
        walking_mode: WalkingMode::Walking,
        player: true,
        ..base
    }
}

/// The part that a character of the starting population plays.
#[derive(Clone, Copy, Debug, PartialEq, Eq, Structural)]
pub enum Role {
    Player,
    /// A human with the given name.
    Survivor,
    Monster,
}

/// A character of the starting population: its kind, where it stands
/// relative to the spawn position, and its part.
#[derive(Clone, Copy, Debug)]
pub struct InitialCharacter {
    pub id: &'static str,
    pub dx: i32,
    pub dz: i32,
    pub role: Role,
}

/// The starting population: the player, one survivor and five zombies,
/// each at a fixed offset from the spawn position.
pub open spec fn spec_initial_characters() -> Seq<InitialCharacter> {
    seq![
        InitialCharacter { id: "human", dx: 36, dz: 56, role: Role::Player },
        InitialCharacter { id: "human", dx: 10, dz: 10, role: Role::Survivor },
        InitialCharacter { id: "mon_zombie", dx: 12, dz: 16, role: Role::Monster },
        InitialCharacter { id: "mon_zombie", dx: 40, dz: 40, role: Role::Monster },
        InitialCharacter { id: "mon_zombie", dx: 38, dz: 39, role: Role::Monster },
        InitialCharacter { id: "mon_zombie", dx: 37, dz: 37, role: Role::Monster },
        InitialCharacter { id: "mon_zombie", dx: 34, dz: 34, role: Role::Monster },
    ]
}

/// The characters that are spawned when a game starts, in the order in
/// which they are spawned.
pub fn initial_characters() -> (res: Vec<InitialCharacter>)
    ensures
        res@ == spec_initial_characters(),
{
    let res = vec![
        InitialCharacter { id: "human", dx: 36, dz: 56, role: Role::Player },
        InitialCharacter { id: "human", dx: 10, dz: 10, role: Role::Survivor },
        InitialCharacter { id: "mon_zombie", dx: 12, dz: 16, role: Role::Monster },
        InitialCharacter { id: "mon_zombie", dx: 40, dz: 40, role: Role::Monster },
        InitialCharacter { id: "mon_zombie", dx: 38, dz: 39, role: Role::Monster },
        InitialCharacter { id: "mon_zombie", dx: 37, dz: 37, role: Role::Monster },
        InitialCharacter { id: "mon_zombie", dx: 34, dz: 34, role: Role::Monster },
    ];
    assert(res@ =~= spec_initial_characters());
    res
}

/// What the data of a kind of terrain says that spawning it reads.
pub struct TerrainInfo {
    pub id: String,
    /// The move cost where the terrain can be walked on.
    pub walkable: Option<MoveCost>,
    pub water: bool,
    /// It can be closed (a door that is open).
    pub closes: bool,
    /// It can be opened (a door that is closed).
    pub opens: bool,
    pub transparent: bool,
    pub goes_up: bool,
    pub goes_down: bool,
    /// The terrain that smashing it leaves, where smashing it is possible.
    pub bash_terrain: Option<String>,
}

/// The integrity of anything that can be smashed.
pub const SMASHABLE_INTEGRITY: u16 = 10;

/// The properties of a spawned tile of terrain.
#[derive(Clone, Copy, Debug, PartialEq, Eq, Structural)]
pub struct TerrainSetup {
    pub floor: Option<Floor>,
    pub closeable: bool,
    pub openable: bool,
    pub obstacle: bool,
    pub opaque: bool,
    pub stairs_up: bool,
    pub stairs_down: bool,
    pub opaque_floor: bool,
    /// Full integrity, where it can be smashed into another terrain.
    pub integrity: Option<u16>,
}

/// Open air is not spawned at all, to keep the number of entities low.
pub open spec fn spec_is_air(id: Seq<char>) -> bool {
    id == "t_open_air"@ || id == "t_open_air_rooved"@
}

/// A tile of terrain as spawned from its data: a floor where it can be walked
/// on (closeable when it can be closed), else openable where it can be
/// opened, else an obstacle; opaque unless transparent; stairs as the data
/// says; a floor that hides what is below unless it goes down; and
/// smashable where smashing leaves a terrain other than "t_null".
pub open spec fn spec_terrain_setup(info: TerrainInfo) -> Option<TerrainSetup> {
    if spec_is_air(info.id@) {
        None
    } else {
        Some(TerrainSetup {
            floor: match info.walkable {
                Some(move_cost) => Some(Floor { water: info.water, move_cost }),
                None => None,
            },
            closeable: info.walkable is Some && info.closes,
            openable: info.walkable is None && info.opens,
            obstacle: info.walkable is None && !info.opens,
            opaque: !info.transparent,
            stairs_up: info.goes_up,
            stairs_down: info.goes_down,
            opaque_floor: !info.goes_down,
            integrity: match info.bash_terrain {
                Some(id) => if id@ != "t_null"@ { Some(SMASHABLE_INTEGRITY) } else { None },
                None => None,
            },
        })
    }
}

/// The properties of a tile of terrain spawned from its data; `None` for open air.
pub fn terrain_setup(info: &TerrainInfo) -> (res: Option<TerrainSetup>)
    ensures
        res == spec_terrain_setup(*info),
        res matches Some(setup) ==> {
            &&& (setup.floor is Some) as int + setup.openable as int + setup.obstacle as int == 1
            &&& setup.stairs_down != setup.opaque_floor
            &&& setup.closeable ==> setup.floor is Some
        },
{
    if same_text(info.id.as_str(), "t_open_air") || same_text(info.id.as_str(), "t_open_air_rooved") {
        return None;
    }
    let walkable = info.walkable.is_some();
    let integrity = match &info.bash_terrain {
        Some(id) => if !same_text(id.as_str(), "t_null") { Some(SMASHABLE_INTEGRITY) } else { None },
        None => None,
    };
    Some(TerrainSetup {
        floor: match info.walkable {
            Some(move_cost) => Some(Floor { water: info.water, move_cost }),
            None => None,
        },
        closeable: walkable && info.closes,
        openable: !walkable && info.opens,
        obstacle: !walkable && !info.opens,
        opaque: !info.transparent,
        stairs_up: info.goes_up,
        stairs_down: info.goes_down,
        opaque_floor: !info.goes_down,
        integrity,
    })
}

/// How furniture changes the cost of moving onto its tile.
#[derive(Clone, Copy, Debug, PartialEq, Eq, Structural)]
pub enum MoveCostMod {
    Impossible,
    Slower(u8),
}

/// What the data of a kind of furniture says that spawning it reads.
#[derive(Clone, Copy, Debug, PartialEq, Eq, Structural)]
pub struct FurnitureInfo {
    pub transparent: bool,
    pub smashable: bool,
    pub move_cost_mod: Option<MoveCostMod>,
}

/// The properties of a spawned piece of furniture.
#[derive(Clone, Copy, Debug, PartialEq, Eq, Structural)]
pub struct FurnitureSetup {
    pub opaque: bool,
    pub integrity: Option<u16>,
    pub obstacle: bool,
    pub hurdle: Option<u8>,
}

/// Furniture as spawned from its data: opaque unless transparent, smashable
/// as the data says, an obstacle where moving onto it is impossible and a
/// hurdle where it slows movement down.
pub open spec fn spec_furniture_setup(info: FurnitureInfo) -> FurnitureSetup {
    FurnitureSetup {
        opaque: !info.transparent,
        integrity: if info.smashable { Some(SMASHABLE_INTEGRITY) } else { None },
        obstacle: info.move_cost_mod == Some(MoveCostMod::Impossible),
        hurdle: match info.move_cost_mod {
            Some(MoveCostMod::Slower(increase)) => Some(increase),
            _ => None,
        },
    }
}

/// The properties of a piece of furniture spawned from its data.
pub fn furniture_setup(info: FurnitureInfo) -> (res: FurnitureSetup)
    ensures
        res == spec_furniture_setup(info),
        !(res.obstacle && res.hurdle is Some),
{
    let (obstacle, hurdle) = match info.move_cost_mod {
        None => (false, None),
        Some(MoveCostMod::Impossible) => (true, None),
        Some(MoveCostMod::Slower(increase)) => (false, Some(increase)),
    };
    FurnitureSetup {
        opaque: !info.transparent,
        integrity: if info.smashable { Some(SMASHABLE_INTEGRITY) } else { None },
        obstacle,
        hurdle,
    }
}

/// The number of pieces of an item that a map lists: its charges (one where
/// it has none) times its repetitions.
pub fn item_amount(charges: Option<u32>, repetitions: u32) -> (res: u32)
    requires
        (match charges { Some(c) => c as int, None => 1int }) * repetitions <= u32::MAX,
    ensures
        res == (match charges { Some(c) => c as int, None => 1int }) * repetitions,
{
    let per: u32 = match charges {
        Some(c) => c,
        None => 1,
    };
    per * repetitions
}

/// The volume and mass that an item's data may give.
#[derive(Clone, Copy, Debug, PartialEq, Eq, Structural)]
pub struct Size {
    pub volume_ml: Option<u64>,
    pub mass_g: Option<u64>,
}

/// The volume of an item whose data gives none (that of a human body).
pub const DEFAULT_VOLUME_ML: u64 = 62499;

/// The mass of an item whose data gives none (that of a human body).
pub const DEFAULT_MASS_G: u64 = 81499;

/// The corpse that an item is, with the size of the monster whose corpse it
/// is where that monster's data was found.
pub struct Corpse {
    pub id: String,
    pub monster: Option<Size>,
}

/// The size that counts for an item: that of the monster for a corpse of a
/// known monster other than "mon_null", else the item's own.
pub open spec fn spec_counted_size(item: Size, corpse: Option<Corpse>) -> Size {
    match corpse {
        Some(corpse) => if corpse.id@ != "mon_null"@ && corpse.monster is Some {
            corpse.monster.unwrap()
        } else {
            item
        },
        None => item,
    }
}

/// The volume and mass with which an item is spawned: those of the size that
/// counts for it, with `DEFAULT_VOLUME_ML` and `DEFAULT_MASS_G` for what it
/// leaves out.
pub open spec fn spec_containable(item: Size, corpse: Option<Corpse>) -> (u64, u64) {
    let size = spec_counted_size(item, corpse);
    (
        match size.volume_ml { Some(v) => v, None => DEFAULT_VOLUME_ML },
        match size.mass_g { Some(m) => m, None => DEFAULT_MASS_G },
    )
}

/// The volume (in ml) and mass (in g) with which an item is spawned.
pub fn containable(item: Size, corpse: &Option<Corpse>) -> (res: (u64, u64))
    ensures
        res == spec_containable(item, *corpse),
{
    let size = match corpse {
        Some(corpse) => if !same_text(corpse.id.as_str(), "mon_null") && corpse.monster.is_some() {
            corpse.monster.unwrap()
        } else {
            item
        },
        None => item,
    };
    (
        match size.volume_ml { Some(v) => v, None => DEFAULT_VOLUME_ML },
        match size.mass_g { Some(m) => m, None => DEFAULT_MASS_G },
    )
}

/// An item is filthy when one of its tags is "FILTHY".
pub fn is_filthy(tags: &Vec<String>) -> (res: bool)
    ensures
        res == exists|i: int| 0 <= i < tags@.len() && (#[trigger] tags@[i])@ == "FILTHY"@,
{
    let mut i: usize = 0;
    while i < tags.len()
        invariant
            i <= tags@.len(),
            forall|j: int| 0 <= j < i ==> (#[trigger] tags@[j])@ != "FILTHY"@,
        decreases tags@.len() - i,
    {
        if same_text(tags[i].as_str(), "FILTHY") {
            return true;
        }
        i += 1;
    }
    false
}

/// The colour of an item's name by its category: manuals are good, bionics
/// call for care, anything else is plain.
pub open spec fn spec_item_text_color(category: Option<Seq<char>>) -> TextColor {
    if category == Some("manuals"@) {
        TextColor::Good
    } else if category == Some("bionics"@) {
        TextColor::Warn
    } else {
        TextColor::Hard
    }
}

/// The colour of an item's name by its category.
pub fn item_text_color(category: Option<&str>) -> (res: TextColor)
    ensures
        res == spec_item_text_color(match category { Some(c) => Some(c@), None => None }),
{
    match category {
        Some(c) => if same_text(c, "manuals") {
            TextColor::Good
        } else if same_text(c, "bionics") {
            TextColor::Warn
        } else {
            TextColor::Hard
        },
        None => TextColor::Hard,
    }
}

/// How a tile is drawn where it has a variant.
#[derive(Clone, Copy, Debug, PartialEq, Eq, Structural)]
pub enum TileVariant {
    Broken,
    Open,
}

/// A vehicle part is drawn broken where its item is broken, else open where
/// it is open, else plainly.
pub fn vehicle_part_variant(broken: bool, open: bool) -> (res: Option<TileVariant>)
    ensures
        res == (if broken { Some(TileVariant::Broken) } else if open { Some(TileVariant::Open) } else { None }),
{
    if broken {
        Some(TileVariant::Broken)
    } else if open {
        Some(TileVariant::Open)
    } else {
        None
    }
}

/// When the player last saw something.
#[derive(Clone, Copy, Debug, PartialEq, Eq, Structural)]
pub enum LastSeen {
    Currently,
    Previously,
    Never,
}

/// What a spawned object records of being seen: for objects that are shaded
/// by being seen, whether its position was seen before; other objects (the
/// cursor) count as seen now.
pub fn object_last_seen(shading_applied: bool, pos_seen_before: bool) -> (res: LastSeen)
    ensures
        res == (if !shading_applied {
            LastSeen::Currently
        } else if pos_seen_before {
            LastSeen::Previously
        } else {
            LastSeen::Never
        }),
{
    if !shading_applied {
        LastSeen::Currently
    } else if pos_seen_before {
        LastSeen::Previously
    } else {
        LastSeen::Never
    }
}

/// The look that an object is given: what was never seen gets the look of
/// what is seen now (it is hidden until then anyway).
pub fn material_shown(last_seen: LastSeen) -> (res: LastSeen)
    ensures
        res == (if last_seen == LastSeen::Never { LastSeen::Currently } else { last_seen }),
        res != LastSeen::Never,
{
    match last_seen {
        LastSeen::Never => LastSeen::Currently,
        other => other,
    }
}

/// The side length of a subzone, in tiles.
pub const SUBZONE_TILES: i32 = 12;

/// The offsets of the tiles of a subzone from its base corner, in the order
/// in which they are spawned: by x, then by z.
pub fn subzone_tile_offsets() -> (res: Vec<(i32, i32)>)
    ensures
        res@.len() == SUBZONE_TILES * SUBZONE_TILES,
        forall|x: int, z: int| 0 <= x < SUBZONE_TILES && 0 <= z < SUBZONE_TILES
            ==> #[trigger] res@[x * SUBZONE_TILES + z] == (x as i32, z as i32),
{
    let mut res: Vec<(i32, i32)> = Vec::new();
    let mut x: i32 = 0;
    while x < SUBZONE_TILES
        invariant
            0 <= x <= SUBZONE_TILES,
            res@.len() == x * SUBZONE_TILES,
            forall|a: int, b: int| 0 <= a < x && 0 <= b < SUBZONE_TILES
                ==> #[trigger] res@[a * SUBZONE_TILES + b] == (a as i32, b as i32),
        decreases SUBZONE_TILES - x,
    {
        let mut z: i32 = 0;
        while z < SUBZONE_TILES
            invariant
                0 <= x < SUBZONE_TILES,
                0 <= z <= SUBZONE_TILES,
                res@.len() == x * SUBZONE_TILES + z,
                forall|a: int, b: int| 0 <= a < x && 0 <= b < SUBZONE_TILES
                    ==> #[trigger] res@[a * SUBZONE_TILES + b] == (a as i32, b as i32),
                forall|b: int| 0 <= b < z ==> #[trigger] res@[x * SUBZONE_TILES + b] == (x, b as i32),
            decreases SUBZONE_TILES - z,
        {
            res.push((x, z));
            z += 1;
        }
        x += 1;
    }
    res
}

/// What to do about a subzone level that should be on the map.
#[derive(Clone, Copy, Debug, PartialEq, Eq, Structural)]
pub enum SubzonePlan {
    /// It was spawned already; nothing is done.
    AlreadySpawned,
    /// Spawn it from its map.
    SpawnSubmap,
    /// Spawn it from the fallback terrain of its zone level, if that is known.
    SpawnFallback,
    /// Its map or the memory of it is still loading; it is spawned once loaded.
    Wait,
}

/// The plan for a subzone level, by whether it exists already, the state of
/// its map and the state of the player's memory of it: a map that does not
/// exist is replaced by the fallback terrain; an available map is spawned
/// once the memory of it is available or known not to exist.
pub open spec fn spec_subzone_plan(spawned: bool, map: AssetStatus, memory: AssetStatus) -> SubzonePlan {
    if spawned {
        SubzonePlan::AlreadySpawned
    } else {
        match map {
            AssetStatus::Available => match memory {
                AssetStatus::Loading => SubzonePlan::Wait,
                _ => SubzonePlan::SpawnSubmap,
            },
            AssetStatus::Loading => SubzonePlan::Wait,
            AssetStatus::Nonexistent => SubzonePlan::SpawnFallback,
        }
    }
}

/// The plan for a subzone level that should be on the map.
pub fn subzone_plan(spawned: bool, map: AssetStatus, memory: AssetStatus) -> (res: SubzonePlan)
    ensures
        res == spec_subzone_plan(spawned, map, memory),
{
    if spawned {
        SubzonePlan::AlreadySpawned
    } else {
        match map {
            AssetStatus::Available => match memory {
                AssetStatus::Loading => SubzonePlan::Wait,
                _ => SubzonePlan::SpawnSubmap,
            },
            AssetStatus::Loading => SubzonePlan::Wait,
            AssetStatus::Nonexistent => SubzonePlan::SpawnFallback,
        }
    }
}

/// How a zone level is shown on the overview map.
pub enum ZoneLevelPlan {
    /// Not enough is known yet; it is marked as missing.
    Missing,
    /// It is shown with its terrain id, as last seen, and hidden when never seen.
    Complete { id: String, last_seen: LastSeen, visible: bool },
}

/// A zone level seen close by or far away was seen before and is shown; one
/// never seen is hidden.
pub open spec fn spec_zone_level_appearance(seen_from: SeenFrom) -> (LastSeen, bool) {
    match seen_from {
        SeenFrom::CloseBy | SeenFrom::FarAway => (LastSeen::Previously, true),
        SeenFrom::Never => (LastSeen::Never, false),
    }
}

/// How a zone level is shown by how the player saw it.
pub fn zone_level_appearance(seen_from: SeenFrom) -> (res: (LastSeen, bool))
    ensures
        res == spec_zone_level_appearance(seen_from),
{
    match seen_from {
        SeenFrom::CloseBy | SeenFrom::FarAway => (LastSeen::Previously, true),
        SeenFrom::Never => (LastSeen::Never, false),
    }
}

/// The plan for a zone level at or below the ground: missing while it is
/// unknown whether it was seen or while its terrain id is unknown; else
/// complete, with that id and the look that the way it was seen gives.
pub fn zone_level_plan(explored: &Explored, ids: &ZoneLevelIds, zone_level: ZoneLevel) -> (res: ZoneLevelPlan)
    requires
        explored.wf(),
        ids.wf(),
        zone_level.level.h <= 0,
    ensures
        res is Missing <==> (explored.spec_has_zone_level_been_seen(zone_level) is None
            || ids.spec_get(zone_level) is None),
        res matches ZoneLevelPlan::Complete { id, last_seen, visible } ==> {
            &&& explored.spec_has_zone_level_been_seen(zone_level) matches Some(seen_from)
            &&& ids.spec_get(zone_level) == Some(id@)
            &&& (last_seen, visible) == spec_zone_level_appearance(seen_from)
        },
{
    match explored.has_zone_level_been_seen(zone_level) {
        None => ZoneLevelPlan::Missing,
        Some(seen_from) => match ids.get(zone_level) {
            None => ZoneLevelPlan::Missing,
            Some(id) => {
                let (last_seen, visible) = zone_level_appearance(seen_from);
                ZoneLevelPlan::Complete { id, last_seen, visible }
            },
        },
    }
}

/// What smashing a piece of furniture or terrain leaves in its place.
pub enum SmashedReplacement {
    Terrain(String),
    Furniture(String),
    Nothing,
}

/// Smashing leaves the terrain that the data names, else the furniture that
/// it names, else nothing. Only furniture and terrain are smashed, and the
/// terrain it leaves belongs to smashed terrain, the furniture to smashed
/// furniture.
pub fn smashed_replacement(category: ObjectCategory, terrain: &Option<String>, furniture: &Option<String>) -> (res: SmashedReplacement)
    requires
        category == ObjectCategory::Terrain || category == ObjectCategory::Furniture,
        terrain is Some ==> category == ObjectCategory::Terrain,
        terrain is None && furniture is Some ==> category == ObjectCategory::Furniture,
    ensures
        match res {
            SmashedReplacement::Terrain(id) => *terrain == Some(id),
            SmashedReplacement::Furniture(id) => terrain is None && *furniture == Some(id),
            SmashedReplacement::Nothing => terrain is None && furniture is None,
        },
{
    match terrain {
        Some(id) => SmashedReplacement::Terrain(id.clone()),
        None => match furniture {
            Some(id) => SmashedReplacement::Furniture(id.clone()),
            None => SmashedReplacement::Nothing,
        },
    }
}

} // verus!
