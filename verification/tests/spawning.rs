use rustaclysm_core::crafting_rules::ObjectCategory;
use rustaclysm_core::envir::{Floor, MoveCost};
use rustaclysm_core::explored::{Explored, SeenFrom};
use rustaclysm_core::geometry::{Level, Overzone, Zone, ZoneLevel};
use rustaclysm_core::map_manager::AssetStatus::{Available, Loading, Nonexistent};
use rustaclysm_core::spawn_rules::{
    character_setup, containable, smashed_replacement, SmashedReplacement, faction_of, furniture_setup, initial_characters, is_filthy, item_amount,
    item_text_color, material_shown, object_last_seen, player_setup, subzone_plan, subzone_tile_offsets,
    terrain_setup, vehicle_part_variant, zone_level_appearance, zone_level_plan, CharacterInfo, Corpse, Faction,
    FurnitureInfo, LastSeen, MoveCostMod, Role, Size, SubzonePlan, TerrainInfo, TileVariant, WalkingMode,
    ZoneLevelPlan,
};
use rustaclysm_core::text::TextColor;
use rustaclysm_core::zone_level_ids::ZoneLevelIds;

fn zombie_info() -> CharacterInfo {
    CharacterInfo {
        default_faction: String::from("zombie"),
        hp: Some(80),
        speed: 70,
        melee_dice: 1,
        melee_dice_sides: 6,
        aquatic: false,
    }
}

fn human_info() -> CharacterInfo {
    CharacterInfo {
        default_faction: String::from("human"),
        hp: None,
        speed: 100,
        melee_dice: 1,
        melee_dice_sides: 3,
        aquatic: false,
    }
}

fn terrain(id: &str) -> TerrainInfo {
    TerrainInfo {
        id: String::from(id),
        walkable: Some(MoveCost { value: 2 }),
        water: false,
        closes: false,
        opens: false,
        transparent: true,
        goes_up: false,
        goes_down: false,
        bash_terrain: None,
    }
}

#[test]
fn factions_by_data() {
    assert_eq!(faction_of("human"), Faction::Human);
    assert_eq!(faction_of("zombie"), Faction::Zombie);
    assert_eq!(faction_of("wolf"), Faction::Animal);
    assert_eq!(faction_of(""), Faction::Animal);
}

#[test]
fn characters_start_fresh() {
    let zombie = character_setup(&zombie_info());
    assert_eq!(zombie.faction, Faction::Zombie);
    assert_eq!(zombie.health, 80);
    assert_eq!(zombie.stamina, None);
    assert_eq!(zombie.walking_mode, WalkingMode::Running);
    assert_eq!((zombie.melee_dices, zombie.melee_sides), (1, 6));
    assert_eq!(zombie.base_speed_percent, Some(70));
    assert!(!zombie.body_containers);
    assert!(!zombie.player);

    let human = character_setup(&human_info());
    assert_eq!(human.health, 60);
    assert!(human.body_containers);

    let mut slow = zombie_info();
    slow.speed = 0;
    slow.hp = Some(65_537);
    let slow = character_setup(&slow);
    assert_eq!(slow.base_speed_percent, None);
    assert_eq!(slow.health, 1);
}

#[test]
fn player_walks_with_limited_stamina() {
    let player = player_setup(&human_info());
    let human = character_setup(&human_info());
    assert!(player.player);
    assert_eq!(player.stamina, Some(300));
    assert_eq!(player.walking_mode, WalkingMode::Walking);
    assert_eq!(player.health, human.health);
    assert_eq!(player.faction, human.faction);
    assert!(player.body_containers);
}

#[test]
fn starting_population() {
    let characters = initial_characters();
    assert_eq!(characters.len(), 7);
    assert_eq!(characters[0].role, Role::Player);
    assert_eq!(characters[0].id, "human");
    assert_eq!((characters[0].dx, characters[0].dz), (36, 56));
    assert_eq!(characters[1].role, Role::Survivor);
    assert_eq!((characters[1].dx, characters[1].dz), (10, 10));
    assert!(characters[2..].iter().all(|c| c.role == Role::Monster && c.id == "mon_zombie"));
    assert_eq!((characters[6].dx, characters[6].dz), (34, 34));
}

#[test]
fn terrain_is_floor_door_or_wall() {
    assert_eq!(terrain_setup(&terrain("t_open_air")), None);
    assert_eq!(terrain_setup(&terrain("t_open_air_rooved")), None);

    let grass = terrain_setup(&terrain("t_grass")).unwrap();
    assert_eq!(grass.floor, Some(Floor { water: false, move_cost: MoveCost { value: 2 } }));
    assert!(!grass.openable && !grass.obstacle && !grass.opaque && !grass.stairs_down);
    assert!(grass.opaque_floor);
    assert_eq!(grass.integrity, None);

    let mut door = terrain("t_door_c");
    door.walkable = None;
    door.opens = true;
    door.transparent = false;
    door.bash_terrain = Some(String::from("t_door_b"));
    let door = terrain_setup(&door).unwrap();
    assert!(door.openable && !door.obstacle && door.opaque);
    assert_eq!(door.floor, None);
    assert_eq!(door.integrity, Some(10));

    let mut wall = terrain("t_wall");
    wall.walkable = None;
    wall.bash_terrain = Some(String::from("t_null"));
    let wall = terrain_setup(&wall).unwrap();
    assert!(wall.obstacle && !wall.openable);
    assert_eq!(wall.integrity, None);

    let mut open_door = terrain("t_door_o");
    open_door.closes = true;
    assert!(terrain_setup(&open_door).unwrap().closeable);

    let mut stairs = terrain("t_stairs_down");
    stairs.goes_down = true;
    stairs.water = true;
    let stairs = terrain_setup(&stairs).unwrap();
    assert!(stairs.stairs_down && !stairs.opaque_floor);
    assert_eq!(stairs.floor, Some(Floor { water: true, move_cost: MoveCost { value: 2 } }));
}

#[test]
fn furniture_blocks_or_slows() {
    let table = furniture_setup(FurnitureInfo { transparent: true, smashable: true, move_cost_mod: Some(MoveCostMod::Slower(3)) });
    assert!(!table.opaque && !table.obstacle);
    assert_eq!(table.hurdle, Some(3));
    assert_eq!(table.integrity, Some(10));
    let fridge = furniture_setup(FurnitureInfo { transparent: false, smashable: false, move_cost_mod: Some(MoveCostMod::Impossible) });
    assert!(fridge.opaque && fridge.obstacle);
    assert_eq!(fridge.hurdle, None);
    assert_eq!(fridge.integrity, None);
    let rug = furniture_setup(FurnitureInfo { transparent: true, smashable: false, move_cost_mod: None });
    assert!(!rug.obstacle);
    assert_eq!(rug.hurdle, None);
}

#[test]
fn items_as_spawned() {
    assert_eq!(item_amount(None, 3), 3);
    assert_eq!(item_amount(Some(20), 2), 40);
    assert_eq!(item_amount(Some(0), 5), 0);

    let plain = Size { volume_ml: Some(250), mass_g: None };
    assert_eq!(containable(plain, &None), (250, 81_499));
    let zombie = Size { volume_ml: Some(62_500), mass_g: Some(81_500) };
    let corpse = Some(Corpse { id: String::from("mon_zombie"), monster: Some(zombie) });
    assert_eq!(containable(plain, &corpse), (62_500, 81_500));
    let unknown = Some(Corpse { id: String::from("mon_unknown"), monster: None });
    assert_eq!(containable(plain, &unknown), (250, 81_499));
    let null = Some(Corpse { id: String::from("mon_null"), monster: Some(zombie) });
    assert_eq!(containable(Size { volume_ml: None, mass_g: None }, &null), (62_499, 81_499));

    assert!(is_filthy(&vec![String::from("WET"), String::from("FILTHY")]));
    assert!(!is_filthy(&vec![String::from("filthy")]));
    assert!(!is_filthy(&vec![]));

    assert_eq!(item_text_color(Some("manuals")), TextColor::Good);
    assert_eq!(item_text_color(Some("bionics")), TextColor::Warn);
    assert_eq!(item_text_color(Some("tools")), TextColor::Hard);
    assert_eq!(item_text_color(None), TextColor::Hard);
}

#[test]
fn vehicle_parts_and_looks() {
    assert_eq!(vehicle_part_variant(true, true), Some(TileVariant::Broken));
    assert_eq!(vehicle_part_variant(false, true), Some(TileVariant::Open));
    assert_eq!(vehicle_part_variant(false, false), None);

    assert_eq!(object_last_seen(false, false), LastSeen::Currently);
    assert_eq!(object_last_seen(true, true), LastSeen::Previously);
    assert_eq!(object_last_seen(true, false), LastSeen::Never);
    assert_eq!(material_shown(LastSeen::Never), LastSeen::Currently);
    assert_eq!(material_shown(LastSeen::Previously), LastSeen::Previously);
}

#[test]
fn subzone_tiles_by_x_then_z() {
    let offsets = subzone_tile_offsets();
    assert_eq!(offsets.len(), 144);
    assert_eq!(offsets[0], (0, 0));
    assert_eq!(offsets[1], (0, 1));
    assert_eq!(offsets[12], (1, 0));
    assert_eq!(offsets[143], (11, 11));
}

#[test]
fn subzone_plans() {
    assert_eq!(subzone_plan(true, Available, Available), SubzonePlan::AlreadySpawned);
    assert_eq!(subzone_plan(false, Available, Available), SubzonePlan::SpawnSubmap);
    assert_eq!(subzone_plan(false, Available, Nonexistent), SubzonePlan::SpawnSubmap);
    assert_eq!(subzone_plan(false, Available, Loading), SubzonePlan::Wait);
    assert_eq!(subzone_plan(false, Loading, Available), SubzonePlan::Wait);
    assert_eq!(subzone_plan(false, Nonexistent, Loading), SubzonePlan::SpawnFallback);
}

#[test]
fn zone_levels_on_the_overview() {
    assert_eq!(zone_level_appearance(SeenFrom::CloseBy), (LastSeen::Previously, true));
    assert_eq!(zone_level_appearance(SeenFrom::FarAway), (LastSeen::Previously, true));
    assert_eq!(zone_level_appearance(SeenFrom::Never), (LastSeen::Never, false));

    let mut explored = Explored::new();
    let mut ids = ZoneLevelIds::new();
    let seen = ZoneLevel { zone: Zone { x: 0, z: 0 }, level: Level { h: 0 } };
    let unseen = ZoneLevel { zone: Zone { x: 1, z: 0 }, level: Level { h: -1 } };
    assert!(matches!(zone_level_plan(&explored, &ids, seen), ZoneLevelPlan::Missing));
    explored.mark_zone_level_seen(seen);
    assert!(matches!(zone_level_plan(&explored, &ids, seen), ZoneLevelPlan::Missing));
    ids.create_missing(Overzone { x: 0, z: 0 });
    match zone_level_plan(&explored, &ids, seen) {
        ZoneLevelPlan::Complete { id, last_seen, visible } => {
            assert_eq!(id, "field");
            assert_eq!(last_seen, LastSeen::Previously);
            assert!(visible);
        }
        ZoneLevelPlan::Missing => panic!("the zone level should be complete"),
    }
    match zone_level_plan(&explored, &ids, unseen) {
        ZoneLevelPlan::Complete { id, last_seen, visible } => {
            assert_eq!(id, "solid_earth");
            assert_eq!(last_seen, LastSeen::Never);
            assert!(!visible);
        }
        ZoneLevelPlan::Missing => panic!("the zone level should be complete"),
    }
}

#[test]
fn smashing_leaves_what_the_data_names() {
    let rubble = Some(String::from("t_rubble"));
    let broken = Some(String::from("f_broken_table"));
    assert!(matches!(
        smashed_replacement(ObjectCategory::Terrain, &rubble, &None),
        SmashedReplacement::Terrain(id) if id == "t_rubble"
    ));
    assert!(matches!(
        smashed_replacement(ObjectCategory::Furniture, &None, &broken),
        SmashedReplacement::Furniture(id) if id == "f_broken_table"
    ));
    assert!(matches!(smashed_replacement(ObjectCategory::Furniture, &None, &None), SmashedReplacement::Nothing));
    assert!(matches!(smashed_replacement(ObjectCategory::Terrain, &None, &None), SmashedReplacement::Nothing));
}
