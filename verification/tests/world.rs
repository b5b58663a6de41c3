use rustaclysm_core::entities::{SubzoneLevelEntities, ZoneLevelEntities};
use rustaclysm_core::envir::{Collision, Envir, Floor, Intelligence, MillimeterPerSecond, MoveCost, Tile};
use rustaclysm_core::expanded::{Expanded, Region};
use rustaclysm_core::explored::{Explored, SeenFrom};
use rustaclysm_core::geometry::{HorizontalDirection, Level, LevelOffset, Nbor, Overzone, Pos, PosOffset, SubzoneLevel, Zone, ZoneLevel};
use rustaclysm_core::location::Location;
use rustaclysm_core::map_manager::{AssetStatus, MapManager};
use rustaclysm_core::movement::MovementPath;
use rustaclysm_core::session::{DisplayHandling, GameplayCounter, GameplaySession};
use rustaclysm_core::units::{EntityId, Milliseconds};
use rustaclysm_core::vec_map::VecMap;
use rustaclysm_core::visibility::{CurrentlyVisible, RelativeRay, RelativeSegment, RelativeSegments, Visible};
use rustaclysm_core::zone_level_ids::{fallback_terrain, ZoneLevelIds};

fn pos(x: i32, h: i8, z: i32) -> Pos {
    Pos { x, level: Level { h }, z }
}

fn offset(x: i32, h: i8, z: i32) -> PosOffset {
    PosOffset { x, level: LevelOffset { h }, z }
}

fn floor_tile(p: Pos) -> Tile {
    let mut tile = Tile::empty(p);
    tile.floor = Some(Floor { water: false, move_cost: MoveCost { value: 2 } });
    tile
}

#[test]
fn levels_go_up_and_down_within_the_world() {
    assert_eq!(Level { h: 0 }.up(), Some(Level { h: 1 }));
    assert_eq!(Level { h: 10 }.up(), None);
    assert_eq!(Level { h: -10 }.down(), None);
    assert_eq!(pos(0, 0, 0).raw_nbor(Nbor::Horizontal(HorizontalDirection::NorthEast)), Some(pos(1, 0, -1)));
    assert_eq!(pos(1_000_000_000, 0, 0).raw_nbor(Nbor::Horizontal(HorizontalDirection::East)), Some(pos(1_000_000_001, 0, 0)));
    assert_eq!(pos(2_147_483_615, 0, 0).raw_nbor(Nbor::Horizontal(HorizontalDirection::East)), None);
}

#[test]
fn zones_round_down() {
    assert_eq!(Zone::from_pos(pos(-1, 0, 23)), Zone { x: -1, z: 0 });
    assert_eq!(ZoneLevel::from_pos(pos(24, 2, -24)), ZoneLevel { zone: Zone { x: 1, z: -1 }, level: Level { h: 2 } });
    assert_eq!(SubzoneLevel::from_pos(pos(-13, 0, 12)), SubzoneLevel { x: -2, level: Level { h: 0 }, z: 1 });
    assert_eq!(Zone { x: -1, z: 180 }.overzone(), Overzone { x: -1, z: 1 });
    assert_eq!(pos(3, 1, 4).offset(offset(-3, -1, -4)), Some(pos(0, 0, 0)));
    assert_eq!(pos(3, 10, 4).offset(offset(0, 1, 0)), None);
}

#[test]
fn stairs_lead_to_the_nearest_stairs_back() {
    let mut envir = Envir::new();
    let mut up = floor_tile(pos(0, 0, 0));
    up.stairs_up = true;
    envir.set_tile(up);
    let mut down = floor_tile(pos(2, 1, 1));
    down.stairs_down = true;
    envir.set_tile(down);
    assert_eq!(envir.stairs_up_to(pos(0, 0, 0)), Some(pos(2, 1, 1)));
    assert_eq!(envir.get_nbor(pos(0, 0, 0), Nbor::Up), Ok(pos(2, 1, 1)));
    assert_eq!(envir.get_nbor(pos(5, 0, 5), Nbor::Up), Err("No stairs up"));
    assert_eq!(envir.to_nbor(pos(0, 0, 0), pos(2, 1, 1)), Some(Nbor::Up));
    assert_eq!(envir.magic_stairs_up(), vec![pos(0, 0, 0)]);
}

#[test]
fn collisions() {
    let mut envir = Envir::new();
    envir.set_tile(floor_tile(pos(1, 0, 0)));
    let mut wall = Tile::empty(pos(2, 0, 0));
    wall.obstacle = Some(EntityId { bits: 42 });
    envir.set_tile(wall);
    assert_eq!(envir.collide(pos(0, 0, 0), pos(1, 0, 0), true), Collision::Pass);
    assert_eq!(envir.collide(pos(1, 0, 0), pos(2, 0, 0), true), Collision::Blocked(EntityId { bits: 42 }));
}

#[test]
fn smart_characters_plan_a_route_over_floors() {
    let mut envir = Envir::new();
    for x in 0..3 {
        envir.set_tile(floor_tile(pos(x, 0, 0)));
    }
    let seen = [pos(0, 0, 0), pos(1, 0, 0), pos(2, 0, 0)];
    let speed = MillimeterPerSecond { mm_per_s: 1_000 };
    let path = envir.path(pos(0, 0, 0), pos(2, 0, 0), Intelligence::Smart, &seen, speed);
    assert_eq!(
        path,
        Some(MovementPath { first: pos(1, 0, 0), duration: Milliseconds { ms: 2_000 }, destination: pos(2, 0, 0) })
    );
    assert_eq!(envir.path(pos(0, 0, 0), pos(0, 0, 0), Intelligence::Smart, &seen, speed), None);
}

#[test]
fn no_route_without_floors() {
    let mut envir = Envir::new();
    envir.set_tile(floor_tile(pos(0, 0, 0)));
    envir.set_tile(floor_tile(pos(3, 0, 0)));
    let seen = [pos(0, 0, 0), pos(3, 0, 0)];
    let speed = MillimeterPerSecond { mm_per_s: 1_000 };
    assert_eq!(MovementPath::plan(&envir, pos(0, 0, 0), pos(3, 0, 0), Intelligence::Smart, &seen, speed), None);
}

#[test]
fn improvised_steps_move_first() {
    let envir = Envir::new();
    let speed = MillimeterPerSecond { mm_per_s: 1_000 };
    let nbors = vec![(pos(0, 0, 0), 0), (pos(1, 0, 0), 0), (pos(2, 0, 0), 0)];
    let step = MovementPath::improvize(&envir, &nbors, pos(0, 0, 0), pos(3, 0, 0), speed);
    assert_eq!(step.map(|m| m.first), Some(pos(2, 0, 0)));
    assert_eq!(MovementPath::improvize(&envir, &Vec::new(), pos(0, 0, 0), pos(3, 0, 0), speed), None);
}

fn segments_up_to(distance: usize) -> RelativeSegments {
    let mut rays: VecMap<Pos, RelativeRay> = VecMap::new();
    rays.insert(pos(1, 0, 0), RelativeRay { path: vec![pos(1, 0, 0)] });
    rays.insert(pos(2, 0, 0), RelativeRay { path: vec![pos(1, 0, 0), pos(2, 0, 0)] });
    rays.insert(pos(3, 0, 0), RelativeRay { path: vec![pos(1, 0, 0), pos(2, 0, 0), pos(3, 0, 0)] });
    let mut segments = Vec::new();
    for _ in 0..=distance {
        let mut map: VecMap<PosOffset, RelativeSegment> = VecMap::new();
        for x in 1..4 {
            let ray = rays.get(&pos(x, 0, 0)).unwrap();
            map.insert(offset(x, 0, 0), ray.to_segment(&rays));
        }
        segments.push(map);
    }
    RelativeSegments { segments }
}

#[test]
fn a_ray_extends_the_longest_shorter_ray() {
    let mut rays: VecMap<Pos, RelativeRay> = VecMap::new();
    rays.insert(pos(1, 0, 0), RelativeRay { path: vec![pos(1, 0, 0)] });
    rays.insert(pos(2, 1, 0), RelativeRay { path: vec![pos(1, 0, 0), pos(2, 1, 0)] });
    let segment = rays.get(&pos(2, 1, 0)).unwrap().to_segment(&rays);
    assert_eq!(segment.preceding, Some(offset(1, 0, 0)));
    assert_eq!(segment.segment, vec![offset(1, 0, 0)]);
    assert_eq!(segment.down_pairs, vec![(offset(1, 1, 0), offset(2, 1, 0))]);
    let first = rays.get(&pos(1, 0, 0)).unwrap().to_segment(&rays);
    assert_eq!(first.preceding, None);
    assert!(first.segment.is_empty());
}

#[test]
fn opaque_positions_hide_what_lies_behind() {
    let segments = segments_up_to(5);
    let mut envir = Envir::new();
    let from = pos(0, 0, 0);
    {
        let visible = CurrentlyVisible::build(&envir, &segments, Some(5), from, true);
        assert_eq!(visible.can_see(pos(3, 0, 0), false), Visible::Seen);
    }
    let mut wall = Tile::empty(pos(2, 0, 0));
    wall.opaque = true;
    envir.set_tile(wall);
    let visible = CurrentlyVisible::build(&envir, &segments, Some(5), from, true);
    assert_eq!(visible.can_see(pos(1, 0, 0), false), Visible::Seen);
    assert_eq!(visible.can_see(pos(2, 0, 0), false), Visible::Seen);
    assert_eq!(visible.can_see(pos(3, 0, 0), false), Visible::Unseen);
    assert_eq!(visible.can_see_relative(offset(9, 0, 0)), Visible::Unseen);
}

#[test]
fn nothing_is_seen_without_viewing_distance() {
    let segments = segments_up_to(0);
    let envir = Envir::new();
    let visible = CurrentlyVisible::build(&envir, &segments, None, pos(0, 0, 0), true);
    assert_eq!(visible.can_see(pos(1, 0, 0), false), Visible::Unseen);
    assert!(!visible.nearby(SubzoneLevel { x: 0, level: Level { h: 0 }, z: 0 }));
}

#[test]
fn viewing_distance_limits_sight() {
    let segments = segments_up_to(2);
    let envir = Envir::new();
    let visible = CurrentlyVisible::build(&envir, &segments, Some(2), pos(0, 0, 0), true);
    assert!(visible.nearby_pos(pos(2, 0, -2), 0));
    assert!(!visible.nearby_pos(pos(3, 0, 0), 0));
    assert!(visible.nearby_pos(pos(3, 0, 0), 1));
    assert_eq!(visible.can_see(pos(3, 0, 0), false), Visible::Unseen);
    assert!(visible.nearby(SubzoneLevel { x: 0, level: Level { h: 0 }, z: 0 }));
    assert!(!visible.nearby(SubzoneLevel { x: 1, level: Level { h: 0 }, z: 0 }));
}

#[test]
fn location_tracks_entities() {
    let mut location = Location::new();
    let a = EntityId { bits: 1 };
    let b = EntityId { bits: 2 };
    location.add(pos(0, 0, 0), a);
    location.add(pos(0, 0, 0), b);
    assert_eq!(location.all(pos(0, 0, 0)), &[a, b]);
    location.move_(a, pos(1, 0, 0));
    assert_eq!(location.all(pos(0, 0, 0)), &[b]);
    assert_eq!(location.position(a), Some(pos(1, 0, 0)));
    location.remove(b);
    assert!(location.all(pos(0, 0, 0)).is_empty());
    assert_eq!(location.position(b), None);
}

#[test]
fn explored_remembers_what_was_seen() {
    let mut explored = Explored::new();
    assert!(!explored.loaded());
    let zone_level = ZoneLevel { zone: Zone { x: 0, z: 0 }, level: Level { h: 0 } };
    explored.mark_zone_level_seen(zone_level);
    assert_eq!(explored.has_zone_level_been_seen(zone_level), Some(SeenFrom::FarAway));
    let other = ZoneLevel { zone: Zone { x: 1, z: 0 }, level: Level { h: 0 } };
    assert_eq!(explored.has_zone_level_been_seen(other), Some(SeenFrom::Never));
    explored.mark_pos_seen(pos(30, 3, 2));
    assert!(explored.has_pos_been_seen(pos(30, 3, 2)));
    assert_eq!(explored.has_zone_level_been_seen(other), Some(SeenFrom::CloseBy));
    assert!(explored.loaded());
}

#[test]
fn entities_of_map_parts() {
    let mut subzones = SubzoneLevelEntities::new();
    let level = SubzoneLevel { x: 1, level: Level { h: 0 }, z: 2 };
    let entity = EntityId { bits: 11 };
    subzones.add(level, entity);
    assert_eq!(subzones.get(level), Some(entity));
    assert!(subzones.loaded());
    subzones.remove(entity);
    assert_eq!(subzones.get(level), None);
    let mut zones = ZoneLevelEntities::new();
    let zone_level = ZoneLevel { zone: Zone { x: 0, z: 0 }, level: Level { h: 1 } };
    zones.add(zone_level, entity);
    assert_eq!(zones.get(zone_level), Some(entity));
    assert!(zones.remove(zone_level));
    assert!(!zones.remove(zone_level));
}

#[test]
fn zone_level_ids_fall_back_without_overmap() {
    let mut ids = ZoneLevelIds::new();
    let zone_level = ZoneLevel { zone: Zone { x: 3, z: 4 }, level: Level { h: -5 } };
    assert_eq!(ids.get(zone_level), None);
    ids.create_missing(Overzone { x: 0, z: 0 });
    assert_eq!(ids.get(zone_level), Some(String::from("deep_rock")));
    let above = ZoneLevel { zone: Zone { x: 3, z: 4 }, level: Level { h: 2 } };
    assert_eq!(ids.get(above), Some(String::from("open_air")));
    let elsewhere = ZoneLevel { zone: Zone { x: 200, z: 4 }, level: Level { h: 0 } };
    ids.load(Overzone { x: 1, z: 0 }, vec![(elsewhere, String::from("forest"))]);
    assert_eq!(ids.get(elsewhere), Some(String::from("forest")));
    ids.load(Overzone { x: 1, z: 0 }, vec![(elsewhere, String::from("lake"))]);
    assert_eq!(ids.get(elsewhere), Some(String::from("forest")));
    assert_eq!(fallback_terrain(Level { h: -3 }), "empty_rock");
    assert_eq!(fallback_terrain(Level { h: -1 }), "solid_earth");
    assert_eq!(fallback_terrain(Level { h: 0 }), "field");
}

#[test]
fn map_manager_counts_loading_assets() {
    let mut manager = MapManager::new();
    assert_eq!(manager.request(7, false, false), AssetStatus::Nonexistent);
    assert!(manager.loaded());
    assert_eq!(manager.request(7, true, false), AssetStatus::Loading);
    assert!(!manager.loaded());
    assert_eq!(manager.request(7, true, true), AssetStatus::Available);
    assert!(manager.loaded());
}

#[test]
fn sessions_notice_a_new_game() {
    let mut counter = GameplayCounter::new();
    let mut session = GameplaySession { last: 0 };
    assert!(!session.is_changed(&counter));
    counter.increase();
    assert!(session.is_changed(&counter));
    assert!(!session.is_changed(&counter));
    assert_eq!(DisplayHandling::from_count(0), DisplayHandling::Keep);
    assert_eq!(DisplayHandling::from_count(3), DisplayHandling::Refresh);
}

#[test]
fn expanded_region_reports_changes() {
    let region = Region { x_min: 0, x_max: 10, z_min: 0, z_max: 10, level_min: -1, level_max: 1 };
    let mut expanded = Expanded { region };
    assert!(!expanded.update(region));
    assert!(expanded.update(Region { x_min: -1, x_max: 10, z_min: 0, z_max: 10, level_min: -1, level_max: 1 }));
}

#[test]
fn looking_up_skips_stairs_that_lead_elsewhere() {
    let mut envir = Envir::new();
    let mut up = floor_tile(pos(6, 0, 5));
    up.stairs_up = true;
    envir.set_tile(up);
    let mut down = floor_tile(pos(5, 1, 5));
    down.stairs_down = true;
    envir.set_tile(down);
    assert_eq!(envir.get_looking_nbor(pos(6, 0, 5), Nbor::Up), Some(pos(5, 1, 5)));
    assert_eq!(envir.get_looking_nbor(pos(5, 0, 5), Nbor::Up), None);
    assert_eq!(envir.get_looking_nbor(pos(0, 0, 0), Nbor::Up), Some(pos(0, 1, 0)));
    assert_eq!(envir.get_looking_nbor(pos(5, 1, 5), Nbor::Down), Some(pos(6, 0, 5)));
    assert_eq!(envir.get_looking_nbor(pos(0, 0, 0), Nbor::Down), Some(pos(0, -1, 0)));
    assert_eq!(
        envir.get_looking_nbor(pos(0, 0, 0), Nbor::Horizontal(HorizontalDirection::East)),
        Some(pos(1, 0, 0))
    );
}

#[test]
fn zone_level_marks_overzone_loaded_after_a_seen_pos() {
    let mut explored = Explored::new();
    explored.mark_pos_seen(pos(30, 0, 2));
    let zone_level = ZoneLevel { zone: Zone { x: 1, z: 0 }, level: Level { h: 0 } };
    explored.mark_zone_level_seen(zone_level);
    assert_eq!(explored.has_zone_level_been_seen(zone_level), Some(SeenFrom::CloseBy));
    let other = ZoneLevel { zone: Zone { x: 1, z: 0 }, level: Level { h: -3 } };
    assert_eq!(explored.has_zone_level_been_seen(other), Some(SeenFrom::Never));
}

#[test]
fn checks_before_building_the_view() {
    let mut envir = Envir::new();
    envir.set_tile(floor_tile(pos(1, 0, 0)));
    assert!(envir.tiles_in_world());
    envir.set_tile(floor_tile(pos(i32::MAX, 0, 0)));
    assert!(!envir.tiles_in_world());
    let mut map: VecMap<Pos, u8> = VecMap::new();
    map.insert(pos(0, 0, 0), 1);
    map.insert(pos(1, 0, 0), 2);
    map.insert(pos(0, 0, 0), 3);
    assert!(map.is_wf());
}

#[test]
fn horizontal_nbors_always_exist() {
    let envir = Envir::new();
    let east = Nbor::Horizontal(HorizontalDirection::East);
    assert_eq!(envir.get_nbor(pos(1_000_000_000, 0, 0), east), Ok(pos(1_000_000_001, 0, 0)));
    assert_eq!(envir.get_looking_nbor(pos(1_000_000_000, 0, 0), east), Some(pos(1_000_000_001, 0, 0)));
    assert_eq!(envir.get_nbor(pos(2_147_483_615, 0, 0), east), Ok(pos(2_147_483_616, 0, 0)));
    assert_eq!(envir.get_looking_nbor(pos(-2_147_483_615, 0, 0), Nbor::Horizontal(HorizontalDirection::West)), Some(pos(-2_147_483_616, 0, 0)));
    assert_eq!(envir.world_nbor(pos(2_147_483_615, 0, 0), east), Err("Outside the world"));
    assert_eq!(envir.world_nbor(pos(1_000_000_000, 0, 0), east), Ok(pos(1_000_000_001, 0, 0)));
}

#[test]
fn without_a_plan_the_best_step_is_taken() {
    let mut envir = Envir::new();
    for x in 0..4 {
        envir.set_tile(floor_tile(pos(x, 0, 0)));
    }
    let seen = [pos(0, 0, 0), pos(1, 0, 0), pos(2, 0, 0)];
    let speed = MillimeterPerSecond { mm_per_s: 1_000 };
    let dumb = envir.path(pos(1, 0, 0), pos(3, 0, 0), Intelligence::Dumb, &seen, speed);
    assert_eq!(
        dumb,
        Some(MovementPath { first: pos(2, 0, 0), duration: Milliseconds { ms: 1_000 }, destination: pos(3, 0, 0) })
    );
    let unseen_destination = envir.path(pos(1, 0, 0), pos(3, 0, 0), Intelligence::Smart, &seen, speed);
    assert_eq!(unseen_destination, dumb);
    assert_eq!(envir.to_nbor(pos(0, 0, 0), pos(1, 0, 0)), Some(Nbor::Horizontal(HorizontalDirection::East)));
    assert_eq!(envir.to_nbor(pos(0, 0, 0), pos(0, 3, 0)), None);
}
