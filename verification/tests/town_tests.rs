use glyphfall_core::town::dungeon_gen::{
    bfs_distances, cave_attempt, choose_template_room_count, fallback_corridor, flood_fill, generate, idx, random_fill, smooth_step,
    sort_by_distance_desc, template_rect_fits, template_rects_overlap, find_template_slots, walkable_region,
    DungeonGenKind, CAVE_MIN_FLOOR_TILES, CAVE_SMOOTH_ITERATIONS,
};
use glyphfall_core::town::grid::neighbors4;
use glyphfall_core::town::{
    AreaId, CommandKind, Facing, FovMap, InteractOutcome, MoveOutcome, Position, TargetKind, TileType, TownMap,
    TownState,
};
use rand::rngs::StdRng;
use rand::SeedableRng;

#[test]
fn test_town_state_monster_encounter_and_clear() {
    let mut state = TownState::new();
    state.switch_area(AreaId::DungeonB1F, Position { x: 5, y: 5 }, &mut StdRng::seed_from_u64(1));
    state.map.set(5, 4, TileType::MonsterSymbol);

    let mut rng = StdRng::seed_from_u64(42);
    let outcome = state.move_player(0, -1, &mut rng);
    assert!(matches!(outcome, MoveOutcome::TriggerBattle { .. }));
    assert_eq!(state.last_encounter_pos, Some(Position { x: 5, y: 4 }));
    assert_eq!(state.player_pos, Position { x: 5, y: 5 });

    let cleared = state.clear_defeated_monster();
    assert!(cleared);
    assert_eq!(state.last_encounter_pos, None);
    assert_eq!(state.map.get(5, 4), Some(TileType::DungeonFloor));

    assert!(!state.clear_defeated_monster());
}

#[test]
fn new_town_state_starts_in_the_capital() {
    let state = TownState::new();
    assert_eq!(state.current_area, AreaId::Town);
    assert_eq!(state.player_pos, Position { x: 20, y: 5 });
    assert_eq!(state.player_facing, Facing::Up);
    assert!(state.torch_active);
    assert!(!state.debug_see_all);
    assert!(state.dirty);
    assert_eq!(state.followers.get_follower_position(2), Some(Position { x: 20, y: 6 }));
    assert!(state.fov.is_visible(20, 5));
    assert!(!state.fov.is_visible(0, 0));
}

#[test]
fn stairs_down_in_the_capital_enter_the_first_floor() {
    let mut state = TownState::new();
    state.map.set(20, 4, TileType::StairsDown);
    let mut rng = StdRng::seed_from_u64(7);
    let outcome = state.move_player(0, -1, &mut rng);
    assert!(matches!(outcome, MoveOutcome::ChangeArea { new_area: AreaId::DungeonB1F, .. }));
    assert_eq!(state.current_area, AreaId::DungeonB1F);
    assert_eq!(state.player_pos, Position { x: 3, y: 4 });
    assert_eq!(state.map.get(3, 4), Some(TileType::DungeonFloor));
    assert_eq!(state.last_encounter_pos, None);
}

#[test]
fn facing_and_commands_in_town_state() {
    let mut state = TownState::new();
    state.map.set(21, 5, TileType::NpcGuard);
    state.face(1, 0);
    assert_eq!(state.player_facing, Facing::Right);
    assert_eq!(state.tile_ahead(), Some(TileType::NpcGuard));
    assert_eq!(state.facing_target_kind(), TargetKind::Npc);
    assert!(matches!(state.resolve_interact(CommandKind::Talk), InteractOutcome::StartDialogue(_)));

    state.map.set(19, 5, TileType::ChestClosed);
    state.face(-1, 0);
    state.dirty = false;
    assert!(matches!(state.resolve_interact(CommandKind::Examine), InteractOutcome::ChestOpened { .. }));
    assert!(state.dirty);
    assert_eq!(state.map.get(19, 5), Some(TileType::ChestOpen));
}

#[test]
fn torch_changes_the_sight_radius() {
    let mut state = TownState::new();
    state.switch_area(AreaId::DungeonB2F, Position { x: 3, y: 4 }, &mut StdRng::seed_from_u64(3));
    for y in 0..13 {
        for x in 0..46 {
            state.map.set(x, y, TileType::DungeonFloor);
        }
    }
    state.recompute_fov();
    assert!(state.fov.is_visible(3 + 5, 4));
    state.torch_active = false;
    state.recompute_fov();
    assert!(!state.fov.is_visible(3 + 5, 4));
    assert!(state.fov.is_visible(3 + 2, 4));
    state.debug_see_all = true;
    state.recompute_fov();
    assert!(state.fov.is_visible(45, 12));
}

#[test]
fn fov_walls_block_sight() {
    let mut map = TownMap::new(10, 3, TileType::Floor);
    map.set(4, 1, TileType::Wall);
    let mut fov = FovMap::new(10, 3);
    fov.compute(&map, 1, 1, 8, false);
    assert!(fov.is_visible(3, 1));
    assert!(fov.is_visible(4, 1));
    assert!(!fov.is_visible(6, 1));
}

#[test]
fn fixed_maps_have_the_documented_size() {
    let capital = TownMap::create_arkan_capital();
    assert_eq!((capital.width, capital.height), (46, 13));
    let village = TownMap::create_suzukake_village();
    assert_eq!((village.width, village.height), (46, 13));
}

fn count_tiles(map: &TownMap, t: TileType) -> usize {
    let mut n = 0;
    for y in 0..map.height as i32 {
        for x in 0..map.width as i32 {
            if map.get(x, y) == Some(t) {
                n += 1;
            }
        }
    }
    n
}

fn find_tile(map: &TownMap, t: TileType) -> Option<(i32, i32)> {
    for y in 0..map.height as i32 {
        for x in 0..map.width as i32 {
            if map.get(x, y) == Some(t) {
                return Some((x, y));
            }
        }
    }
    None
}

#[test]
fn test_cave_generation_is_connected_across_many_seeds() {
    for seed in 0..200u64 {
        let mut rng = StdRng::seed_from_u64(seed);
        let entrance = (3, 4);
        let map = generate(DungeonGenKind::Cave, 46, 13, entrance, &mut rng);

        assert_eq!(map.get(entrance.0, entrance.1), Some(TileType::DungeonFloor), "seed {seed}: entrance must be floor");

        let decoration_count = count_tiles(&map, TileType::ChestClosed) + count_tiles(&map, TileType::MonsterSymbol);
        let reachable = walkable_region(&map, entrance);
        assert!(
            reachable.len() + decoration_count >= CAVE_MIN_FLOOR_TILES,
            "seed {seed}: reachable area too small ({}, {} decorations)",
            reachable.len(),
            decoration_count
        );

        assert!(find_tile(&map, TileType::StairsUp).is_some(), "seed {seed}: missing stairs up");
        let stairs_down_pos = find_tile(&map, TileType::StairsDown).unwrap_or_else(|| panic!("seed {seed}: missing stairs down"));
        assert!(reachable.contains(&stairs_down_pos), "seed {seed}: stairs down is not walkably reachable from entrance");
    }
}

#[test]
fn test_cave_generation_is_deterministic_for_same_seed() {
    let mut rng_a = StdRng::seed_from_u64(42);
    let mut rng_b = StdRng::seed_from_u64(42);
    let entrance = (3, 4);
    let map_a = generate(DungeonGenKind::Cave, 46, 13, entrance, &mut rng_a);
    let map_b = generate(DungeonGenKind::Cave, 46, 13, entrance, &mut rng_b);
    assert_eq!(map_a.tiles.len(), map_b.tiles.len());
    for (a, b) in map_a.tiles.iter().zip(map_b.tiles.iter()) {
        assert_eq!(a, b);
    }
}

#[test]
fn test_cave_generation_varies_between_seeds() {
    let mut rng_a = StdRng::seed_from_u64(1);
    let mut rng_b = StdRng::seed_from_u64(2);
    let entrance = (3, 4);
    let map_a = generate(DungeonGenKind::Cave, 46, 13, entrance, &mut rng_a);
    let map_b = generate(DungeonGenKind::Cave, 46, 13, entrance, &mut rng_b);
    let differs = map_a.tiles.iter().zip(map_b.tiles.iter()).any(|(a, b)| a != b);
    assert!(differs, "different seeds should not produce an identical cave");
}

#[test]
fn test_template_room_count_matches_expected_distribution() {
    const TRIALS: u64 = 200_000;
    let mut counts = [0u64; 3];
    for seed in 0..TRIALS {
        let mut rng = StdRng::seed_from_u64(seed);
        let count = choose_template_room_count(&mut rng);
        counts[count] += 1;
    }
    let ratios: Vec<f64> = counts.iter().map(|&c| c as f64 / TRIALS as f64).collect();
    const TOLERANCE: f64 = 0.02;
    let expected = [0.25, 0.60, 0.15];
    for (i, (&actual, &exp)) in ratios.iter().zip(expected.iter()).enumerate() {
        assert!((actual - exp).abs() <= TOLERANCE, "template count {i}: expected ~{exp}, got {actual} (counts={counts:?})");
    }
}

fn region_mask(region: &[(i32, i32)], width: usize, height: usize) -> Vec<bool> {
    let mut mask = vec![false; width * height];
    for &(x, y) in region {
        mask[idx(width, x, y)] = true;
    }
    mask
}

fn rect_cells(top_left: (i32, i32)) -> Vec<(i32, i32)> {
    let mut v = Vec::new();
    for dy in 0..5 {
        for dx in 0..5 {
            v.push((top_left.0 + dx, top_left.1 + dy));
        }
    }
    v
}

#[test]
fn test_template_slots_never_overlap_across_many_cave_shapes() {
    let width = 46;
    let height = 13;
    let entrance = (3, 4);
    let mut checked_two_slots = 0;

    for seed in 0..500u64 {
        let mut rng = StdRng::seed_from_u64(seed);
        let mut floor = random_fill(width, height, &mut rng);
        for _ in 0..CAVE_SMOOTH_ITERATIONS {
            floor = smooth_step(&floor, width, height);
        }
        floor[idx(width, entrance.0, entrance.1)] = true;

        let region = flood_fill(&floor, width, height, entrance);
        if region.len() < CAVE_MIN_FLOOR_TILES {
            continue;
        }
        let mask = region_mask(&region, width, height);

        let stairs_up = neighbors4(entrance.0, entrance.1)
            .into_iter()
            .find(|p| region.contains(p))
            .unwrap_or(entrance);
        let distances = bfs_distances(&region, width, height, entrance);
        let exit = distances.iter().max_by_key(|(_, d)| *d).map(|(p, _)| *p).unwrap_or(entrance);
        let reserved = vec![entrance, stairs_up, exit];

        let sorted_by_dist = sort_by_distance_desc(&distances);
        let slots = find_template_slots(&sorted_by_dist, &mask, width, height, &reserved, 2);
        if slots.len() == 2 {
            checked_two_slots += 1;
            assert!(!template_rects_overlap(slots[0], slots[1]), "seed {seed}: template rects overlap: {:?} vs {:?}", slots[0], slots[1]);
            for &top_left in &slots {
                assert!(template_rect_fits(&mask, width, height, &Vec::new(), top_left), "seed {seed}: template rect {top_left:?} does not fully fit region");
                for reserved_pos in &reserved {
                    assert!(!rect_cells(top_left).contains(reserved_pos), "seed {seed}: template rect {top_left:?} collides with reserved tile {reserved_pos:?}");
                }
            }
        }
    }
    assert!(checked_two_slots > 0, "no seed in the sampled range produced two template slots; test is vacuous");
}

#[test]
fn dungeon_floor_is_46_by_13_with_entrance_floor() {
    for seed in 0..20u64 {
        let map = TownMap::create_dungeon_floor(&mut StdRng::seed_from_u64(seed));
        assert_eq!((map.width, map.height), (46, 13));
        assert_eq!(map.get(3, 4), Some(TileType::DungeonFloor));
        let up = find_tile(&map, TileType::StairsUp).unwrap();
        assert_eq!((up.0 - 3).abs() + (up.1 - 4).abs(), 1, "seed {seed}: stairs up next to the entrance");
    }
}

#[test]
fn every_walkable_cell_is_reachable_on_generated_floors() {
    for seed in 0..40u64 {
        let map = TownMap::create_dungeon_floor(&mut StdRng::seed_from_u64(seed));
        let reachable = walkable_region(&map, (3, 4));
        for y in 0..13 {
            for x in 0..46 {
                if map.get(x, y).map(|t| t.is_walkable()).unwrap_or(false) {
                    assert!(reachable.contains(&(x, y)), "seed {seed}: ({x}, {y}) cut off");
                }
            }
        }
    }
}

#[test]
fn fallback_corridor_layout() {
    let map = fallback_corridor(10, 5, (3, 2));
    assert_eq!(map.get(2, 2), Some(TileType::StairsUp));
    assert_eq!(map.get(3, 2), Some(TileType::DungeonFloor));
    assert_eq!(map.get(7, 2), Some(TileType::DungeonFloor));
    assert_eq!(map.get(8, 2), Some(TileType::StairsDown));
    assert_eq!(map.get(9, 2), Some(TileType::DungeonWall));
    assert_eq!(map.get(3, 1), Some(TileType::DungeonWall));
    let west = fallback_corridor(10, 5, (1, 2));
    assert_eq!(west.get(2, 2), Some(TileType::StairsUp));
    assert_eq!(west.get(0, 2), Some(TileType::DungeonWall));
}

#[test]
fn smoothing_and_flood_fill_on_a_small_grid() {
    // A 5 by 5 grid, all floor inside the ring.
    let mut floor = vec![false; 25];
    for y in 1..4 {
        for x in 1..4 {
            floor[idx(5, x, y)] = true;
        }
    }
    let region = flood_fill(&floor, 5, 5, (2, 2));
    assert_eq!(region.len(), 9);
    assert_eq!(region[0], (2, 2));
    let smoothed = smooth_step(&floor, 5, 5);
    // The centre keeps floor: it has no wall around it.
    assert!(smoothed[idx(5, 2, 2)]);
    // The ring stays rock.
    assert!(!smoothed[idx(5, 0, 0)]);
    let d = bfs_distances(&region, 5, 5, (2, 2));
    assert_eq!(d[0], ((2, 2), 0));
    assert!(d.iter().all(|&(p, dist)| dist == ((p.0 - 2).abs() + (p.1 - 2).abs()) as usize));
}

#[test]
fn distances_follow_the_region_around_walls() {
    // A U: down the left column, along the bottom row, up the right column.
    let region = vec![(0, 0), (0, 1), (0, 2), (1, 2), (2, 2), (2, 1), (2, 0), (4, 4)];
    let d = bfs_distances(&region, 5, 5, (0, 0));
    let expected = [0usize, 1, 2, 3, 4, 5, 6, usize::MAX];
    for (k, &(p, dist)) in d.iter().enumerate() {
        assert_eq!(p, region[k]);
        assert_eq!(dist, expected[k], "distance of {p:?}");
    }
}

#[test]
fn cave_attempt_keeps_only_large_regions() {
    let (w, h) = (46usize, 13usize);
    let mut open = vec![false; w * h];
    for y in 1..h - 1 {
        for x in 1..w - 1 {
            open[y * w + x] = true;
        }
    }
    let region = cave_attempt(&open, w, h, (3, 4)).expect("an open interior grows a cave");
    assert_eq!(region[0], (3, 4));
    assert!(region.len() >= CAVE_MIN_FLOOR_TILES);
    assert!(region.iter().all(|&(x, y)| x >= 1 && y >= 1 && x < 45 && y < 12));

    let closed = vec![false; w * h];
    assert!(cave_attempt(&closed, w, h, (3, 4)).is_none());
}

#[test]
fn generated_floors_keep_a_rock_ring_and_single_stairs() {
    for seed in 0..60u64 {
        let mut rng = StdRng::seed_from_u64(seed);
        let map = generate(DungeonGenKind::Cave, 46, 13, (3, 4), &mut rng);
        for y in 0..13 {
            for x in 0..46 {
                if x == 0 || y == 0 || x == 45 || y == 12 {
                    assert_eq!(map.get(x, y), Some(TileType::DungeonWall), "seed {seed}: ({x}, {y})");
                }
            }
        }
        assert_eq!(count_tiles(&map, TileType::StairsUp), 1, "seed {seed}");
        assert_eq!(count_tiles(&map, TileType::StairsDown), 1, "seed {seed}");
    }
}
