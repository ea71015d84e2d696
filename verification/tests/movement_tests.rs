use glyphfall_core::town::{try_move_player, AreaId, Facing, FollowerHistory, MoveOutcome, Position, TileType, TownMap};

fn bump(map: &mut TownMap, area: AreaId, facing: Facing, dx: i32, dy: i32) -> (MoveOutcome, Position, Facing, FollowerHistory) {
    let mut player_pos = Position { x: 5, y: 5 };
    let mut player_facing = facing;
    let mut followers = FollowerHistory::new(Position { x: 5, y: 5 }, 2);
    let outcome = try_move_player(map, area, &mut player_pos, &mut player_facing, &mut followers, dx, dy);
    (outcome, player_pos, player_facing, followers)
}

#[test]
fn movement_test_player_movement_and_follower_trail() {
    let mut map = TownMap::new(10, 10, TileType::Floor);
    let mut player_pos = Position { x: 5, y: 5 };
    let mut player_facing = Facing::Up;
    let mut followers = FollowerHistory::new(Position { x: 5, y: 5 }, 3);

    let outcome = try_move_player(&mut map, AreaId::Town, &mut player_pos, &mut player_facing, &mut followers, 1, 0);
    assert!(matches!(outcome, MoveOutcome::Moved { .. }));
    assert_eq!(player_pos, Position { x: 6, y: 5 });
    assert_eq!(player_facing, Facing::Right);
    assert_eq!(followers.get_follower_position(0), Some(Position { x: 5, y: 5 }));

    let outcome2 = try_move_player(&mut map, AreaId::Town, &mut player_pos, &mut player_facing, &mut followers, 0, -1);
    assert!(matches!(outcome2, MoveOutcome::Moved { .. }));
    assert_eq!(player_pos, Position { x: 6, y: 4 });
    assert_eq!(player_facing, Facing::Up);
    assert_eq!(followers.get_follower_position(0), Some(Position { x: 6, y: 5 }));
    assert_eq!(followers.get_follower_position(1), Some(Position { x: 5, y: 5 }));
}

#[test]
fn movement_test_wall_blocks_movement() {
    let mut map = TownMap::new(10, 10, TileType::Floor);
    map.set(5, 4, TileType::Wall);
    let (outcome, pos, _, _) = bump(&mut map, AreaId::Town, Facing::Down, 0, -1);
    assert!(matches!(outcome, MoveOutcome::Blocked { .. }));
    assert_eq!(pos, Position { x: 5, y: 5 });
}

#[test]
fn movement_test_door_opens_on_bump() {
    let mut map = TownMap::new(10, 10, TileType::Floor);
    map.set(5, 4, TileType::DoorClosed);
    let (outcome, _, _, _) = bump(&mut map, AreaId::Town, Facing::Down, 0, -1);
    assert!(matches!(outcome, MoveOutcome::Blocked { .. }));
    assert_eq!(map.get(5, 4), Some(TileType::DoorOpen));
}

#[test]
fn movement_test_stairs_down_changes_area_to_dungeon() {
    let mut map = TownMap::new(10, 10, TileType::Floor);
    map.set(5, 4, TileType::StairsDown);
    let (outcome, _, _, _) = bump(&mut map, AreaId::Town, Facing::Down, 0, -1);
    assert!(matches!(outcome, MoveOutcome::ChangeArea { new_area: AreaId::DungeonB1F, .. }));
}

#[test]
fn test_stairs_down_descends_one_floor_at_a_time() {
    let floors = [
        (AreaId::DungeonB1F, AreaId::DungeonB2F),
        (AreaId::DungeonB2F, AreaId::DungeonB3F),
        (AreaId::DungeonB3F, AreaId::DungeonB4F),
        (AreaId::DungeonB4F, AreaId::DungeonB5F),
        (AreaId::DungeonB5F, AreaId::DungeonB6F),
    ];
    for (current, expected_next) in floors {
        let mut map = TownMap::new(10, 10, TileType::DungeonFloor);
        map.set(5, 4, TileType::StairsDown);
        let (outcome, _, _, _) = bump(&mut map, current, Facing::Down, 0, -1);
        assert!(
            matches!(outcome, MoveOutcome::ChangeArea { new_area, .. } if new_area == expected_next),
            "descending from {current:?} should lead to {expected_next:?}, got {outcome:?}"
        );
    }
}

#[test]
fn test_stairs_down_from_deepest_floor_triggers_battle_instead_of_new_area() {
    let mut map = TownMap::new(10, 10, TileType::DungeonFloor);
    map.set(5, 4, TileType::StairsDown);
    let (outcome, pos, _, _) = bump(&mut map, AreaId::DungeonB6F, Facing::Down, 0, -1);
    assert!(matches!(outcome, MoveOutcome::TriggerBattle { .. }));
    assert_eq!(pos, Position { x: 5, y: 4 });
}

#[test]
fn test_stairs_up_ascends_one_floor_at_a_time() {
    let floors = [
        (AreaId::DungeonB2F, AreaId::DungeonB1F),
        (AreaId::DungeonB3F, AreaId::DungeonB2F),
        (AreaId::DungeonB4F, AreaId::DungeonB3F),
        (AreaId::DungeonB5F, AreaId::DungeonB4F),
        (AreaId::DungeonB6F, AreaId::DungeonB5F),
    ];
    for (current, expected_prev) in floors {
        let mut map = TownMap::new(10, 10, TileType::DungeonFloor);
        map.set(5, 4, TileType::StairsUp);
        let (outcome, _, _, _) = bump(&mut map, current, Facing::Down, 0, -1);
        assert!(
            matches!(outcome, MoveOutcome::ChangeArea { new_area, .. } if new_area == expected_prev),
            "ascending from {current:?} should lead to {expected_prev:?}, got {outcome:?}"
        );
    }
}

#[test]
fn test_chest_does_not_open_on_bump() {
    let mut map = TownMap::new(10, 10, TileType::DungeonFloor);
    map.set(5, 4, TileType::ChestClosed);
    let (outcome, pos, _, _) = bump(&mut map, AreaId::DungeonB1F, Facing::Up, 0, -1);
    assert!(matches!(outcome, MoveOutcome::Blocked { .. }));
    assert_eq!(pos, Position { x: 5, y: 5 });
    assert_eq!(map.get(5, 4), Some(TileType::ChestClosed));
}

#[test]
fn test_monster_symbol_triggers_battle_with_position() {
    let mut map = TownMap::new(10, 10, TileType::DungeonFloor);
    map.set(5, 4, TileType::MonsterSymbol);
    let (outcome, pos, facing, _) = bump(&mut map, AreaId::DungeonB1F, Facing::Up, 0, -1);
    match outcome {
        MoveOutcome::TriggerBattle { monster_pos, .. } => {
            assert_eq!(monster_pos, Some(Position { x: 5, y: 4 }));
        }
        other => panic!("expected TriggerBattle, got {other:?}"),
    }
    assert_eq!(pos, Position { x: 5, y: 5 });
    assert_eq!(facing, Facing::Up);
}

#[test]
fn stairs_up_from_first_floor_returns_to_capital() {
    let mut map = TownMap::new(10, 10, TileType::DungeonFloor);
    map.set(5, 4, TileType::StairsUp);
    let (outcome, _, _, _) = bump(&mut map, AreaId::DungeonB1F, Facing::Up, 0, -1);
    match outcome {
        MoveOutcome::ChangeArea { new_area, spawn_pos, .. } => {
            assert_eq!(new_area, AreaId::Town);
            assert_eq!(spawn_pos, Position { x: 40, y: 11 });
        }
        other => panic!("expected ChangeArea, got {other:?}"),
    }
}

#[test]
fn road_exit_requests_travel_both_ways() {
    let mut map = TownMap::new(10, 10, TileType::Floor);
    map.set(5, 4, TileType::RoadExit);
    let (outcome, pos, _, _) = bump(&mut map, AreaId::Town, Facing::Up, 0, -1);
    assert!(matches!(outcome, MoveOutcome::RequestTravel { destination: AreaId::Village, spawn_pos: Position { x: 44, y: 6 } }));
    assert_eq!(pos, Position { x: 5, y: 5 });
    let (outcome, _, _, _) = bump(&mut map, AreaId::Village, Facing::Up, 0, -1);
    assert!(matches!(outcome, MoveOutcome::RequestTravel { destination: AreaId::Town, spawn_pos: Position { x: 1, y: 6 } }));
}

#[test]
fn leaving_the_map_is_blocked_silently() {
    let mut map = TownMap::new(10, 10, TileType::Floor);
    let mut player_pos = Position { x: 0, y: 0 };
    let mut facing = Facing::Down;
    let mut followers = FollowerHistory::new(player_pos, 2);
    let outcome = try_move_player(&mut map, AreaId::Town, &mut player_pos, &mut facing, &mut followers, -1, 0);
    assert!(matches!(outcome, MoveOutcome::Blocked { message: None }));
    assert_eq!(facing, Facing::Left);
    assert_eq!(player_pos, Position { x: 0, y: 0 });
}

#[test]
fn follower_trail_keeps_its_length() {
    let mut followers = FollowerHistory::new(Position { x: 0, y: 0 }, 2);
    followers.push(Position { x: 1, y: 0 });
    followers.push(Position { x: 2, y: 0 });
    followers.push(Position { x: 3, y: 0 });
    assert_eq!(followers.history.len(), 2);
    assert_eq!(followers.get_follower_position(0), Some(Position { x: 3, y: 0 }));
    assert_eq!(followers.get_follower_position(1), Some(Position { x: 2, y: 0 }));
    assert_eq!(followers.get_follower_position(2), None);
    followers.reset(Position { x: 9, y: 9 });
    assert_eq!(followers.get_follower_position(1), Some(Position { x: 9, y: 9 }));
}

#[test]
fn follower_trail_grows_up_to_its_limit_and_trims_longer_ones() {
    let p = |x: i32| Position { x, y: 0 };
    let mut short = FollowerHistory { history: std::collections::VecDeque::new(), max_len: 3 };
    short.push(p(1));
    short.push(p(2));
    assert_eq!(short.history.len(), 2);
    assert_eq!(short.get_follower_position(0), Some(p(2)));
    assert_eq!(short.get_follower_position(1), Some(p(1)));
    short.push(p(3));
    short.push(p(4));
    assert_eq!(short.history.iter().copied().collect::<Vec<_>>(), vec![p(4), p(3), p(2)]);
    let mut long = FollowerHistory { history: (10..16).map(p).collect(), max_len: 2 };
    long.push(p(9));
    assert_eq!(long.history.iter().copied().collect::<Vec<_>>(), vec![p(9), p(10)]);
    assert_eq!(long.max_len, 2);
}
