use glyphfall_core::town::interact::{classify_tile, facing_delta, resolve, CHEST_GOLD};
use glyphfall_core::town::{CommandKind, DialoguePartner, Facing, InteractOutcome, Position, TargetKind, TileType, TownMap};

#[test]
fn test_examine_npc_gives_look_text_without_dialogue() {
    let mut map = TownMap::new(5, 5, TileType::Floor);
    map.set(2, 1, TileType::NpcGuard);
    let outcome = resolve(&mut map, Position { x: 2, y: 2 }, Facing::Up, CommandKind::Examine);
    assert!(matches!(outcome, InteractOutcome::Message(_)));
}

#[test]
fn test_talk_to_npc_starts_dialogue() {
    let mut map = TownMap::new(5, 5, TileType::Floor);
    map.set(2, 1, TileType::NpcGuard);
    let outcome = resolve(&mut map, Position { x: 2, y: 2 }, Facing::Up, CommandKind::Talk);
    assert!(matches!(outcome, InteractOutcome::StartDialogue(DialoguePartner::Guard)));
}

#[test]
fn test_talk_to_empty_direction_fails() {
    let mut map = TownMap::new(5, 5, TileType::Floor);
    let outcome = resolve(&mut map, Position { x: 2, y: 2 }, Facing::Up, CommandKind::Talk);
    assert!(matches!(outcome, InteractOutcome::Message(_)));
}

#[test]
fn test_examine_chest_opens_it() {
    let mut map = TownMap::new(5, 5, TileType::DungeonFloor);
    map.set(2, 1, TileType::ChestClosed);
    let outcome = resolve(&mut map, Position { x: 2, y: 2 }, Facing::Up, CommandKind::Examine);
    assert!(matches!(outcome, InteractOutcome::ChestOpened { .. }));
    assert_eq!(map.get(2, 1), Some(TileType::ChestOpen));
}

#[test]
fn test_steal_on_npc_is_not_yet_implemented() {
    let mut map = TownMap::new(5, 5, TileType::Floor);
    map.set(2, 1, TileType::NpcSuspicious);
    let outcome = resolve(&mut map, Position { x: 2, y: 2 }, Facing::Up, CommandKind::Steal);
    assert!(matches!(outcome, InteractOutcome::Message(_)));
}

#[test]
fn test_dynamic_label_switches_to_look_for_npc() {
    assert_eq!(CommandKind::Examine.dynamic_label(TargetKind::Npc), "みる");
    assert_eq!(CommandKind::Examine.dynamic_label(TargetKind::Object), "しらべる");
}

#[test]
fn test_only_item_skips_direction_selection() {
    assert!(!CommandKind::Item.needs_direction());
    assert!(CommandKind::Examine.needs_direction());
    assert!(CommandKind::Talk.needs_direction());
    assert!(CommandKind::Steal.needs_direction());
}

#[test]
fn chest_gives_gold_and_fine_herb_once() {
    let mut map = TownMap::new(5, 5, TileType::DungeonFloor);
    map.set(3, 2, TileType::ChestClosed);
    match resolve(&mut map, Position { x: 2, y: 2 }, Facing::Right, CommandKind::Examine) {
        InteractOutcome::ChestOpened { gold, item, message } => {
            assert_eq!(gold, CHEST_GOLD);
            assert_eq!(gold, 120);
            assert_eq!(item, "特やくそう");
            assert_eq!(message, "宝箱を調べた！\n120フォリンと「特やくそう」を手に入れた！");
        }
        _ => panic!("expected the chest to open"),
    }
    match resolve(&mut map, Position { x: 2, y: 2 }, Facing::Right, CommandKind::Examine) {
        InteractOutcome::Message(m) => assert_eq!(m, "空になった宝箱だ。"),
        _ => panic!("an open chest only gives a message"),
    }
}

#[test]
fn talking_to_a_chest_does_not_open_it() {
    let mut map = TownMap::new(5, 5, TileType::DungeonFloor);
    map.set(2, 3, TileType::ChestClosed);
    let outcome = resolve(&mut map, Position { x: 2, y: 2 }, Facing::Down, CommandKind::Talk);
    match outcome {
        InteractOutcome::Message(m) => assert_eq!(m, "そこには話せる相手がいない。"),
        _ => panic!("no dialogue with a chest"),
    }
    assert_eq!(map.get(2, 3), Some(TileType::ChestClosed));
}

#[test]
fn examining_off_the_map_finds_nothing() {
    let mut map = TownMap::new(3, 3, TileType::Floor);
    match resolve(&mut map, Position { x: 0, y: 0 }, Facing::Left, CommandKind::Examine) {
        InteractOutcome::Message(m) => assert_eq!(m, "そこには何もない。"),
        _ => panic!("nothing to see"),
    }
}

#[test]
fn classify_and_deltas() {
    assert_eq!(classify_tile(None), TargetKind::Nothing);
    assert_eq!(classify_tile(Some(TileType::Shop)), TargetKind::Npc);
    assert_eq!(classify_tile(Some(TileType::Wall)), TargetKind::Object);
    assert_eq!(facing_delta(Facing::Up), (0, -1));
    assert_eq!(facing_delta(Facing::Down), (0, 1));
    assert_eq!(facing_delta(Facing::Left), (-1, 0));
    assert_eq!(facing_delta(Facing::Right), (1, 0));
    assert_eq!(CommandKind::ALL, [CommandKind::Examine, CommandKind::Talk, CommandKind::Item, CommandKind::Steal]);
    assert_eq!(CommandKind::Steal.base_label(), "ぬすむ");
    assert_eq!(CommandKind::Talk.dynamic_label(TargetKind::Npc), "はなす");
}

#[test]
fn resolve_at_the_edge_of_the_coordinates_only_needs_the_faced_cell() {
    let mut map = TownMap::new(5, 5, TileType::Floor);
    let outcome = resolve(&mut map, Position { x: i32::MAX, y: 2 }, Facing::Up, CommandKind::Examine);
    assert!(matches!(outcome, InteractOutcome::Message(_)));
    assert_eq!(map.get(2, 1), Some(TileType::Floor));
}
