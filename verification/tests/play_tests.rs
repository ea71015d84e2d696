use glyphfall_core::battle::{BattlePhase, BattleState, Monster};
use glyphfall_core::party::{
    Influence, MentalState, PartyCommand, PartyMember, PartyState, Personality, PlayerBattleAction, PlayerInventory,
    PlayerSkills,
};
use glyphfall_core::play::animation::{
    build_highlight_text, build_underline_text, dialogue_underline_tick, monster_flash_tick, typewriter_tick,
    update_message_window, MonsterTint, TypewriterMessage,
};
use glyphfall_core::play::battle_input::{battle_input_is_ready, handle_battle_input};
use glyphfall_core::play::town_input::{
    handle_common_input, handle_dialogue_input, handle_inn_input, handle_shop_input, handle_town_input,
};
use glyphfall_core::play::{AppMode, CommandMenuState, Key, TravelState};
use glyphfall_core::town::dialogue::{DialogueLearnStage, DialoguePartner, DialogueSession, LearnableSpan};
use glyphfall_core::town::{AreaId, TownState};
use rand::rngs::StdRng;
use rand::SeedableRng;

fn party() -> PartyState {
    PartyState {
        members: vec![
            PartyMember::new_player("あなた").with_stats(30, 10),
            PartyMember::new("戦士ガルツ", "せんし", Influence::new_natural(82), MentalState::Normal, Personality::Loyal)
                .with_stats(35, 10),
        ],
        selected_index: 0,
        debug_mode: false,
    }
}

fn inventory(gold: i32) -> PlayerInventory {
    PlayerInventory { gold, items: vec![], topics: vec!["王都アルカン".to_string()] }
}

struct Battle {
    mode: AppMode,
    party: PartyState,
    inv: PlayerInventory,
    skills: PlayerSkills,
    battle: BattleState,
    town: TownState,
    rng: StdRng,
}

fn battle_scene() -> Battle {
    Battle {
        mode: AppMode::Battle,
        party: party(),
        inv: inventory(0),
        skills: PlayerSkills { magic_knowledge: 50, keen_eye: 50 },
        battle: BattleState::new(vec![Monster::new("スライム", 24, ""), Monster::new("がいこつ", 36, "")]),
        town: TownState::new(),
        rng: StdRng::seed_from_u64(3),
    }
}

fn press_battle(b: &mut Battle, key: Key) -> Option<String> {
    assert!(battle_input_is_ready(&b.party, &b.battle, &b.town));
    handle_battle_input(key, &mut b.mode, &mut b.party, &mut b.inv, &b.skills, &mut b.battle, &mut b.town, &mut b.rng)
}

#[test]
fn play_battle_orders_go_from_the_protagonist_to_the_companion() {
    let mut b = battle_scene();
    let msg = press_battle(&mut b, Key::Digit1).unwrap();
    assert_eq!(b.battle.player_action, Some(PlayerBattleAction::Attack));
    assert_eq!(b.battle.phase, BattlePhase::CommandInput { member_cursor: 1 });
    assert_eq!(msg, "あなた:「たたかう」を選択した。\n続いて、戦士ガルツ への指示を選択してください。");

    // Escape goes back to the protagonist.
    let msg = press_battle(&mut b, Key::Escape).unwrap();
    assert_eq!(b.battle.phase, BattlePhase::CommandInput { member_cursor: 0 });
    assert_eq!(msg, "あなた の行動選択に戻りました。");

    press_battle(&mut b, Key::Digit2);
    press_battle(&mut b, Key::Digit1);
    // Every order is given: the turn is being played out.
    assert_eq!(b.battle.party_commands[1], Some(PartyCommand::Attack));
    assert!(matches!(b.battle.phase, BattlePhase::TurnResolving { step_cursor: 0 }));
    assert!(!b.battle.turn_steps.is_empty());
}

#[test]
fn play_battle_herb_is_needed_for_the_item_command() {
    let mut b = battle_scene();
    let msg = press_battle(&mut b, Key::Digit3).unwrap();
    assert_eq!(msg, "やくそうを持っていません！\n別の行動を選択してください。");
    assert_eq!(b.battle.player_action, None);
    assert_eq!(b.battle.phase, BattlePhase::CommandInput { member_cursor: 0 });

    b.inv.items.push("やくそう".to_string());
    press_battle(&mut b, Key::Digit3);
    assert_eq!(b.battle.player_action, Some(PlayerBattleAction::UseItem));
    assert!(b.inv.items.is_empty());
}

#[test]
fn play_battle_leave_and_next_monster() {
    let mut b = battle_scene();
    let msg = press_battle(&mut b, Key::N).unwrap();
    assert_eq!(b.battle.current_index, 1);
    assert_eq!(msg, "あらたな　魔物【がいこつ】が　あらわれた！\nあなたの行動を選択してください。");

    let msg = press_battle(&mut b, Key::B).unwrap();
    assert_eq!(b.mode, AppMode::Town);
    assert_eq!(msg, "戦闘を離脱し、王都アルカン・商業区へ戻った。\n[WASD]で歩き回れる。");
}

#[test]
fn play_battle_turn_steps_advance_until_the_turn_ends() {
    let mut b = battle_scene();
    press_battle(&mut b, Key::Digit2);
    press_battle(&mut b, Key::Digit2);
    let mut guard = 0;
    while matches!(b.battle.phase, BattlePhase::TurnResolving { .. }) && b.mode == AppMode::Battle && guard < 50 {
        press_battle(&mut b, Key::Space);
        guard += 1;
    }
    // Both defended against a fresh slime: the turn ends with new orders.
    assert_eq!(b.battle.phase, BattlePhase::CommandInput { member_cursor: 0 });
    assert_eq!(b.battle.player_action, None);
}

#[test]
fn play_inn_rest_heals_and_costs_fifty() {
    let mut mode = AppMode::Inn;
    let mut p = party();
    p.members[0].hp = 3;
    let mut inv = inventory(70);
    let mut dialogue = Some(DialogueSession::start(DialoguePartner::Inn));
    handle_inn_input(Key::Digit1, &mut mode, &mut p, &mut inv, &mut dialogue);
    assert_eq!(inv.gold, 20);
    assert_eq!(p.members[0].hp, p.members[0].max_hp);

    // Too poor to stay again.
    p.members[0].hp = 3;
    handle_inn_input(Key::Enter, &mut mode, &mut p, &mut inv, &mut dialogue);
    assert_eq!(inv.gold, 20);
    assert_eq!(p.members[0].hp, 3);

    // Escape leaves the inn.
    handle_inn_input(Key::Escape, &mut mode, &mut p, &mut inv, &mut dialogue);
    assert_eq!(mode, AppMode::Town);
    assert!(dialogue.is_none());
}

#[test]
fn play_shop_cursor_and_purchase() {
    let mut mode = AppMode::Shop;
    let mut inv = inventory(30);
    let mut dialogue = Some(DialogueSession::start(DialoguePartner::Shop));
    handle_shop_input(Key::S, &mut mode, &mut inv, &mut dialogue);
    assert_eq!(dialogue.as_ref().unwrap().selected_shop_index, 1);
    // Fine herb, 25G.
    handle_shop_input(Key::Digit1, &mut mode, &mut inv, &mut dialogue);
    assert_eq!(inv.gold, 5);
    assert_eq!(inv.items, vec!["特やくそう".to_string()]);
    // Up twice stops at the first article.
    handle_shop_input(Key::W, &mut mode, &mut inv, &mut dialogue);
    handle_shop_input(Key::W, &mut mode, &mut inv, &mut dialogue);
    assert_eq!(dialogue.as_ref().unwrap().selected_shop_index, 0);
    handle_shop_input(Key::Digit3, &mut mode, &mut inv, &mut dialogue);
    assert_eq!(mode, AppMode::Town);
}

#[test]
fn play_dialogue_asking_a_topic_changes_the_reply() {
    let mut mode = AppMode::Dialogue;
    let mut inv = inventory(0);
    let mut dialogue = Some(DialogueSession::start(DialoguePartner::Villager));
    let before = dialogue.as_ref().unwrap().current_text.clone();
    let msg = handle_dialogue_input(Key::Digit1, &mut mode, &mut inv, &mut dialogue);
    assert!(msg.is_some());
    assert_ne!(dialogue.as_ref().unwrap().current_text, before);
    handle_dialogue_input(Key::Escape, &mut mode, &mut inv, &mut dialogue);
    assert_eq!(mode, AppMode::Town);
}

#[test]
fn play_town_keys_toggle_the_torch_and_open_the_command_window() {
    let mut mode = AppMode::Town;
    let mut town = TownState::new();
    let mut menu = CommandMenuState::default();
    let mut dialogue = None;
    let mut travel = TravelState::default();
    let mut rng = StdRng::seed_from_u64(1);
    assert!(town.torch_active);
    handle_town_input(Key::L, &mut mode, &mut town, &mut menu, &mut dialogue, &mut travel, &mut rng);
    assert!(!town.torch_active);
    handle_town_input(Key::Z, &mut mode, &mut town, &mut menu, &mut dialogue, &mut travel, &mut rng);
    assert_eq!(mode, AppMode::Interact);
    assert_eq!(town.current_area, AreaId::Town);
}

#[test]
fn play_common_keys_switch_focus_and_debug_view() {
    let mut p = party();
    let mut town = TownState::new();
    let msg = handle_common_input(Key::Tab, &mut p, &mut town).unwrap();
    assert_eq!(p.selected_index, 1);
    assert_eq!(msg, "戦士ガルツに　ちゅうもくした。");
    handle_common_input(Key::Tab, &mut p, &mut town);
    assert_eq!(p.selected_index, 0);
    handle_common_input(Key::F1, &mut p, &mut town);
    assert!(p.debug_mode);
    assert!(town.debug_see_all);
}

#[test]
fn play_typewriter_reveals_one_character_per_step() {
    let mut msg = TypewriterMessage::new();
    update_message_window(&mut msg, "あいう");
    assert_eq!(typewriter_tick(&mut msg, 10_000_000), None);
    assert_eq!(typewriter_tick(&mut msg, 10_000_000), Some("あ".to_string()));
    // A long frame still reveals only one character.
    assert_eq!(typewriter_tick(&mut msg, 100_000_000), Some("あい".to_string()));
    assert_eq!(typewriter_tick(&mut msg, 20_000_000), Some("あいう".to_string()));
    assert!(msg.is_fully_shown());
    assert_eq!(typewriter_tick(&mut msg, 20_000_000), None);
    assert_eq!(msg.shown_chars, 3);
}

#[test]
fn play_overlays_underline_and_highlight_words() {
    let spans = [LearnableSpan { start: 1, end: 3 }, LearnableSpan { start: 5, end: 6 }];
    assert_eq!(build_underline_text("abcd\nefg", &spans), " __ \n_  ");
    assert_eq!(build_highlight_text("abcd\nefg", &spans[0]), " bc \n   ");

    let mut session = DialogueSession::start(DialoguePartner::Tavern);
    session.current_text = "abcd\nefg".to_string();
    session.learnable_spans = spans.to_vec();
    session.learn_stage = DialogueLearnStage::ChoosingLearnTarget { cursor: 1 };
    let mut typewriter = TypewriterMessage::new();
    update_message_window(&mut typewriter, "abcd\nefg");
    let dialogue = Some(session);

    // Nothing while the reply is still being typed.
    assert_eq!(dialogue_underline_tick(AppMode::Dialogue, &dialogue, &typewriter), (String::new(), String::new()));
    typewriter.shown_chars = 8;
    assert_eq!(
        dialogue_underline_tick(AppMode::Dialogue, &dialogue, &typewriter),
        (" __ \n_  ".to_string(), "    \ne  ".to_string())
    );
    assert_eq!(dialogue_underline_tick(AppMode::Town, &dialogue, &typewriter), (String::new(), String::new()));
}

#[test]
fn play_hit_monster_flashes_until_the_timer_runs_out() {
    let mut b = BattleState::new(vec![Monster::new("スライム", 24, "")]);
    b.apply_damage(5);
    assert!(b.is_flashing);
    assert_eq!(monster_flash_tick(AppMode::Town, &mut b, 1_000_000_000), None);
    assert_eq!(monster_flash_tick(AppMode::Battle, &mut b, 100_000_000), Some(MonsterTint::Damage));
    assert_eq!(monster_flash_tick(AppMode::Battle, &mut b, 80_000_000), Some(MonsterTint::Normal));
    assert!(!b.is_flashing);
    assert_eq!(monster_flash_tick(AppMode::Battle, &mut b, 80_000_000), None);
}
