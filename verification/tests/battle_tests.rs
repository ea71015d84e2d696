use glyphfall_core::battle::{create_default_monsters, BattlePhase, BattleState, Monster};
use glyphfall_core::party::{
    Influence, MentalState, PartyCommand, PartyMember, Personality, PlayerBattleAction, PlayerSkills,
};
use rand::rngs::StdRng;
use rand::SeedableRng;

fn create_test_party() -> Vec<PartyMember> {
    vec![
        PartyMember::new_player("あなた").with_stats(20, 0),
        PartyMember::new("戦士ガルツ", "せんし", Influence::new_natural(85), MentalState::Normal, Personality::Loyal)
            .with_stats(35, 10),
        PartyMember::new("遊び人ロロ", "あそびにん", Influence::new_natural(40), MentalState::Normal, Personality::Slacker)
            .with_stats(25, 10),
        PartyMember::new(
            "魔法使いミレイ",
            "まほうつかい",
            Influence::new_natural(88),
            MentalState::Normal,
            Personality::Yandere,
        )
        .with_stats(22, 25),
    ]
}

fn skilled() -> PlayerSkills {
    PlayerSkills { magic_knowledge: 50, keen_eye: 50 }
}

#[test]
fn battle_test_battle_turn_resolution_and_counterattack() {
    let mut battle = BattleState::new(vec![Monster::new("テストスライム", 100, "")]);
    let mut party = create_test_party();
    let skills = skilled();
    let mut rng = StdRng::seed_from_u64(12345);

    battle.player_action = Some(PlayerBattleAction::Attack);
    battle.party_commands = vec![None, Some(PartyCommand::Attack), Some(PartyCommand::Defend), Some(PartyCommand::Attack)];

    battle.build_turn_resolution(&party, &skills, &mut rng);

    assert!(!battle.turn_steps.is_empty());
    assert_eq!(battle.phase, BattlePhase::TurnResolving { step_cursor: 0 });
    assert_eq!(battle.current_monster().hp, 100);

    battle.execute_all_steps(&mut party);
    assert!(battle.current_monster().hp < 100);

    let has_counter = battle.turn_steps.iter().any(|s| s.message.contains("反撃") || s.message.contains("迫る"));
    assert!(has_counter);
}

#[test]
fn battle_test_battle_player_defeated() {
    let mut battle = BattleState::new(vec![Monster::new("強敵ドラゴン", 100, "")]);
    let mut party = create_test_party();
    party[0].hp = 1;
    party[1].hp = 0;
    party[2].hp = 0;
    party[3].hp = 0;
    let skills = skilled();
    let mut rng = StdRng::seed_from_u64(999);

    battle.player_action = Some(PlayerBattleAction::Attack);
    battle.party_commands = vec![None, None, None, None];

    battle.build_turn_resolution(&party, &skills, &mut rng);

    let has_player_defeated = battle.turn_steps.iter().any(|s| s.player_defeated);
    assert!(has_player_defeated);

    battle.execute_all_steps(&mut party);
    assert_eq!(party[0].hp, 0);
}

#[test]
fn battle_test_battle_monster_defeated_stops_action() {
    let mut battle = BattleState::new(vec![Monster::new("ひん死スライム", 3, "")]);
    let mut party = create_test_party();
    let skills = skilled();
    let mut rng = StdRng::seed_from_u64(42);

    battle.player_action = Some(PlayerBattleAction::Attack);
    battle.party_commands = vec![None, Some(PartyCommand::Attack), Some(PartyCommand::Attack), Some(PartyCommand::Attack)];

    battle.build_turn_resolution(&party, &skills, &mut rng);

    let last_step = battle.turn_steps.last().unwrap();
    assert!(last_step.monster_defeated);

    battle.execute_all_steps(&mut party);
    assert!(battle.current_monster().is_dead());
}

#[test]
fn test_battle_use_item_does_not_revive_dead_member() {
    let mut battle = BattleState::new(vec![Monster::new("スライム", 100, "")]);
    let mut party = create_test_party();
    party[1].hp = 0;
    party[2].hp = 5;

    let skills = PlayerSkills::default();
    let mut rng = StdRng::seed_from_u64(1);

    battle.player_action = Some(PlayerBattleAction::UseItem);
    battle.party_commands = vec![None, None, Some(PartyCommand::Defend), Some(PartyCommand::Defend)];

    battle.build_turn_resolution(&party, &skills, &mut rng);
    battle.execute_all_steps(&mut party);

    assert_eq!(party[1].hp, 0);
    assert!(party[2].hp > 5);
}

#[test]
fn test_battle_solo_player_resolution() {
    let mut battle = BattleState::new(vec![Monster::new("テストスライム", 30, "")]);
    let mut solo_party = vec![PartyMember::new_player("あなた").with_stats(20, 0)];
    let skills = PlayerSkills::default();
    let mut rng = StdRng::seed_from_u64(100);

    battle.reset_turn_commands(solo_party.len());
    assert_eq!(battle.party_commands.len(), 1);

    battle.player_action = Some(PlayerBattleAction::Attack);
    battle.build_turn_resolution(&solo_party, &skills, &mut rng);

    assert_eq!(battle.turn_steps.len(), 2);
    assert!(battle.turn_steps[0].message.contains("石を投げつけた"));
    assert!(battle.turn_steps[1].message.contains("反撃"));
    assert_eq!(battle.phase, BattlePhase::TurnResolving { step_cursor: 0 });

    battle.apply_step_effects(0, &mut solo_party);
    assert!(battle.current_monster().hp < 30);
}

// The same scenarios as above, as the earlier battle screen drove them:
// the turn is built, then its steps are applied.

#[test]
fn mod_test_battle_turn_resolution_and_counterattack() {
    let mut battle = BattleState::new(vec![Monster::new("テストスライム", 100, "")]);
    let mut party = create_test_party();
    let skills = skilled();
    let mut rng = StdRng::seed_from_u64(12345);

    battle.player_action = Some(PlayerBattleAction::Attack);
    battle.party_commands = vec![None, Some(PartyCommand::Attack), Some(PartyCommand::Defend), Some(PartyCommand::Attack)];

    battle.build_turn_resolution(&party, &skills, &mut rng);
    battle.execute_all_steps(&mut party);

    assert!(!battle.turn_steps.is_empty());
    assert_eq!(battle.phase, BattlePhase::TurnResolving { step_cursor: 0 });
    assert!(battle.current_monster().hp < 100);
    let has_counter = battle.turn_steps.iter().any(|s| s.message.contains("反撃") || s.message.contains("迫る"));
    assert!(has_counter);
}

#[test]
fn mod_test_battle_player_defeated() {
    let mut battle = BattleState::new(vec![Monster::new("強敵ドラゴン", 100, "")]);
    let mut party = create_test_party();
    party[0].hp = 1;
    party[1].hp = 0;
    party[2].hp = 0;
    party[3].hp = 0;
    let skills = skilled();
    let mut rng = StdRng::seed_from_u64(999);

    battle.player_action = Some(PlayerBattleAction::Attack);
    battle.party_commands = vec![None, None, None, None];

    battle.build_turn_resolution(&party, &skills, &mut rng);
    battle.execute_all_steps(&mut party);

    let has_player_defeated = battle.turn_steps.iter().any(|s| s.player_defeated);
    assert!(has_player_defeated);
    assert_eq!(party[0].hp, 0);
}

#[test]
fn mod_test_battle_monster_defeated_stops_action() {
    let mut battle = BattleState::new(vec![Monster::new("ひん死スライム", 3, "")]);
    let mut party = create_test_party();
    let skills = skilled();
    let mut rng = StdRng::seed_from_u64(42);

    battle.player_action = Some(PlayerBattleAction::Attack);
    battle.party_commands = vec![None, Some(PartyCommand::Attack), Some(PartyCommand::Attack), Some(PartyCommand::Attack)];

    battle.build_turn_resolution(&party, &skills, &mut rng);
    battle.execute_all_steps(&mut party);

    assert!(battle.current_monster().is_dead());
    let last_step = battle.turn_steps.last().unwrap();
    assert!(last_step.monster_defeated);
}

#[test]
fn monster_take_damage_stops_at_zero() {
    let mut m = Monster::new("スライム", 10, "");
    m.take_damage(4);
    assert_eq!(m.hp, 6);
    assert!(!m.is_dead());
    m.take_damage(50);
    assert_eq!(m.hp, 0);
    assert!(m.is_dead());
}

#[test]
fn apply_damage_reports_defeat() {
    let mut battle = BattleState::new(vec![Monster::new("スライム", 10, "")]);
    let (_, dead) = battle.apply_damage(3);
    assert!(!dead);
    assert_eq!(battle.current_monster().hp, 7);
    assert!(battle.is_flashing);
    let (_, dead) = battle.apply_damage(7);
    assert!(dead);
    assert_eq!(battle.current_monster().hp, 0);
}

#[test]
fn next_monster_cycles_and_heals() {
    let mut battle = BattleState::new(create_default_monsters());
    let n = battle.monsters.len();
    assert!(n >= 2);
    battle.monsters[1].hp = 1;
    battle.next_monster(4);
    assert_eq!(battle.current_index, 1);
    assert_eq!(battle.monsters[1].hp, battle.monsters[1].max_hp);
    assert_eq!(battle.party_commands.len(), 4);
    assert_eq!(battle.phase, BattlePhase::CommandInput { member_cursor: 0 });
    for _ in 1..n {
        battle.next_monster(4);
    }
    assert_eq!(battle.current_index, 0);
}

#[test]
fn set_party_command_grows_the_list() {
    let mut battle = BattleState::new(vec![Monster::new("スライム", 10, "")]);
    battle.set_party_command(2, PartyCommand::Defend);
    assert_eq!(battle.party_commands, vec![None, None, Some(PartyCommand::Defend)]);
    battle.set_party_command(0, PartyCommand::Attack);
    assert_eq!(battle.party_commands, vec![Some(PartyCommand::Attack), None, Some(PartyCommand::Defend)]);
}

#[test]
fn turn_ends_at_its_last_step_only() {
    // Whatever the seed, a defeat flag only ever closes the turn.
    for seed in 0..50u64 {
        let mut battle = BattleState::new(vec![Monster::new("スライム", 6, "")]);
        let party = create_test_party();
        let mut rng = StdRng::seed_from_u64(seed);
        battle.player_action = Some(PlayerBattleAction::Attack);
        battle.party_commands = vec![None, Some(PartyCommand::Attack), Some(PartyCommand::Attack), Some(PartyCommand::Attack)];
        battle.build_turn_resolution(&party, &skilled(), &mut rng);
        let n = battle.turn_steps.len();
        for (i, s) in battle.turn_steps.iter().enumerate() {
            if s.monster_defeated || s.player_defeated || s.flee_success {
                assert_eq!(i, n - 1, "seed {seed}");
            }
        }
    }
}

#[test]
fn herb_never_revives_across_seeds() {
    for seed in 0..30u64 {
        let mut battle = BattleState::new(vec![Monster::new("スライム", 100, "")]);
        let mut party = create_test_party();
        party[1].hp = 0;
        party[3].hp = 3;
        let mut rng = StdRng::seed_from_u64(seed);
        battle.player_action = Some(PlayerBattleAction::UseItem);
        battle.party_commands = vec![None, None, Some(PartyCommand::Defend), Some(PartyCommand::Defend)];
        battle.build_turn_resolution(&party, &PlayerSkills::default(), &mut rng);
        battle.execute_all_steps(&mut party);
        assert_eq!(party[1].hp, 0, "seed {seed}");
    }
}

#[test]
fn every_turn_deals_positive_damage_and_heals_within_bounds() {
    for seed in 0..40u64 {
        let mut battle = BattleState::new(vec![Monster::new("スライム", 60, "")]);
        let mut party = create_test_party();
        party[1].hp = 0;
        party[2].hp = 3;
        let hps: Vec<i32> = party.iter().map(|m| m.hp).collect();
        let skills = PlayerSkills::default();
        let mut rng = StdRng::seed_from_u64(seed);
        battle.player_action = Some(if seed % 2 == 0 { PlayerBattleAction::UseItem } else { PlayerBattleAction::Attack });
        battle.build_turn_resolution(&party, &skills, &mut rng);
        assert!(!battle.turn_steps.is_empty());
        let last = battle.turn_steps.len() - 1;
        for (k, step) in battle.turn_steps.iter().enumerate() {
            if let Some(d) = step.monster_damage {
                assert!(d > 0);
            }
            if let Some((t, d)) = step.member_damage {
                assert!(hps[t] > 0 && d > 0);
            }
            if let Some((t, h)) = step.member_heal {
                assert!(hps[t] > 0 && (0..=20).contains(&h) && hps[t] + h <= party[t].max_hp);
            }
            if step.monster_defeated {
                assert_eq!(k, last);
            }
        }
        assert_eq!(battle.monsters[0].hp, 60);
    }
}
