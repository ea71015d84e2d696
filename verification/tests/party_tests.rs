use glyphfall_core::party::action::{command_outcome, obedience_chance};
use glyphfall_core::party::diagnosis::diagnose_with_rolls;
use glyphfall_core::party::{
    diagnose_member, evaluate_command, ActionOutcome, CharacterBuild, EloperPartnerCandidate, Influence,
    MentalState, MotiveKind, OriginKind, PartyCommand, PartyMember, Personality, PlayerInventory, PlayerSkills,
    MAX_NATURAL_INFLUENCE,
};
use rand::rngs::StdRng;
use rand::SeedableRng;

#[test]
fn test_gold_spending() {
    let mut inv = PlayerInventory::default();
    assert_eq!(inv.gold, 100);
    assert!(inv.spend_gold(50));
    assert_eq!(inv.gold, 50);
    assert!(!inv.spend_gold(60));
    assert_eq!(inv.gold, 50);
    inv.add_gold(100);
    assert_eq!(inv.gold, 150);
}

#[test]
fn test_topic_learning() {
    let mut inv = PlayerInventory::default();
    assert!(inv.has_topic("王都アルカン"));
    assert!(!inv.has_topic("封印の祭壇"));
    assert!(inv.learn_topic("封印の祭壇"));
    assert!(inv.has_topic("封印の祭壇"));
    assert!(!inv.learn_topic("封印の祭壇"));
}

#[test]
fn test_item_management() {
    let mut inv = PlayerInventory::default();
    assert!(inv.has_item("やくそう"));
    assert!(!inv.has_item("どくけしそう"));
    assert!(inv.remove_item("やくそう"));
    assert!(!inv.has_item("やくそう"));
    assert!(!inv.remove_item("やくそう"));
    inv.add_item("どくけしそう");
    assert!(inv.has_item("どくけしそう"));
}

#[test]
fn default_inventory_contents() {
    let inv = PlayerInventory::default();
    assert_eq!(inv.items, vec!["やくそう".to_string(), "松明".to_string()]);
    assert_eq!(inv.topics, vec!["王都アルカン".to_string(), "封魔の迷宮".to_string()]);
}

#[test]
fn remove_item_takes_only_the_first_copy() {
    let mut inv = PlayerInventory { gold: 0, items: vec!["a".into(), "b".into(), "a".into()], topics: vec![] };
    assert!(inv.remove_item("a"));
    assert_eq!(inv.items, vec!["b".to_string(), "a".to_string()]);
}

#[test]
fn test_origin_merchant_son() {
    let build = CharacterBuild::new(OriginKind::MerchantSon, MotiveKind::AspiringAdventurer);
    let (hp, mp) = build.calculate_player_stats();
    assert_eq!(hp, 20);
    assert_eq!(mp, 5);
    let inv = build.create_inventory();
    assert_eq!(inv.gold, 350);
    assert!(inv.has_item("特やくそう"));
    assert!(inv.has_item("松明"));
    let skills = build.calculate_player_skills();
    assert_eq!(skills.magic_knowledge, 20);
    assert_eq!(skills.keen_eye, 40);
    let members = build.create_party_members("アルト");
    assert_eq!(members.len(), 1);
    assert_eq!(members[0].name, "アルト");
}

#[test]
fn test_motive_eloper_party_and_influence() {
    let mut build = CharacterBuild::new(OriginKind::FarmerThirdSon, MotiveKind::Eloper);
    let candidate = EloperPartnerCandidate::default_candidates().remove(0);
    build.partner = Some(candidate);
    let members = build.create_party_members("主人公");
    assert_eq!(members.len(), 2);
    assert_eq!(members[0].name, "主人公");
    assert_eq!(members[1].name, "エレナ");
    assert_eq!(members[1].job, "村娘");
    assert_eq!(members[1].influence.raw_value, 88);
    assert_eq!(members[1].personality, Personality::Loyal);
    let inv = build.create_inventory();
    assert!(inv.has_topic("駆け落ちの道行"));
}

#[test]
fn test_motive_seeker_topic() {
    let build = CharacterBuild::new(OriginKind::FormerAcolyte, MotiveKind::Seeker);
    let inv = build.create_inventory();
    assert!(inv.has_topic("人を探している"));
    assert_eq!(build.create_party_members("探索者").len(), 1);
}

#[test]
fn test_motive_avenger_hp_bonus() {
    let build = CharacterBuild::new(OriginKind::FormerMercenary, MotiveKind::Avenger);
    let (hp, _) = build.calculate_player_stats();
    assert_eq!(hp, 36);
    let inv = build.create_inventory();
    assert!(inv.has_topic("復讐の誓い"));
}

#[test]
fn test_motive_fugitive_gold_bonus() {
    let build = CharacterBuild::new(OriginKind::FarmerThirdSon, MotiveKind::Fugitive);
    let inv = build.create_inventory();
    assert_eq!(inv.gold, 140);
    assert!(inv.has_topic("追手からの逃亡"));
}

#[test]
fn eloper_build_takes_the_first_candidate() {
    let build = CharacterBuild::new(OriginKind::MerchantSon, MotiveKind::Eloper);
    assert_eq!(build.partner.as_ref().map(|p| p.name.clone()), Some("エレナ".to_string()));
    let other = CharacterBuild::new(OriginKind::MerchantSon, MotiveKind::Seeker);
    assert!(other.partner.is_none());
}

#[test]
fn reserve_roster_has_four_companions() {
    let roster = CharacterBuild::default().create_reserve_roster();
    let names: Vec<String> = roster.members.iter().map(|m| m.name.clone()).collect();
    assert_eq!(names, vec!["戦士ガルツ", "遊び人ロロ", "魔法使いミレイ", "騎士アルヴィン"]);
    assert!(roster.members[3].influence.is_abnormal());
}

#[test]
fn test_influence_natural_cap() {
    let mut inf = Influence::new_natural(50);
    assert_eq!(inf.raw_value, 50);
    assert!(!inf.is_abnormal());
    inf.add_natural(30);
    assert_eq!(inf.raw_value, 80);
    inf.add_natural(30);
    assert_eq!(inf.raw_value, MAX_NATURAL_INFLUENCE);
    assert_eq!(inf.raw_value, 89);
    assert!(!inf.is_abnormal());
    let capped = Influence::new_natural(95);
    assert_eq!(capped.raw_value, 89);
}

#[test]
fn test_influence_supernatural() {
    let abnormal = Influence::new_supernatural(120);
    assert_eq!(abnormal.raw_value, 120);
    assert!(abnormal.is_abnormal());
}

#[test]
fn natural_influence_never_reaches_the_abnormal_threshold() {
    for start in [0u8, 50, 89, 200] {
        let mut inf = Influence::new_natural(start);
        for step in [0u8, 1, 30, 255] {
            inf.add_natural(step);
            assert!(inf.raw_value <= 89);
            assert!(!inf.is_abnormal());
        }
    }
}

#[test]
fn natural_raise_leaves_supernatural_influence_alone() {
    let mut inf = Influence::new_supernatural(120);
    inf.add_natural(0);
    assert_eq!(inf.raw_value, 120);
    inf.add_natural(5);
    assert_eq!(inf.raw_value, 120);
    assert!(inf.is_abnormal());
    let mut edge = Influence::new_supernatural(90);
    edge.add_natural(200);
    assert_eq!(edge.raw_value, 90);
}

#[test]
fn test_command_obedience_and_disobedience() {
    let loyal_warrior =
        PartyMember::new("戦士ガルツ", "せんし", Influence::new_natural(80), MentalState::Normal, Personality::Loyal);
    let slacker =
        PartyMember::new("遊び人ロロ", "あそびにん", Influence::new_natural(50), MentalState::Normal, Personality::Slacker);
    let mut rng = StdRng::seed_from_u64(42);

    let loyal_outcomes: Vec<_> = (0..20).map(|_| evaluate_command(&loyal_warrior, PartyCommand::Attack, &mut rng)).collect();
    assert!(loyal_outcomes.iter().any(|o| matches!(o, ActionOutcome::Obeyed { .. })));

    let slacker_outcomes: Vec<_> = (0..20).map(|_| evaluate_command(&slacker, PartyCommand::Attack, &mut rng)).collect();
    assert!(slacker_outcomes.iter().any(|o| matches!(o, ActionOutcome::Disobeyed { .. })));
}

#[test]
fn obedience_chance_stays_between_five_and_ninety_five() {
    let personalities = [Personality::Loyal, Personality::Slacker, Personality::Coward, Personality::Yandere];
    let commands = [PartyCommand::Attack, PartyCommand::Defend, PartyCommand::DesperateAttack, PartyCommand::CastSpell];
    for p in personalities {
        for inf in [0u8, 40, 89] {
            let m = PartyMember::new("x", "y", Influence::new_natural(inf), MentalState::Normal, p);
            for c in commands {
                let chance = obedience_chance(&m, c);
                assert!((5..=95).contains(&chance));
            }
        }
    }
}

#[test]
fn player_always_obeys() {
    let player = PartyMember::new_player("あなた");
    for roll in [1, 50, 100] {
        let o = command_outcome(&player, PartyCommand::DesperateAttack, roll, 1);
        assert!(matches!(o, ActionOutcome::Obeyed { .. }));
    }
}

#[test]
fn test_diagnose_charmed_vs_yandere() {
    let expert_skills = PlayerSkills { magic_knowledge: 100, keen_eye: 100 };
    let amateur_skills = PlayerSkills { magic_knowledge: 0, keen_eye: 100 };
    let charmed_knight =
        PartyMember::new("騎士アルヴィン", "きし", Influence::new_supernatural(110), MentalState::Charmed, Personality::Loyal);
    let yandere_mage =
        PartyMember::new("魔法使いミレイ", "まほうつかい", Influence::new_natural(85), MentalState::Normal, Personality::Yandere);
    let mut rng = StdRng::seed_from_u64(999);

    let report_charmed = diagnose_member(&expert_skills, &charmed_knight, &mut rng);
    assert!(report_charmed.success);
    assert!(report_charmed.conclusion_msg.contains("魅了呪文に操られている"));

    let report_yandere = diagnose_member(&expert_skills, &yandere_mage, &mut rng);
    assert!(report_yandere.success);
    assert!(report_yandere.conclusion_msg.contains("素の執着"));

    let report_confused = diagnose_member(&amateur_skills, &yandere_mage, &mut rng);
    assert!(!report_confused.success);
    assert!(report_confused.conclusion_msg.contains("混乱"));
}

#[test]
fn diagnosis_with_fixed_rolls() {
    let skills = PlayerSkills { magic_knowledge: 50, keen_eye: 50 };
    let knight =
        PartyMember::new("騎士アルヴィン", "きし", Influence::new_supernatural(110), MentalState::Charmed, Personality::Loyal);
    // Both rolls within the skills: the charm is seen through.
    let seen = diagnose_with_rolls(&skills, &knight, 10, 10);
    assert!(seen.success);
    // The magic roll fails: the charm is missed.
    let missed = diagnose_with_rolls(&skills, &knight, 10, 90);
    assert!(!missed.success);
}

#[test]
fn default_skills_and_origin_skills() {
    let d = PlayerSkills::default();
    assert_eq!((d.magic_knowledge, d.keen_eye), (45, 55));
    let s = CharacterBuild::new(OriginKind::FormerAcolyte, MotiveKind::Seeker).calculate_player_skills();
    assert_eq!((s.magic_knowledge, s.keen_eye), (65, 60));
}

#[test]
fn origin_summary_opens_with_its_numbers() {
    for o in OriginKind::ALL {
        let (hp, mp) = o.base_stats();
        let head = format!("初期資金: {}G / HP: {} / MP: {} /", o.base_gold(), hp, mp);
        assert!(o.bonus_summary().starts_with(&head), "{}", o.bonus_summary());
    }
}

#[test]
fn motive_summary_names_topic_and_partner() {
    for m in MotiveKind::ALL {
        if let Some(t) = m.fixed_topic() {
            assert!(m.bonus_summary().contains(&format!("「{}」", t)));
        }
        assert_eq!(m.bonus_summary().contains("相棒1名"), m == MotiveKind::Eloper);
    }
}
