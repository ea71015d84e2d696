use glyphfall_core::battle::{BattlePhase, BattleState, Monster};
use glyphfall_core::party::{Influence, MentalState, PartyMember, PartyState, Personality, PlayerInventory};
use glyphfall_core::play::view::{
    format_hp_bar_cells, format_left_window, format_monster_display, format_right_window, format_status_header,
};
use glyphfall_core::play::{AppMode, CommandMenuStage, CommandMenuState, TravelState};
use glyphfall_core::town::dialogue::{DialogueLearnStage, DialoguePartner, DialogueSession, LearnableSpan};
use glyphfall_core::town::{CommandKind, TargetKind, TownState};

fn party() -> PartyState {
    PartyState {
        members: vec![
            PartyMember::new_player("あなた").with_stats(20, 5),
            PartyMember::new("戦士ガルツ", "せんし", Influence::new_natural(82), MentalState::Normal, Personality::Loyal)
                .with_stats(35, 10),
        ],
        selected_index: 0,
        debug_mode: false,
    }
}

fn inventory() -> PlayerInventory {
    PlayerInventory {
        gold: 120,
        items: vec![],
        topics: vec!["王都アルカン".to_string(), "封魔の迷宮".to_string(), "復讐の誓い".to_string(), "古代文字".to_string(), "魔女".to_string()],
    }
}

fn header(party: &PartyState, mode: AppMode, dialogue: &Option<DialogueSession>) -> String {
    let town = TownState::new();
    format_status_header(party, mode, &town, &inventory(), dialogue, &CommandMenuState::default(), &TravelState::default())
}

#[test]
fn view_status_header_in_town() {
    let text = header(&party(), AppMode::Town, &None);
    assert_eq!(
        text,
        "▼ 注目中の仲間 [No.1/2]: あなた (一般人)  HP: 20/20  MP: 5/5\n\
         \x20 [王都アルカン・商業区] 所持金: 120G | 松明: 点灯中(半径6) | 仲間列: 主人公(青) 戦士(赤) 遊び人(黄) 魔法使い(紫)\n\
         操作: [WASD]移動 | [Z]コマンド | [L]松明切替 | [B]戦闘切替 | [Tab]仲間切替 | [Space]スキップ"
    );
}

#[test]
fn view_status_header_in_debug_mode_shows_hidden_values() {
    let mut p = party();
    p.selected_index = 1;
    p.debug_mode = true;
    let text = header(&p, AppMode::Inn, &None);
    assert!(text.starts_with("▼ 注目中の仲間 [No.2/2]: 戦士ガルツ (せんし)  HP: 35/35  MP: 10/10\n"));
    assert!(text.contains("  [DEBUG] 影響度: 82 （自然上限内） | 精神: 正常 | 性格: 忠実(Loyal) | 全視界: false\n"));
    assert!(text.ends_with("操作: [1/Enter]とまる(50G) | [3/Esc]やめる"));
}

#[test]
fn view_status_header_in_battle_lists_the_party() {
    let text = header(&party(), AppMode::Battle, &None);
    assert!(text.contains("  [戦闘交戦中] あなた:20/20 | 戦士ガルツ:35/35\n"));
}

#[test]
fn view_status_header_in_dialogue_names_the_partner() {
    let session = Some(DialogueSession::start(DialoguePartner::Guard));
    let text = header(&party(), AppMode::Dialogue, &session);
    assert!(text.contains("  [会話中: 王都衛兵] 所持金: 120G | [W/S]で話題選択"));
    let text = header(&party(), AppMode::Dialogue, &None);
    assert!(text.contains("  [会話中: 相手] 所持金: 120G"));
}

fn left(mode: AppMode, dialogue: &Option<DialogueSession>, menu: &CommandMenuState, battle: &BattleState) -> String {
    format_left_window(mode, &inventory(), dialogue, menu, TargetKind::Npc, &TravelState::default(), battle, &party())
}

fn battle() -> BattleState {
    BattleState::new(vec![Monster::new("スライム", 24, "")])
}

#[test]
fn view_left_window_command_list_marks_the_cursor() {
    let menu = CommandMenuState { stage: CommandMenuStage::ChoosingCommand, selected_index: 1 };
    assert_eq!(left(AppMode::Interact, &None, &menu, &battle()), "【コマンド】\n  みる\n▶ はなす\n  どうぐ\n  ぬすむ\n");
    let menu = CommandMenuState { stage: CommandMenuStage::ChoosingDirection(CommandKind::Steal), selected_index: 3 };
    assert_eq!(left(AppMode::Interact, &None, &menu, &battle()), "【ぬすむ】\n方向を選んで\n対象を指定\nしてください");
}

#[test]
fn view_left_window_topics_notebook_and_shop() {
    let menu = CommandMenuState::default();
    let mut session = DialogueSession::start(DialoguePartner::Tavern);
    session.selected_topic_index = 2;
    let text = left(AppMode::Dialogue, &Some(session), &menu, &battle());
    assert_eq!(text, "【話題を振る】\n  王都アルカン\n  封魔の迷宮\n▶ 復讐の誓い\n  古代文字\n");

    let text = left(AppMode::Town, &None, &menu, &battle());
    assert_eq!(text, "【手帳】金:120G\n[覚えた話題]\n・王都アルカン\n・封魔の迷宮\n・復讐の誓い\n");

    let text = left(AppMode::Shop, &None, &menu, &battle());
    assert_eq!(text, "【品物】(金:120G)\n▶やくそう  8G\n 特やくそう 25G\n 松明 15G\n どくけし草 12G\n");

    let text = left(AppMode::Inn, &None, &menu, &battle());
    assert_eq!(text, "【宿屋・宿泊】\n一泊料金: 50G\n所持金  : 120G\n全員のHP/MP全快");
}

#[test]
fn view_left_window_in_battle() {
    let menu = CommandMenuState::default();
    let mut b = battle();
    assert!(left(AppMode::Battle, &None, &menu, &b).starts_with("【あなたの行動】"));
    b.phase = BattlePhase::CommandInput { member_cursor: 1 };
    assert_eq!(left(AppMode::Battle, &None, &menu, &b), "【戦士ガルツへ指示】\n[1]たたかう\n[2]みをまもる\n[3]すてみ\n[4]じゅもん");
    b.phase = BattlePhase::CommandInput { member_cursor: 2 };
    assert_eq!(left(AppMode::Battle, &None, &menu, &b), "【指示決定】\nターン開始準備完了");
    b.phase = BattlePhase::TurnResolving { step_cursor: 0 };
    assert_eq!(left(AppMode::Battle, &None, &menu, &b), "【ターン進行中】\n進捗: 1/1\n\n[Space]で次へ");
}

#[test]
fn view_right_window_marks_learnable_words() {
    let menu = CommandMenuState::default();
    let mut session = DialogueSession::start(DialoguePartner::Villager);
    assert_eq!(format_right_window(AppMode::Dialogue, &Some(session.clone()), &menu, &battle()), "[1]たずねる\n[2]おぼえる\n[3]はなれる\n(W/S:選択)");
    session.learnable_spans = vec![LearnableSpan { start: 0, end: 2 }];
    assert_eq!(format_right_window(AppMode::Dialogue, &Some(session.clone()), &menu, &battle()), "[1]たずねる\n[2]おぼえる★\n[3]はなれる\n(W/S:選択)");
    session.learn_stage = DialogueLearnStage::ChoosingLearnTarget { cursor: 0 };
    assert_eq!(format_right_window(AppMode::Dialogue, &Some(session), &menu, &battle()), "[1]決定\n[3]やめる\n\n(W/S:候補選択)");
    let mut b = battle();
    b.phase = BattlePhase::Defeat;
    assert_eq!(format_right_window(AppMode::Battle, &None, &menu, &b), "[B]街へ帰還\n\n(敗北)");
}

#[test]
fn view_hp_bar_and_monster_panel() {
    assert_eq!(format_hp_bar_cells(3, 5), "[███  ]");
    assert_eq!(format_hp_bar_cells(0, 2), "[  ]");
    let mut m = Monster::new("スライム", 24, "\n\n (o_o)\n\n");
    m.hp = 7;
    assert_eq!(
        format_monster_display(&m, 4),
        " (o_o)\n           【 スライム 】  HP:  7/24  [████          ]\n"
    );
}
