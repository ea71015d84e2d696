use glyphfall_core::flow::{in_name_entry_screen, in_selection_screen};
use glyphfall_core::flow::{
    advance_selection, append_name_text, get_item_count, get_selection_display_data, name_entry_confirm,
    selection_input, selection_pointer, setup_generating_screen, tick_generating, title_input, trimmed, AppScreen,
    FlowKey, NameEntryState, NameKey, NewGameConfig, SelectionPointer, SelectionState, DEFAULT_CHARACTER_NAME,
    DEFAULT_WORLD_NAME, MAX_NAME_LEN,
};
use glyphfall_core::party::{MotiveKind, OriginKind, PartyState, PlayerInventory, PlayerResource, PlayerSkills};
use glyphfall_core::party::ReserveRoster;

#[test]
fn test_character_input_sanitization_and_limit() {
    let mut buffer = String::new();
    let input = "Hello\r\n\tWorld! 1234567890 extra characters";
    append_name_text(&mut buffer, input);
    assert_eq!(buffer.chars().count(), MAX_NAME_LEN);
    assert!(!buffer.contains('\r'));
    assert!(!buffer.contains('\n'));
    assert!(!buffer.contains('\t'));
    assert_eq!(buffer, "HelloWorld! 12345678");
}

/// World creation with an empty name buffer, as the naming screen starts.
fn world_creation() -> (AppScreen, NameEntryState, NewGameConfig) {
    (AppScreen::WorldCreation, NameEntryState::default(), NewGameConfig::default())
}

#[test]
fn test_name_entry_confirm_world_creation_default() {
    let (screen, name, mut config) = world_creation();
    let next = name_entry_confirm(screen, Some(FlowKey::Enter), false, &name.buffer, &mut config);
    assert_eq!(next, Some(AppScreen::CharacterCreation));
    assert_eq!(config.world_name, DEFAULT_WORLD_NAME);
}

#[test]
fn test_name_entry_confirm_custom_name_trimmed() {
    let (screen, mut name, mut config) = world_creation();
    name.buffer = "  Eldoria  ".to_string();
    name_entry_confirm(screen, Some(FlowKey::Enter), false, &name.buffer, &mut config);
    assert_eq!(config.world_name, "Eldoria");
}

#[test]
fn test_button_pressed_without_mouse_just_pressed_ignored() {
    // The button is held down, but no click went down in this frame.
    let (screen, name, mut config) = world_creation();
    let next = name_entry_confirm(screen, None, false, &name.buffer, &mut config);
    assert_eq!(next, None);
    assert_eq!(config.world_name, "");
}

#[test]
fn test_button_pressed_with_mouse_just_pressed_confirms() {
    let (screen, name, mut config) = world_creation();
    let next = name_entry_confirm(screen, None, true, &name.buffer, &mut config);
    assert_eq!(next, Some(AppScreen::CharacterCreation));
    assert_eq!(config.world_name, DEFAULT_WORLD_NAME);
}

#[test]
fn test_title_screen_transitions_to_world_creation_on_enter() {
    let screen = AppScreen::default();
    assert_eq!(screen, AppScreen::Title);
    assert_eq!(title_input(Some(FlowKey::Enter), false), Some(AppScreen::WorldCreation));
}

#[test]
fn test_title_screen_transitions_to_world_creation_on_space() {
    assert_eq!(title_input(Some(FlowKey::Space), false), Some(AppScreen::WorldCreation));
}

#[test]
fn test_title_screen_transitions_on_button_click() {
    assert_eq!(title_input(None, true), Some(AppScreen::WorldCreation));
}

#[test]
fn test_title_screen_button_without_mouse_just_pressed_ignored() {
    assert_eq!(title_input(None, false), None);
}

#[test]
fn test_character_creation_transitions_to_origin_selection() {
    let mut config = NewGameConfig::default();
    let name = NameEntryState::default();
    let next = name_entry_confirm(AppScreen::CharacterCreation, Some(FlowKey::Enter), false, &name.buffer, &mut config);
    assert_eq!(next, Some(AppScreen::OriginSelection));
    assert_eq!(config.character_name, DEFAULT_CHARACTER_NAME);
}

#[test]
fn test_origin_selection_keyboard_navigation_and_confirm() {
    let mut config = NewGameConfig::default();
    let mut selection = SelectionState::default();
    assert_eq!(selection.cursor, 0);

    let next = selection_input(AppScreen::OriginSelection, FlowKey::ArrowDown, &mut config, &mut selection);
    assert_eq!(next, None);
    assert_eq!(selection.cursor, 1);

    let next = selection_input(AppScreen::OriginSelection, FlowKey::Enter, &mut config, &mut selection);
    assert_eq!(next, Some(AppScreen::MotiveSelection));
    assert_eq!(config.build.origin, OriginKind::FormerMercenary);
}

#[test]
fn test_motive_selection_aspiring_adventurer_transitions_to_generating() {
    let mut config = NewGameConfig::default();
    let mut selection = SelectionState::default();
    let next = selection_input(AppScreen::MotiveSelection, FlowKey::Enter, &mut config, &mut selection);
    assert_eq!(next, Some(AppScreen::Generating));
    assert_eq!(config.build.motive, MotiveKind::AspiringAdventurer);
    assert!(config.build.partner.is_none());
}

#[test]
fn test_motive_selection_eloper_transitions_to_partner_selection() {
    let mut config = NewGameConfig::default();
    let mut selection = SelectionState::default();
    selection_input(AppScreen::MotiveSelection, FlowKey::Digit(2), &mut config, &mut selection);
    assert_eq!(selection.cursor, 1);

    let next = selection_input(AppScreen::MotiveSelection, FlowKey::Enter, &mut config, &mut selection);
    assert_eq!(next, Some(AppScreen::PartnerSelection));
    assert_eq!(config.build.motive, MotiveKind::Eloper);
}

#[test]
fn test_partner_selection_confirm_transitions_to_generating() {
    let mut config = NewGameConfig::default();
    let mut selection = SelectionState::default();
    selection_input(AppScreen::PartnerSelection, FlowKey::KeyS, &mut config, &mut selection);
    assert_eq!(selection.cursor, 1);

    let next = selection_input(AppScreen::PartnerSelection, FlowKey::Enter, &mut config, &mut selection);
    assert_eq!(next, Some(AppScreen::Generating));
    assert!(config.build.partner.is_some());
    assert_eq!(config.build.partner.as_ref().unwrap().name, "クラリス");
}

#[test]
fn flow_name_keys_type_space_and_delete() {
    let mut name = NameEntryState::default();
    name.apply(&NameKey::Text("Ab".to_string()));
    name.apply(&NameKey::Space);
    name.apply(&NameKey::Text("c\u{7f}d".to_string()));
    assert_eq!(name.buffer, "Ab cd");
    name.apply(&NameKey::Backspace);
    assert_eq!(name.buffer, "Ab c");
    name.apply(&NameKey::Backspace);
    name.apply(&NameKey::Backspace);
    name.apply(&NameKey::Backspace);
    name.apply(&NameKey::Backspace);
    assert_eq!(name.buffer, "");
    name.apply(&NameKey::Backspace);
    assert_eq!(name.buffer, "");
}

#[test]
fn flow_name_is_capped_at_the_limit() {
    let mut name = NameEntryState::default();
    name.apply(&NameKey::Text("あいうえおかきくけこさしすせそたちつてと".to_string()));
    assert_eq!(name.buffer.chars().count(), MAX_NAME_LEN);
    name.apply(&NameKey::Space);
    name.apply(&NameKey::Text("x".to_string()));
    assert_eq!(name.buffer, "あいうえおかきくけこさしすせそたちつてと");
}

#[test]
fn flow_trim_removes_unicode_white_space_only_at_the_ends() {
    assert_eq!(trimmed("\u{3000} a b \t\n"), "a b");
    assert_eq!(trimmed("   "), "");
    assert_eq!(trimmed("x"), "x");
}

#[test]
fn flow_white_space_name_falls_back_to_the_default() {
    let mut config = NewGameConfig::default();
    let next = name_entry_confirm(AppScreen::CharacterCreation, Some(FlowKey::NumpadEnter), false, " \u{3000} ", &mut config);
    assert_eq!(next, Some(AppScreen::OriginSelection));
    assert_eq!(config.character_name, "あなた");
}

#[test]
fn flow_other_keys_and_screens_confirm_nothing() {
    let mut config = NewGameConfig::default();
    assert_eq!(name_entry_confirm(AppScreen::WorldCreation, Some(FlowKey::Space), false, "A", &mut config), None);
    assert_eq!(name_entry_confirm(AppScreen::Title, Some(FlowKey::Enter), false, "A", &mut config), None);
    assert_eq!(config.world_name, "");
    assert_eq!(title_input(Some(FlowKey::ArrowUp), false), None);
}

#[test]
fn flow_cursor_wraps_and_up_undoes_down() {
    let mut config = NewGameConfig::default();
    let mut selection = SelectionState::default();
    selection_input(AppScreen::OriginSelection, FlowKey::ArrowUp, &mut config, &mut selection);
    assert_eq!(selection.cursor, 3);
    selection_input(AppScreen::OriginSelection, FlowKey::KeyS, &mut config, &mut selection);
    assert_eq!(selection.cursor, 0);
    selection_input(AppScreen::OriginSelection, FlowKey::Numpad(4), &mut config, &mut selection);
    assert_eq!(selection.cursor, 3);
    // Only four origins: the fifth number key is ignored.
    selection_input(AppScreen::OriginSelection, FlowKey::Digit(5), &mut config, &mut selection);
    assert_eq!(selection.cursor, 3);
    assert_eq!(get_item_count(AppScreen::Title), 0);
    assert_eq!(selection_input(AppScreen::Title, FlowKey::Enter, &mut config, &mut selection), None);
}

#[test]
fn flow_cursor_past_the_end_picks_the_last_entry() {
    let mut config = NewGameConfig::default();
    assert_eq!(advance_selection(AppScreen::MotiveSelection, 99, &mut config), Some(AppScreen::Generating));
    assert_eq!(config.build.motive, MotiveKind::Fugitive);
    assert_eq!(advance_selection(AppScreen::PartnerSelection, 99, &mut config), Some(AppScreen::Generating));
    assert_eq!(config.build.partner.as_ref().unwrap().name, "コレット");
}

#[test]
fn flow_pointer_hover_and_click() {
    let mut config = NewGameConfig::default();
    let mut selection = SelectionState::default();
    assert_eq!(selection_pointer(AppScreen::OriginSelection, SelectionPointer::Hover(2), &mut config, &mut selection), None);
    assert_eq!(selection.cursor, 2);
    assert_eq!(config.build.origin, OriginKind::FarmerThirdSon);
    assert_eq!(
        selection_pointer(AppScreen::OriginSelection, SelectionPointer::Confirm, &mut config, &mut selection),
        Some(AppScreen::MotiveSelection)
    );
    assert_eq!(config.build.origin, OriginKind::FormerAcolyte);
    assert_eq!(
        selection_pointer(AppScreen::MotiveSelection, SelectionPointer::Click(1), &mut config, &mut selection),
        Some(AppScreen::PartnerSelection)
    );
    assert_eq!(selection.cursor, 1);
    assert_eq!(config.build.motive, MotiveKind::Eloper);
}

#[test]
fn flow_selection_texts() {
    let origin = get_selection_display_data(AppScreen::OriginSelection, 1);
    assert_eq!(origin.items.len(), 4);
    assert_eq!(origin.items[0], "商人の息子 [経済系]");
    assert_eq!(origin.detail_title, "【 傭兵崩れ 】- 武力系");
    assert_eq!(origin.detail_bonus, "初期資金: 80G / HP: 32 / MP: 0 / やくそう・松明");

    let motive = get_selection_display_data(AppScreen::MotiveSelection, 0);
    assert_eq!(motive.items.len(), 5);
    assert_eq!(motive.detail_title, "【 冒険者志望 】");

    let partner = get_selection_display_data(AppScreen::PartnerSelection, 1);
    assert_eq!(partner.items[2], "コレット（町娘）");
    assert_eq!(partner.detail_title, "【 クラリス 】 職業: 元修道女 / 性格: ヤンデレ");
    assert_eq!(partner.detail_bonus, "HP: 18 / MP: 16 / 初期影響度: 88（自然上限寸前）");

    let none = get_selection_display_data(AppScreen::Playing, 0);
    assert!(none.items.is_empty());
    assert_eq!(none.detail_title, "");
}

#[test]
fn flow_generating_sets_up_the_new_game() {
    let mut config = NewGameConfig::default();
    config.world_name = "Eldoria".to_string();
    config.character_name = "Rin".to_string();
    advance_selection(AppScreen::OriginSelection, 0, &mut config);
    advance_selection(AppScreen::MotiveSelection, 1, &mut config);
    advance_selection(AppScreen::PartnerSelection, 0, &mut config);

    let mut party = PartyState { members: Vec::new(), selected_index: 3, debug_mode: false };
    let mut player = PlayerResource { skills: PlayerSkills { magic_knowledge: 0, keen_eye: 0 } };
    let mut inventory = PlayerInventory::default();
    let mut roster = ReserveRoster::default();
    let (town, mut timer, banner) =
        setup_generating_screen(&config, &mut party, &mut player, &mut inventory, &mut roster);

    assert_eq!(banner, "『Eldoria』を生成しています…");
    assert_eq!(party.selected_index, 0);
    assert_eq!(party.members.len(), 2);
    assert_eq!(party.members[0].name, "Rin");
    assert_eq!(party.members[1].name, "エレナ");
    assert_eq!(player.skills.magic_knowledge, 20);
    assert_eq!(inventory.gold, 350);
    assert_eq!(roster.members.len(), 4);
    assert!(town.torch_active);

    assert_eq!(tick_generating(&mut timer, 500_000_000), None);
    assert_eq!(tick_generating(&mut timer, 300_000_000), Some(AppScreen::Playing));
    assert_eq!(tick_generating(&mut timer, 300_000_000), None);
}

#[test]
fn flow_screen_groups() {
    assert!(in_name_entry_screen(AppScreen::WorldCreation));
    assert!(in_name_entry_screen(AppScreen::CharacterCreation));
    assert!(!in_name_entry_screen(AppScreen::Title));
    assert!(in_selection_screen(AppScreen::PartnerSelection));
    assert!(!in_selection_screen(AppScreen::Generating));
}
