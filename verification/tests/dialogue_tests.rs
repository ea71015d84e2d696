use glyphfall_core::party::{Influence, MentalState, PartyMember, Personality, PlayerInventory};
use glyphfall_core::town::dialogue::{shop_item, shop_items, spans_for};
use glyphfall_core::town::{DialogueLearnStage, DialoguePartner, DialogueSession, INN_COST, SHOP_ITEM_COUNT};

fn create_dummy_member(name: &str, hp: i32, max_hp: i32, mp: i32, max_mp: i32) -> PartyMember {
    let mut member = PartyMember::new(name, "戦士", Influence::new_natural(30), MentalState::Normal, Personality::Loyal);
    member.hp = hp;
    member.max_hp = max_hp;
    member.mp = mp;
    member.max_mp = max_mp;
    member
}

fn learned_words(session: &DialogueSession) -> Vec<String> {
    session.learnable_spans.iter().map(|span| span.slice(&session.current_text)).collect()
}

#[test]
fn test_dialogue_partner_name() {
    assert_eq!(DialoguePartner::Inn.name(), "宿屋の主人");
    assert_eq!(DialoguePartner::Shop.name(), "道具屋の店主");
    assert_eq!(DialoguePartner::Guard.name(), "王都衛兵");
    assert_eq!(DialoguePartner::Tavern.name(), "呑兵衛の冒険者");
}

#[test]
fn test_inn_rest() {
    let mut session = DialogueSession::start(DialoguePartner::Inn);
    let mut inv = PlayerInventory { gold: 60, ..Default::default() };
    let mut members = vec![create_dummy_member("ガルツ", 10, 50, 0, 10), create_dummy_member("ミレイ", 5, 25, 2, 40)];

    let success = session.rest_at_inn(&mut inv, &mut members);
    assert!(success);
    assert_eq!(inv.gold, 60 - INN_COST);
    assert_eq!(members[0].hp, 50);
    assert_eq!(members[0].mp, 10);
    assert_eq!(members[1].hp, 25);
    assert_eq!(members[1].mp, 40);

    let success2 = session.rest_at_inn(&mut inv, &mut members);
    assert!(!success2);
    assert_eq!(inv.gold, 60 - INN_COST);
}

#[test]
fn test_shop_purchase() {
    let mut session = DialogueSession::start(DialoguePartner::Shop);
    let mut inv = PlayerInventory { gold: 20, ..Default::default() };
    session.selected_shop_index = 0;

    let success = session.buy_item(&mut inv);
    assert!(success);
    assert_eq!(inv.gold, 12);
    assert!(inv.items.contains(&"やくそう".to_string()));

    session.selected_shop_index = 1;
    let success2 = session.buy_item(&mut inv);
    assert!(!success2);
    assert_eq!(inv.gold, 12);
}

#[test]
fn test_dialogue_topic_chain() {
    let mut session = DialogueSession::start(DialoguePartner::Guard);
    session.ask_topic("封魔の迷宮");
    assert_eq!(learned_words(&session), vec!["封印の祭壇".to_string()]);
    session.ask_topic("封印の祭壇");
    assert_eq!(learned_words(&session), vec!["光のオーブ".to_string()]);
    session.ask_topic("ピザのレシピ");
    assert!(session.learnable_spans.is_empty());
}

#[test]
fn test_dialogue_multiple_learnable_spans() {
    let mut session = DialogueSession::start(DialoguePartner::Suspicious);
    session.ask_topic("光のオーブ");
    assert_eq!(learned_words(&session), vec!["地下迷宮".to_string(), "銀の鍵".to_string()]);
}

#[test]
fn test_ask_topic_cancels_pending_learn_selection() {
    let mut session = DialogueSession::start(DialoguePartner::Suspicious);
    session.ask_topic("光のオーブ");
    session.learn_stage = DialogueLearnStage::ChoosingLearnTarget { cursor: 1 };
    session.ask_topic("銀の鍵");
    assert_eq!(session.learn_stage, DialogueLearnStage::Talking);
}

#[test]
fn test_spans_for_multiple_occurrences_and_ordering() {
    let text = "王都の銀の鍵と、地下迷宮の銀の鍵。どちらも鍵だ。";
    let spans = spans_for(text, &["地下迷宮", "銀の鍵"]);
    assert_eq!(spans.len(), 3);
    assert_eq!(spans[0].slice(text), "銀の鍵");
    assert_eq!(spans[0].start, 3);
    assert_eq!(spans[1].slice(text), "地下迷宮");
    assert_eq!(spans[2].slice(text), "銀の鍵");
    assert!(spans[0].start < spans[1].start);
    assert!(spans[1].start < spans[2].start);
}

#[test]
fn spans_for_exact_positions() {
    let text = "王都の銀の鍵と、地下迷宮の銀の鍵。";
    let spans = spans_for(text, &["銀の鍵", "地下迷宮"]);
    let ranges: Vec<(usize, usize)> = spans.iter().map(|s| (s.start, s.end)).collect();
    assert_eq!(ranges, vec![(3, 6), (8, 12), (13, 16)]);
    assert!(spans_for(text, &["ない言葉"]).is_empty());
}

#[test]
fn shop_lists_four_articles() {
    let items = shop_items();
    assert_eq!(items.len(), SHOP_ITEM_COUNT);
    let named: Vec<(&str, i32)> = items.iter().map(|i| (i.name, i.price)).collect();
    assert_eq!(named, vec![("やくそう", 8), ("特やくそう", 25), ("松明", 15), ("どくけし草", 12)]);
    assert_eq!(shop_item(3).price, 12);
}

#[test]
fn inn_rest_with_exact_price_empties_purse() {
    let mut session = DialogueSession::start(DialoguePartner::Inn);
    let mut inv = PlayerInventory { gold: INN_COST, ..Default::default() };
    let mut members = vec![create_dummy_member("ガルツ", 1, 50, 0, 10)];
    assert!(session.rest_at_inn(&mut inv, &mut members));
    assert_eq!(inv.gold, 0);
    assert_eq!(members[0].hp, 50);
}

#[test]
fn dialogue_starts_talking_with_no_spans() {
    let session = DialogueSession::start(DialoguePartner::Villager);
    assert_eq!(session.learn_stage, DialogueLearnStage::Talking);
    assert!(session.learnable_spans.is_empty());
    assert_eq!(session.selected_topic_index, 0);
    assert_eq!(session.selected_shop_index, 0);
}

#[test]
fn shop_and_inn_keep_the_session_selection_and_marks() {
    let mut shop = DialogueSession::start(DialoguePartner::Shop);
    shop.ask_topic("封魔の迷宮");
    let spans_before = shop.learnable_spans.clone();
    shop.selected_topic_index = 2;
    shop.selected_shop_index = 1;
    let mut inv = PlayerInventory { gold: 500, ..Default::default() };
    assert!(shop.buy_item(&mut inv));
    assert_eq!(shop.selected_topic_index, 2);
    assert_eq!(shop.selected_shop_index, 1);
    assert_eq!(shop.learnable_spans, spans_before);
    assert_eq!(shop.partner, DialoguePartner::Shop);

    let mut inn = DialogueSession::start(DialoguePartner::Inn);
    inn.selected_topic_index = 3;
    inn.selected_shop_index = 2;
    let mut members = vec![create_dummy_member("ガルツ", 10, 50, 0, 10)];
    assert!(inn.rest_at_inn(&mut inv, &mut members));
    assert_eq!(inn.selected_topic_index, 3);
    assert_eq!(inn.selected_shop_index, 2);
    assert!(inn.learnable_spans.is_empty());
}

#[test]
fn asking_the_same_topic_twice_gives_the_same_reply_and_marks() {
    let mut first = DialogueSession::start(DialoguePartner::Guard);
    first.ask_topic("封魔の迷宮");
    let mut second = DialogueSession::start(DialoguePartner::Guard);
    second.ask_topic("王都アルカン");
    second.learn_stage = DialogueLearnStage::ChoosingLearnTarget { cursor: 0 };
    second.ask_topic("封魔の迷宮");
    assert_eq!(first.current_text, second.current_text);
    assert_eq!(first.learnable_spans, second.learnable_spans);
    assert_eq!(learned_words(&first), vec!["封印の祭壇".to_string()]);
}
