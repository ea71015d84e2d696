use glyphfall_core::party::{Influence, MentalState, PartyMember, Personality};
use glyphfall_core::text::str_contains;
use glyphfall_core::town::sprite::{get_member_sprite, MemberSprite};

fn member(name: &str, job: &str) -> PartyMember {
    PartyMember::new(name, job, Influence::new_natural(50), MentalState::Normal, Personality::Loyal)
}

#[test]
fn sprite_follows_the_job_first() {
    assert_eq!(get_member_sprite(&member("誰か", "せんし")), MemberSprite::Warrior);
    assert_eq!(get_member_sprite(&member("誰か", "遊び人")), MemberSprite::Slacker);
    assert_eq!(get_member_sprite(&member("ロロ", "まほうつかい")), MemberSprite::Mage);
    assert_eq!(get_member_sprite(&member("誰か", "騎士")), MemberSprite::Knight);
}

#[test]
fn sprite_falls_back_to_known_names() {
    assert_eq!(get_member_sprite(&member("騎士アルヴィン", "旅人")), MemberSprite::Knight);
    assert_eq!(get_member_sprite(&member("遊び人ロロ", "旅人")), MemberSprite::Slacker);
    assert_eq!(get_member_sprite(&member("エレナ", "村娘")), MemberSprite::Player);
    assert_eq!(get_member_sprite(&PartyMember::new_player("ガルツ")), MemberSprite::Player);
}

#[test]
fn text_contains_finds_runs_of_characters() {
    assert!(str_contains("戦士ガルツ", "ガルツ"));
    assert!(str_contains("abc", ""));
    assert!(!str_contains("ab", "abc"));
    assert!(!str_contains("aXbc", "abc"));
    assert!(str_contains("aababc", "abc"));
}
