//! Which figure stands for a party member on the map.

use crate::party::PartyMember;
use crate::text::{contains_seq, str_contains, str_eq};
use vstd::prelude::*;

verus! {

/// The figures a party member can be drawn as.
#[derive(Clone, Copy, Debug, PartialEq, Eq, Structural)]
pub enum MemberSprite {
    Player,
    Warrior,
    Slacker,
    Mage,
    Knight,
}

/// The figure of a job, if the job has one of its own.
pub open spec fn job_sprite(job: Seq<char>) -> Option<MemberSprite> {
    if job == "せんし"@ || job == "戦士"@ {
        Some(MemberSprite::Warrior)
    } else if job == "あそびにん"@ || job == "遊び人"@ {
        Some(MemberSprite::Slacker)
    } else if job == "まほうつかい"@ || job == "魔法使い"@ {
        Some(MemberSprite::Mage)
    } else if job == "きし"@ || job == "騎士"@ {
        Some(MemberSprite::Knight)
    } else {
        None
    }
}

/// The figure known companions are drawn as, recognised by their name.
pub open spec fn name_sprite(name: Seq<char>) -> MemberSprite {
    if contains_seq(name, "ガルツ"@) {
        MemberSprite::Warrior
    } else if contains_seq(name, "ロロ"@) {
        MemberSprite::Slacker
    } else if contains_seq(name, "ミレイ"@) {
        MemberSprite::Mage
    } else if contains_seq(name, "アルヴィン"@) {
        MemberSprite::Knight
    } else {
        MemberSprite::Player
    }
}

/// The figure of a member: the protagonist's own; otherwise the job's,
/// and failing that the one a known companion's name calls for (the
/// protagonist's figure for anyone else).
pub open spec fn member_sprite(m: PartyMember) -> MemberSprite {
    if m.is_player {
        MemberSprite::Player
    } else {
        match job_sprite(m.job@) {
            Some(s) => s,
            None => name_sprite(m.name@),
        }
    }
}

/// The figure a party member is drawn as.
pub fn get_member_sprite(member: &PartyMember) -> (r: MemberSprite)
    ensures
        r == member_sprite(*member),
{
    if member.is_player {
        return MemberSprite::Player;
    }
    let job = member.job.as_str();
    if str_eq(job, "せんし") || str_eq(job, "戦士") {
        MemberSprite::Warrior
    } else if str_eq(job, "あそびにん") || str_eq(job, "遊び人") {
        MemberSprite::Slacker
    } else if str_eq(job, "まほうつかい") || str_eq(job, "魔法使い") {
        MemberSprite::Mage
    } else if str_eq(job, "きし") || str_eq(job, "騎士") {
        MemberSprite::Knight
    } else {
        let name = member.name.as_str();
        if str_contains(name, "ガルツ") {
            MemberSprite::Warrior
        } else if str_contains(name, "ロロ") {
            MemberSprite::Slacker
        } else if str_contains(name, "ミレイ") {
            MemberSprite::Mage
        } else if str_contains(name, "アルヴィン") {
            MemberSprite::Knight
        } else {
            MemberSprite::Player
        }
    }
}

} // verus!
