//! Observing a companion's state of mind with magic knowledge and a keen eye.

use super::influence::{MentalState, PartyMember, Personality};
use crate::rng::random_u8;
use crate::text::{concat2, contains_seq, string_of};
use rand::rngs::StdRng;
use vstd::prelude::*;
use vstd::string::*;

verus! {

/// The protagonist's observation skills.
#[derive(Debug, Clone, Copy)]
pub struct PlayerSkills {
    /// Magic knowledge (0..=100): senses traces of spells.
    pub magic_knowledge: u8,
    /// Keen eye (0..=100): notices odd expressions and gazes.
    pub keen_eye: u8,
}

impl Default for PlayerSkills {
    fn default() -> (r: Self)
        ensures
            r.magic_knowledge == 45 && r.keen_eye == 55,
    {
        Self { magic_knowledge: 45, keen_eye: 55 }
    }
}

/// The result of an observation.
#[derive(Debug, Clone, PartialEq, Eq)]
pub struct DiagnosisReport {
    /// Whether the observer judged correctly.
    pub success: bool,
    /// What was seen.
    pub observation_msg: String,
    /// The conclusion drawn.
    pub conclusion_msg: String,
}

/// Whether the observation is judged correctly, given which skill rolls passed.
pub open spec fn spec_diagnosis_success(
    mental: MentalState,
    personality: Personality,
    eye_ok: bool,
    magic_ok: bool,
) -> bool {
    match mental {
        MentalState::Charmed => magic_ok && eye_ok,
        MentalState::Cursed => magic_ok,
        MentalState::Normal => if personality == Personality::Yandere {
            magic_ok && eye_ok
        } else {
            true
        },
    }
}

pub open spec fn observation_text(name: Seq<char>, mental: MentalState, personality: Personality) -> Seq<char> {
    match mental {
        MentalState::Charmed => name + "の　ようすを　注意深く観察した。\n瞳孔が開き、うっとりとあなたを見つめている……"@,
        MentalState::Cursed => name + "の　ようすを　注意深く観察した。\n時折、何かに怯えるように首筋を掻きむしっている……"@,
        MentalState::Normal => if personality == Personality::Yandere {
            name + "の　ようすを　注意深く観察した。\nこちらが一歩動くたび、瞬きもせずその視線が追ってくる……"@
        } else {
            name + "の　ようすを　注意深く観察した。"@
        },
    }
}

pub open spec fn conclusion_text(
    mental: MentalState,
    personality: Personality,
    eye_ok: bool,
    magic_ok: bool,
) -> Seq<char> {
    match mental {
        MentalState::Charmed => if magic_ok && eye_ok {
            "【看破】こめかみに微かな紫の魔力光を感知した！\nこれは素の愛情ではない……魅了呪文に操られている！"@
        } else if eye_ok && !magic_ok {
            "【誤認】全身全霊であなたに心酔しているようだ。\n……しかし、どこか表情筋が不自然に固定されている気もする。"@
        } else {
            "あなたに熱烈な信頼を寄せているように見える。特に不審な点はない。"@
        },
        MentalState::Cursed => if magic_ok {
            "【看破】肌の奥にどす黒い呪術の残滓が渦巻いている！\n強い呪詛によって精神を蝕まれているようだ。"@
        } else {
            "単に旅の疲労か、虫刺されを気にしているだけのようだ。"@
        },
        MentalState::Normal => match personality {
            Personality::Yandere => if magic_ok && eye_ok {
                "【看破】魔術の痕跡は一切ない。完全にシラフだ。\nこれは外的な呪いではなく……純粋な「素の執着」だ……！"@
            } else if !magic_ok && eye_ok {
                "【混乱】あまりに執拗な視線だ。何か精神呪文でも受けているのだろうか？\n（魔術の知識が足りず真偽が判別できない）"@
            } else {
                "あなたをとても大切に想ってくれているようだ。頼もしい仲間だ。"@
            },
            Personality::Loyal => "背筋を伸ばし、あなたの次の言葉を真摯に待っている。\n精神状態は極めて健全だ。"@,
            Personality::Slacker => "鼻歌を歌いながら、道端の小石を蹴っている。\n緊張感はゼロだが、邪気もない。"@,
            Personality::Coward => "キョロキョロと周囲を警戒し、いつでも逃げられる体勢をとっている。\nビビっているだけで呪われてはいない。"@,
            Personality::Player => "いつもの自分だ。迷いはない。"@,
        },
    }
}

/// `r` is the report on `member` when the keen-eye roll `eye_roll` and the
/// magic roll `magic_roll` (each 1..=100, passing when at most the skill) were made.
pub open spec fn report_for(
    skills: PlayerSkills,
    member: PartyMember,
    eye_roll: int,
    magic_roll: int,
    r: DiagnosisReport,
) -> bool {
    let eye_ok = eye_roll <= skills.keen_eye;
    let magic_ok = magic_roll <= skills.magic_knowledge;
    &&& r.success == spec_diagnosis_success(member.mental_state, member.personality, eye_ok, magic_ok)
    &&& r.observation_msg@ == observation_text(member.name@, member.mental_state, member.personality)
    &&& r.conclusion_msg@ == conclusion_text(member.mental_state, member.personality, eye_ok, magic_ok)
}

/// The report on `member` for given skill rolls: a roll passes when it is at
/// most the corresponding skill.
pub fn diagnose_with_rolls(skills: &PlayerSkills, member: &PartyMember, eye_roll: u8, magic_roll: u8) -> (r:
    DiagnosisReport)
    ensures
        report_for(*skills, *member, eye_roll as int, magic_roll as int, r),
{
    let eye_ok = eye_roll <= skills.keen_eye;
    let magic_ok = magic_roll <= skills.magic_knowledge;
    let name = member.name.as_str();
    match member.mental_state {
        MentalState::Charmed => {
            let obs = concat2(name, "の　ようすを　注意深く観察した。\n瞳孔が開き、うっとりとあなたを見つめている……");
            let (success, conclusion) = if magic_ok && eye_ok {
                (true, string_of("【看破】こめかみに微かな紫の魔力光を感知した！\nこれは素の愛情ではない……魅了呪文に操られている！"))
            } else if eye_ok && !magic_ok {
                (false, string_of("【誤認】全身全霊であなたに心酔しているようだ。\n……しかし、どこか表情筋が不自然に固定されている気もする。"))
            } else {
                (false, string_of("あなたに熱烈な信頼を寄せているように見える。特に不審な点はない。"))
            };
            DiagnosisReport { success, observation_msg: obs, conclusion_msg: conclusion }
        },
        MentalState::Cursed => {
            let obs = concat2(name, "の　ようすを　注意深く観察した。\n時折、何かに怯えるように首筋を掻きむしっている……");
            let (success, conclusion) = if magic_ok {
                (true, string_of("【看破】肌の奥にどす黒い呪術の残滓が渦巻いている！\n強い呪詛によって精神を蝕まれているようだ。"))
            } else {
                (false, string_of("単に旅の疲労か、虫刺されを気にしているだけのようだ。"))
            };
            DiagnosisReport { success, observation_msg: obs, conclusion_msg: conclusion }
        },
        MentalState::Normal => {
            if member.personality == Personality::Yandere {
                let obs = concat2(name, "の　ようすを　注意深く観察した。\nこちらが一歩動くたび、瞬きもせずその視線が追ってくる……");
                let (success, conclusion) = if magic_ok && eye_ok {
                    (true, string_of("【看破】魔術の痕跡は一切ない。完全にシラフだ。\nこれは外的な呪いではなく……純粋な「素の執着」だ……！"))
                } else if !magic_ok && eye_ok {
                    (false, string_of("【混乱】あまりに執拗な視線だ。何か精神呪文でも受けているのだろうか？\n（魔術の知識が足りず真偽が判別できない）"))
                } else {
                    (false, string_of("あなたをとても大切に想ってくれているようだ。頼もしい仲間だ。"))
                };
                DiagnosisReport { success, observation_msg: obs, conclusion_msg: conclusion }
            } else {
                let obs = concat2(name, "の　ようすを　注意深く観察した。");
                let detail = match member.personality {
                    Personality::Loyal => "背筋を伸ばし、あなたの次の言葉を真摯に待っている。\n精神状態は極めて健全だ。",
                    Personality::Slacker => "鼻歌を歌いながら、道端の小石を蹴っている。\n緊張感はゼロだが、邪気もない。",
                    Personality::Coward => "キョロキョロと周囲を警戒し、いつでも逃げられる体勢をとっている。\nビビっているだけで呪われてはいない。",
                    _ => "いつもの自分だ。迷いはない。",
                };
                DiagnosisReport { success: true, observation_msg: obs, conclusion_msg: string_of(detail) }
            }
        },
    }
}

/// Observes `member`: draws the keen-eye roll and then the magic roll (each
/// 1..=100) and reports as `diagnose_with_rolls` does for them.
pub fn diagnose_member(skills: &PlayerSkills, member: &PartyMember, rng: &mut StdRng) -> (r:
    DiagnosisReport)
    ensures
        exists|eye_roll: int, magic_roll: int|
            1 <= eye_roll <= 100 && 1 <= magic_roll <= 100 && #[trigger] report_for(
                *skills,
                *member,
                eye_roll,
                magic_roll,
                r,
            ),
{
    let eye_roll = random_u8(rng, 1, 100);
    let magic_roll = random_u8(rng, 1, 100);
    let r = diagnose_with_rolls(skills, member, eye_roll, magic_roll);
    assert(report_for(*skills, *member, eye_roll as int, magic_roll as int, r));
    r
}

/// What an observation can conclude: a charm is seen through (and named)
/// only when both the keen-eye and the magic roll pass; a curse exactly when
/// the magic roll passes; a doting but sound companion only when both pass;
/// any other sound companion is always judged right.
pub proof fn lemma_diagnosis_needs_the_right_rolls(
    skills: PlayerSkills,
    member: PartyMember,
    eye_roll: int,
    magic_roll: int,
    r: DiagnosisReport,
)
    requires
        report_for(skills, member, eye_roll, magic_roll, r),
    ensures
        member.mental_state == MentalState::Charmed ==> (r.success <==> (eye_roll <= skills.keen_eye && magic_roll
            <= skills.magic_knowledge)),
        member.mental_state == MentalState::Charmed ==> (r.success <==> contains_seq(r.conclusion_msg@, "魅了呪文"@)),
        member.mental_state == MentalState::Cursed ==> (r.success <==> magic_roll <= skills.magic_knowledge),
        member.mental_state == MentalState::Normal && member.personality == Personality::Yandere ==> (r.success <==> (
        eye_roll <= skills.keen_eye && magic_roll <= skills.magic_knowledge)),
        member.mental_state == MentalState::Normal && member.personality != Personality::Yandere ==> r.success,
{
    if member.mental_state == MentalState::Charmed {
        let s = r.conclusion_msg@;
        let needle = "魅了呪文"@;
        reveal_strlit("魅了呪文");
        reveal_strlit("【看破】こめかみに微かな紫の魔力光を感知した！\nこれは素の愛情ではない……魅了呪文に操られている！");
        reveal_strlit("【誤認】全身全霊であなたに心酔しているようだ。\n……しかし、どこか表情筋が不自然に固定されている気もする。");
        reveal_strlit("あなたに熱烈な信頼を寄せているように見える。特に不審な点はない。");
        if r.success {
            assert(s.subrange(37, 37 + needle.len() as int) =~= needle);
        } else if contains_seq(s, needle) {
            let i = choose|i: int| 0 <= i && i + needle.len() <= s.len() && #[trigger] s.subrange(i, i + needle.len()) == needle;
            assert(s.subrange(i, i + needle.len())[0] == s[i]);
            assert(s[i] == '魅');
        }
    }
}

/// Better skills never spoil an observation: with the same rolls, a report
/// that was right stays right.
pub proof fn lemma_better_skills_never_hurt(
    s1: PlayerSkills,
    s2: PlayerSkills,
    member: PartyMember,
    eye_roll: int,
    magic_roll: int,
    r1: DiagnosisReport,
    r2: DiagnosisReport,
)
    requires
        s1.keen_eye <= s2.keen_eye,
        s1.magic_knowledge <= s2.magic_knowledge,
        report_for(s1, member, eye_roll, magic_roll, r1),
        report_for(s2, member, eye_roll, magic_roll, r2),
    ensures
        r1.success ==> r2.success,
{
}

} // verus!
