//! Orders to companions and how they react to them.

use super::influence::{Influence, MentalState, PartyMember, Personality};
use crate::rng::random_i32;
use crate::text::concat2;
use rand::rngs::StdRng;
use vstd::prelude::*;

verus! {

/// What the protagonist does in a battle turn.
#[derive(Debug, Clone, Copy, PartialEq, Eq, Structural)]
pub enum PlayerBattleAction {
    /// "たたかう": a feeble attack.
    Attack,
    /// "みをまもる": halves the damage taken.
    Defend,
    /// "どうぐ": heals a companion with a herb.
    UseItem,
    /// "かんさつ": observes a companion's state of mind.
    Diagnose,
    /// "にげる": tries to flee.
    Flee,
}

impl PlayerBattleAction {
    pub open spec fn spec_name(self) -> Seq<char> {
        match self {
            PlayerBattleAction::Attack => "たたかう"@,
            PlayerBattleAction::Defend => "みをまもる"@,
            PlayerBattleAction::UseItem => "どうぐ"@,
            PlayerBattleAction::Diagnose => "かんさつ"@,
            PlayerBattleAction::Flee => "にげる"@,
        }
    }

    /// The menu label of the action.
    pub fn name(&self) -> (r: &'static str)
        ensures
            r@ == self.spec_name(),
    {
        match self {
            PlayerBattleAction::Attack => "たたかう",
            PlayerBattleAction::Defend => "みをまもる",
            PlayerBattleAction::UseItem => "どうぐ",
            PlayerBattleAction::Diagnose => "かんさつ",
            PlayerBattleAction::Flee => "にげる",
        }
    }
}

/// An order the protagonist gives to a companion.
#[derive(Debug, Clone, Copy, PartialEq, Eq, Structural)]
pub enum PartyCommand {
    /// "たたかう": ordinary attack.
    Attack,
    /// "みをまもる": defend.
    Defend,
    /// "すてみ": reckless all-out attack.
    DesperateAttack,
    /// "じゅもん": cast a spell.
    CastSpell,
}

impl PartyCommand {
    pub open spec fn spec_name(self) -> Seq<char> {
        match self {
            PartyCommand::Attack => "たたかう"@,
            PartyCommand::Defend => "みをまもる"@,
            PartyCommand::DesperateAttack => "すてみ"@,
            PartyCommand::CastSpell => "じゅもん"@,
        }
    }

    /// The menu label of the order.
    pub fn name(&self) -> (r: &'static str)
        ensures
            r@ == self.spec_name(),
    {
        match self {
            PartyCommand::Attack => "たたかう",
            PartyCommand::Defend => "みをまもる",
            PartyCommand::DesperateAttack => "すてみ",
            PartyCommand::CastSpell => "じゅもん",
        }
    }

    pub open spec fn spec_resistance_penalty(self) -> int {
        match self {
            PartyCommand::Attack => 0,
            PartyCommand::Defend => 5,
            PartyCommand::DesperateAttack => -40,
            PartyCommand::CastSpell => -10,
        }
    }

    /// How readily the order is accepted (negative: resisted).
    pub fn resistance_penalty(&self) -> (r: i32)
        ensures
            r == self.spec_resistance_penalty(),
    {
        match self {
            PartyCommand::Attack => 0,
            PartyCommand::Defend => 5,
            PartyCommand::DesperateAttack => -40,
            PartyCommand::CastSpell => -10,
        }
    }
}

/// How a companion reacted to an order.
#[derive(Debug, Clone, PartialEq, Eq)]
pub enum ActionOutcome {
    /// The order was carried out.
    Obeyed { action_msg: String },
    /// The order was refused and the companion acted on their own.
    Disobeyed { reason_msg: String, action_msg: String },
}

/// The modifier a personality adds to the obedience chance.
pub open spec fn personality_modifier(p: Personality, c: PartyCommand) -> int {
    match p {
        Personality::Player => 100,
        Personality::Loyal => 15,
        Personality::Slacker => -30,
        Personality::Coward => if c == PartyCommand::DesperateAttack { -50 } else { -10 },
        Personality::Yandere => if c == PartyCommand::Attack || c == PartyCommand::DesperateAttack {
            15
        } else {
            -5
        },
    }
}

/// The modifier a state of mind adds to the obedience chance.
pub open spec fn mental_modifier(m: MentalState) -> int {
    match m {
        MentalState::Charmed => 50,
        MentalState::Cursed => -20,
        MentalState::Normal => 0,
    }
}

pub open spec fn clamp_int(v: int, lo: int, hi: int) -> int {
    if v < lo { lo } else if v > hi { hi } else { v }
}

/// Percent chance (5..=95) that a companion carries out an order.
pub open spec fn spec_obedience_chance(m: PartyMember, c: PartyCommand) -> int {
    clamp_int(
        m.influence.raw_value + c.spec_resistance_penalty() + personality_modifier(m.personality, c)
            + mental_modifier(m.mental_state),
        5,
        95,
    )
}

/// Whether the order is carried out for a roll of `roll` (1..=100).
pub open spec fn spec_obeys(m: PartyMember, c: PartyCommand, roll: int) -> bool {
    m.is_player || roll <= spec_obedience_chance(m, c)
}

/// The message of the protagonist acting as told.
pub open spec fn player_obeyed_text(name: Seq<char>) -> Seq<char> {
    name + "は　指示どおり行動した！"@
}

/// The message of a companion carrying out an order.
pub open spec fn obeyed_text(name: Seq<char>, c: PartyCommand) -> Seq<char> {
    match c {
        PartyCommand::Attack => name + "は　指示どおり　果敢に　切り込んだ！"@,
        PartyCommand::Defend => name + "は　身構えて　身を守っている！"@,
        PartyCommand::DesperateAttack => name + "は　覚悟を決めて　すてみの突撃を敢行した！"@,
        PartyCommand::CastSpell => name + "は　呪文を唱えた！　カエンダンが炸裂する！"@,
    }
}

/// Why a companion refuses an order.
pub open spec fn disobey_reason_text(name: Seq<char>, p: Personality, c: PartyCommand) -> Seq<char> {
    match p {
        Personality::Player => Seq::empty(),
        Personality::Slacker => if c == PartyCommand::Defend {
            name + "は「守るなんてダサいっしょ〜」とヘラヘラしている！"@
        } else {
            name + "は　指示をきかず　そっぽを向いた！"@
        },
        Personality::Coward => if c == PartyCommand::DesperateAttack {
            name + "は「そんなの無理です！」と涙目で拒絶した！"@
        } else if c == PartyCommand::Defend {
            name + "は　パニックを起こして指示が耳に入っていない！"@
        } else {
            name + "は　恐怖で足がすくんでいる！"@
        },
        Personality::Yandere => if c == PartyCommand::Defend {
            name + "は「あなたが危険なのに、私だけ身を守るなんて……！」と叫んだ！"@
        } else {
            name + "は　虚ろな瞳で　あなたを凝視している……"@
        },
        Personality::Loyal => if c == PartyCommand::DesperateAttack {
            name + "は「あなたを残して死ねません！」と諫言した！"@
        } else if c == PartyCommand::Defend {
            name + "は「ここは私が攻めるべきです！」と進言した！"@
        } else {
            name + "は　とっさの判断で指示と違う行動をとった！"@
        },
    }
}

/// What a companion does instead; `flavor` (0..=2) picks the slacker's antic.
pub open spec fn disobey_action_text(
    name: Seq<char>,
    p: Personality,
    c: PartyCommand,
    flavor: int,
) -> Seq<char> {
    match p {
        Personality::Player => player_obeyed_text(name),
        Personality::Slacker => if flavor == 0 {
            name + "は　あくびをして　爪をといでいる！"@
        } else if flavor == 1 {
            name + "は　くだらないダジャレを言った！　だれも笑っていない。"@
        } else {
            name + "は　勝手にポケットのパンをかじっている！"@
        },
        Personality::Coward => name + "は　後ろの岩陰へ逃げ込もうとした！"@,
        Personality::Yandere => if c == PartyCommand::Defend {
            name + "は　あなたの前に飛び出し、両手を広げて立ちはだかった！"@
        } else {
            name + "は「私の邪魔をしないで……」とつぶやき、勝手に敵を滅多刺しにした！"@
        },
        Personality::Loyal => name + "は　周囲の警戒を固めている！"@,
    }
}

/// `o` is the reaction of `m` to `c` for the roll `roll` and slacker antic `flavor`.
pub open spec fn outcome_for(
    m: PartyMember,
    c: PartyCommand,
    roll: int,
    flavor: int,
    o: ActionOutcome,
) -> bool {
    if m.is_player {
        o matches ActionOutcome::Obeyed { action_msg } && action_msg@ == player_obeyed_text(m.name@)
    } else if spec_obeys(m, c, roll) {
        o matches ActionOutcome::Obeyed { action_msg } && action_msg@ == obeyed_text(m.name@, c)
    } else {
        o matches ActionOutcome::Disobeyed { reason_msg, action_msg }
            && reason_msg@ == disobey_reason_text(m.name@, m.personality, c)
            && action_msg@ == disobey_action_text(m.name@, m.personality, c, flavor)
    }
}

/// The chance (in percent, 5..=95) that `member` carries out `command`:
/// influence plus the order's penalty plus personality and state-of-mind
/// modifiers, clamped.
pub fn obedience_chance(member: &PartyMember, command: PartyCommand) -> (r: i32)
    ensures
        r == spec_obedience_chance(*member, command),
        5 <= r <= 95,
{
    let base_rate = member.influence.raw_value as i32;
    let command_mod = command.resistance_penalty();
    let personality_mod: i32 = match member.personality {
        Personality::Player => 100,
        Personality::Loyal => 15,
        Personality::Slacker => -30,
        Personality::Coward => if command == PartyCommand::DesperateAttack { -50 } else { -10 },
        Personality::Yandere => {
            if command == PartyCommand::Attack || command == PartyCommand::DesperateAttack {
                15
            } else {
                -5
            }
        },
    };
    let mental_mod: i32 = match member.mental_state {
        MentalState::Charmed => 50,
        MentalState::Cursed => -20,
        MentalState::Normal => 0,
    };
    let total = base_rate + command_mod + personality_mod + mental_mod;
    if total < 5 {
        5
    } else if total > 95 {
        95
    } else {
        total
    }
}

fn obeyed_message(member: &PartyMember, command: PartyCommand) -> (r: String)
    ensures
        r@ == obeyed_text(member.name@, command),
{
    let name = member.name.as_str();
    match command {
        PartyCommand::Attack => concat2(name, "は　指示どおり　果敢に　切り込んだ！"),
        PartyCommand::Defend => concat2(name, "は　身構えて　身を守っている！"),
        PartyCommand::DesperateAttack => concat2(name, "は　覚悟を決めて　すてみの突撃を敢行した！"),
        PartyCommand::CastSpell => concat2(name, "は　呪文を唱えた！　カエンダンが炸裂する！"),
    }
}

/// The refusal of `member` to carry out `command`: the reason and what the
/// member does instead. `flavor` (0..=2) picks a slacker's antic; other
/// personalities ignore it.
pub fn disobedient_behavior(member: &PartyMember, command: PartyCommand, flavor: i32) -> (r: (
    String,
    String,
))
    ensures
        r.0@ == disobey_reason_text(member.name@, member.personality, command),
        r.1@ == disobey_action_text(member.name@, member.personality, command, flavor as int),
{
    let name = member.name.as_str();
    match member.personality {
        Personality::Player => (String::new(), concat2(name, "は　指示どおり行動した！")),
        Personality::Slacker => {
            let reason = if command == PartyCommand::Defend {
                concat2(name, "は「守るなんてダサいっしょ〜」とヘラヘラしている！")
            } else {
                concat2(name, "は　指示をきかず　そっぽを向いた！")
            };
            let action = if flavor == 0 {
                concat2(name, "は　あくびをして　爪をといでいる！")
            } else if flavor == 1 {
                concat2(name, "は　くだらないダジャレを言った！　だれも笑っていない。")
            } else {
                concat2(name, "は　勝手にポケットのパンをかじっている！")
            };
            (reason, action)
        },
        Personality::Coward => {
            let reason = if command == PartyCommand::DesperateAttack {
                concat2(name, "は「そんなの無理です！」と涙目で拒絶した！")
            } else if command == PartyCommand::Defend {
                concat2(name, "は　パニックを起こして指示が耳に入っていない！")
            } else {
                concat2(name, "は　恐怖で足がすくんでいる！")
            };
            (reason, concat2(name, "は　後ろの岩陰へ逃げ込もうとした！"))
        },
        Personality::Yandere => {
            if command == PartyCommand::Defend {
                (
                    concat2(name, "は「あなたが危険なのに、私だけ身を守るなんて……！」と叫んだ！"),
                    concat2(name, "は　あなたの前に飛び出し、両手を広げて立ちはだかった！"),
                )
            } else {
                (
                    concat2(name, "は　虚ろな瞳で　あなたを凝視している……"),
                    concat2(name, "は「私の邪魔をしないで……」とつぶやき、勝手に敵を滅多刺しにした！"),
                )
            }
        },
        Personality::Loyal => {
            let reason = if command == PartyCommand::DesperateAttack {
                concat2(name, "は「あなたを残して死ねません！」と諫言した！")
            } else if command == PartyCommand::Defend {
                concat2(name, "は「ここは私が攻めるべきです！」と進言した！")
            } else {
                concat2(name, "は　とっさの判断で指示と違う行動をとった！")
            };
            (reason, concat2(name, "は　周囲の警戒を固めている！"))
        },
    }
}

/// The reaction of `member` to `command` given the obedience roll `roll`
/// (1..=100) and the slacker antic `flavor` (0..=2): the protagonist always
/// acts as told; a companion obeys exactly when `roll` is at most the
/// obedience chance.
pub fn command_outcome(member: &PartyMember, command: PartyCommand, roll: i32, flavor: i32) -> (r:
    ActionOutcome)
    ensures
        outcome_for(*member, command, roll as int, flavor as int, r),
{
    if member.is_player {
        return ActionOutcome::Obeyed {
            action_msg: concat2(member.name.as_str(), "は　指示どおり行動した！"),
        };
    }
    let chance = obedience_chance(member, command);
    if roll <= chance {
        ActionOutcome::Obeyed { action_msg: obeyed_message(member, command) }
    } else {
        let (reason_msg, action_msg) = disobedient_behavior(member, command, flavor);
        ActionOutcome::Disobeyed { reason_msg, action_msg }
    }
}

/// Asks `member` to carry out `command`. The protagonist always obeys and no
/// roll is made; otherwise a roll in 1..=100 is drawn and the member obeys
/// exactly when it is at most the obedience chance, and a refusing slacker
/// draws one more value in 0..=2 for the antic.
pub fn evaluate_command(member: &PartyMember, command: PartyCommand, rng: &mut StdRng) -> (r:
    ActionOutcome)
    ensures
        exists|roll: int, flavor: int|
            1 <= roll <= 100 && 0 <= flavor <= 2 && #[trigger] outcome_for(
                *member,
                command,
                roll,
                flavor,
                r,
            ),
        member.is_player ==> r matches ActionOutcome::Obeyed { .. },
{
    if member.is_player {
        let r = command_outcome(member, command, 1, 0);
        assert(outcome_for(*member, command, 1, 0, r));
        return r;
    }
    let roll = random_i32(rng, 1, 100);
    let chance = obedience_chance(member, command);
    let flavor = if roll > chance && member.personality == Personality::Slacker {
        random_i32(rng, 0, 2)
    } else {
        0
    };
    let r = command_outcome(member, command, roll, flavor);
    assert(outcome_for(*member, command, roll as int, flavor as int, r));
    r
}

/// A loyal companion is 15 points more willing than the plain sum of
/// influence, the order's penalty and the state of mind, clamped to
/// 5..=95: strictly more likely to obey than that sum wherever neither
/// clamp decides (e.g. influence 82, sound mind, an attack: 95).
pub proof fn lemma_loyal_bonus(m: PartyMember, c: PartyCommand)
    requires
        m.personality == Personality::Loyal,
    ensures
        ({
            let neutral = m.influence.raw_value + c.spec_resistance_penalty() + mental_modifier(m.mental_state);
            &&& spec_obedience_chance(m, c) == clamp_int(neutral + 15, 5, 95)
            &&& (-10 < neutral < 95 ==> spec_obedience_chance(m, c) > clamp_int(neutral, 5, 95))
        }),
{
}

/// More influence never makes a companion less likely to obey; a desperate
/// attack is never accepted more readily than a plain attack; a charm never
/// lowers and a curse never raises the chance against a sound mind.
pub proof fn lemma_obedience_order(m: PartyMember, c: PartyCommand, v: u8)
    ensures
        m.influence.raw_value <= v ==> spec_obedience_chance(m, c) <= spec_obedience_chance(
            PartyMember { influence: Influence { raw_value: v }, ..m },
            c,
        ),
        spec_obedience_chance(m, PartyCommand::DesperateAttack) <= spec_obedience_chance(m, PartyCommand::Attack),
        spec_obedience_chance(PartyMember { mental_state: MentalState::Cursed, ..m }, c) <= spec_obedience_chance(
            PartyMember { mental_state: MentalState::Normal, ..m },
            c,
        ),
        spec_obedience_chance(PartyMember { mental_state: MentalState::Normal, ..m }, c) <= spec_obedience_chance(
            PartyMember { mental_state: MentalState::Charmed, ..m },
            c,
        ),
{
}

/// The obedience rule: a companion's chance is its influence, plus the
/// order's weight (attack 0, defend +5, desperate attack -40, spell -10),
/// plus its character (loyal +15, slacker -30, coward -10 or -50 against a
/// desperate attack, yandere +15 for attacks and -5 otherwise), plus its
/// state of mind (charmed +50, cursed -20), held between 5 and 95.
pub proof fn lemma_obedience_rule(m: PartyMember, c: PartyCommand)
    requires
        m.personality != Personality::Player,
    ensures
        ({
            let order = if c == PartyCommand::Attack {
                0int
            } else if c == PartyCommand::Defend {
                5int
            } else if c == PartyCommand::DesperateAttack {
                -40int
            } else {
                -10int
            };
            let attack = c == PartyCommand::Attack || c == PartyCommand::DesperateAttack;
            let character = if m.personality == Personality::Loyal {
                15int
            } else if m.personality == Personality::Slacker {
                -30int
            } else if m.personality == Personality::Coward {
                if c == PartyCommand::DesperateAttack { -50int } else { -10int }
            } else if attack {
                15int
            } else {
                -5int
            };
            let mind = if m.mental_state == MentalState::Charmed {
                50int
            } else if m.mental_state == MentalState::Cursed {
                -20int
            } else {
                0int
            };
            let total = m.influence.raw_value + order + character + mind;
            spec_obedience_chance(m, c) == if total < 5 { 5 } else if total > 95 { 95 } else { total }
        }),
{
}

/// The obedience roll (1..=100) decides by the chance: the protagonist
/// always acts as told; a companion obeys on a roll of at most the chance,
/// so a lower roll never turns obedience into refusal, a roll of 5 or less
/// is always obeyed and a roll above 95 never is.
pub proof fn lemma_obedience_roll(m: PartyMember, c: PartyCommand, roll: int, lower: int)
    ensures
        m.is_player ==> spec_obeys(m, c, roll),
        !m.is_player ==> (spec_obeys(m, c, roll) <==> roll <= spec_obedience_chance(m, c)),
        lower <= roll && spec_obeys(m, c, roll) ==> spec_obeys(m, c, lower),
        roll <= 5 ==> spec_obeys(m, c, roll),
        !m.is_player && roll > 95 ==> !spec_obeys(m, c, roll),
{
}

} // verus!
