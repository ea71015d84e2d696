//! Turn-based battles: the protagonist acts, the companions follow (or do not
//! follow) their orders, and the monster strikes back.

use crate::party::action::{
    disobey_action_text, disobey_reason_text, obeyed_text, outcome_for, player_obeyed_text,
    spec_obeys,
};
use crate::party::diagnosis::{conclusion_text, observation_text, report_for};
use crate::party::{
    diagnose_member, evaluate_command, ActionOutcome, PartyCommand, PartyMember, Personality,
    PlayerBattleAction, PlayerSkills,
};
use crate::rng::{random_i32, random_ratio, random_usize};
use crate::text::{append_int, int_decimal, string_of};
use crate::timer::SimpleTimer;
use rand::rngs::StdRng;
use vstd::prelude::*;

verus! {

/// A monster the party fights.
#[derive(Debug, Clone)]
pub struct Monster {
    pub name: String,
    pub hp: i32,
    pub max_hp: i32,
    pub glyph_art: &'static str,
}

/// `hp` less `dmg`, but not below zero.
pub open spec fn hp_after(hp: int, dmg: int) -> int {
    if hp - dmg > 0 {
        hp - dmg
    } else {
        0
    }
}

impl Monster {
    /// A monster at full health.
    pub fn new(name: &str, max_hp: i32, glyph_art: &'static str) -> (r: Self)
        ensures
            r.name@ == name@,
            r.hp == max_hp,
            r.max_hp == max_hp,
            r.glyph_art == glyph_art,
    {
        Self { name: string_of(name), hp: max_hp, max_hp, glyph_art }
    }

    /// A monster is dead once its health is zero (or less).
    pub fn is_dead(&self) -> (r: bool)
        ensures
            r == (self.hp <= 0),
    {
        self.hp <= 0
    }

    /// Lowers the health by `damage`, not below zero.
    pub fn take_damage(&mut self, damage: i32)
        requires
            i32::MIN <= old(self).hp - damage <= i32::MAX,
        ensures
            final(self).hp == hp_after(old(self).hp as int, damage as int),
            final(self).name == old(self).name,
            final(self).max_hp == old(self).max_hp,
            final(self).glyph_art == old(self).glyph_art,
    {
        let h = self.hp - damage;
        self.hp = if h > 0 { h } else { 0 };
    }
}

/// Where the battle stands.
#[derive(Debug, Clone, PartialEq, Eq, Structural)]
pub enum BattlePhase {
    /// Orders are being given; the cursor is on the member being ordered.
    CommandInput { member_cursor: usize },
    /// The turn is being played out one logged step at a time.
    TurnResolving { step_cursor: usize },
    /// The protagonist has fallen.
    Defeat,
}

/// One logged action of a turn and its effects.
#[derive(Debug, Clone)]
pub struct BattleStep {
    pub message: String,
    pub monster_damage: Option<i32>,
    pub member_damage: Option<(usize, i32)>,
    pub member_heal: Option<(usize, i32)>,
    pub monster_defeated: bool,
    pub player_defeated: bool,
    pub flee_success: bool,
}

/// A battle step with its message as a character sequence.
pub struct StepView {
    pub message: Seq<char>,
    pub monster_damage: Option<i32>,
    pub member_damage: Option<(usize, i32)>,
    pub member_heal: Option<(usize, i32)>,
    pub monster_defeated: bool,
    pub player_defeated: bool,
    pub flee_success: bool,
}

impl View for BattleStep {
    type V = StepView;

    open spec fn view(&self) -> StepView {
        StepView {
            message: self.message@,
            monster_damage: self.monster_damage,
            member_damage: self.member_damage,
            member_heal: self.member_heal,
            monster_defeated: self.monster_defeated,
            player_defeated: self.player_defeated,
            flee_success: self.flee_success,
        }
    }
}

pub open spec fn steps_view(v: Seq<BattleStep>) -> Seq<StepView> {
    v.map_values(|s: BattleStep| s@)
}

// ---------------------------------------------------------------------------
// The texts of the battle log.
// ---------------------------------------------------------------------------

pub open spec fn stone_text(mon: Seq<char>, d: int) -> Seq<char> {
    "あなた（一般人）は　必死に石を投げつけた！\n"@ + mon + "に "@ + int_decimal(d) + "の ダメージ！"@
}

pub open spec fn guard_text() -> Seq<char> {
    "あなたは　身をかがめて　警戒を強めた！（被ダメージ軽減）"@
}

pub open spec fn herb_text(target: Seq<char>, h: int) -> Seq<char> {
    "あなたは　やくそうを取り出し　"@ + target + "にあてた！\n"@ + target + "のHPが "@ + int_decimal(h)
        + " 回復した！"@
}

pub open spec fn herb_wasted_text() -> Seq<char> {
    "あなたは　やくそうを取り出したが、使う相手がいなかった！"@
}

pub open spec fn observe_text(name: Seq<char>, obs: Seq<char>, conclusion: Seq<char>) -> Seq<char> {
    "あなた「"@ + name + "の様子を見よう」\n"@ + obs + "\n"@ + conclusion
}

pub open spec fn nobody_to_observe_text() -> Seq<char> {
    "あなた「様子を見ようにも、仲間がいない……」"@
}

pub open spec fn flee_ok_text() -> Seq<char> {
    "あなたは仲間たちに合図を出し、脱出路へ走り込んだ！\nうまく逃げ切れた！"@
}

pub open spec fn flee_failed_text() -> Seq<char> {
    "あなたは逃げ出そうとしたが、魔物に退路を塞がれた！"@
}

pub open spec fn order_attack_text(name: Seq<char>, action: Seq<char>, mon: Seq<char>, d: int) -> Seq<char> {
    name + "に「たたかう」よう指示した！\n"@ + action + "\n"@ + mon + "に "@ + int_decimal(d) + "の ダメージ！"@
}

pub open spec fn order_defend_text(name: Seq<char>, action: Seq<char>) -> Seq<char> {
    name + "に「みをまもる」よう指示した。\n"@ + action
}

pub open spec fn order_desperate_text(name: Seq<char>, action: Seq<char>, mon: Seq<char>, d: int) -> Seq<char> {
    name + "に「すてみ」を命じた！\n"@ + action + "\n痛恨の一撃！ "@ + mon + "に "@ + int_decimal(d)
        + "の ダメージ！"@
}

pub open spec fn order_spell_text(name: Seq<char>, action: Seq<char>, mon: Seq<char>, d: int) -> Seq<char> {
    name + "に「じゅもん」を命じた！\n"@ + action + "\n火炎弾が炸裂！ "@ + mon + "に "@ + int_decimal(d)
        + "の ダメージ！"@
}

pub open spec fn rampage_text(
    name: Seq<char>,
    reason: Seq<char>,
    action: Seq<char>,
    mon: Seq<char>,
    d: int,
) -> Seq<char> {
    name + "に指示した！\n"@ + reason + "\n"@ + action + "\nなんと "@ + mon + "に "@ + int_decimal(d)
        + "の 暴走ダメージ！"@
}

pub open spec fn refused_text(name: Seq<char>, reason: Seq<char>, action: Seq<char>) -> Seq<char> {
    name + "に指示した！\n"@ + reason + "\n"@ + action
}

pub open spec fn cover_text(mon: Seq<char>, y: Seq<char>, d: int) -> Seq<char> {
    mon + "の攻撃があなたに迫る！\n"@ + y + "「あなたに触るなッ！」\n"@ + y + "が前に飛び出して身代わりになった！ "@
        + y + "に "@ + int_decimal(d) + "の ダメージ！"@
}

pub open spec fn counter_text(mon: Seq<char>, target: Seq<char>, d: int) -> Seq<char> {
    mon + "の反撃！\n"@ + target + "は "@ + int_decimal(d) + "の ダメージを受けた！"@
}

// ---------------------------------------------------------------------------
// What a turn may consist of.
// ---------------------------------------------------------------------------

/// A step that only logs a message.
pub open spec fn message_step(msg: Seq<char>) -> StepView {
    StepView {
        message: msg,
        monster_damage: None,
        member_damage: None,
        member_heal: None,
        monster_defeated: false,
        player_defeated: false,
        flee_success: false,
    }
}

/// A step that deals `d` to a monster with `mon_hp` health left.
pub open spec fn strike_step(msg: Seq<char>, d: i32, mon_hp: int) -> StepView {
    StepView {
        message: msg,
        monster_damage: Some(d),
        member_damage: None,
        member_heal: None,
        monster_defeated: hp_after(mon_hp, d as int) <= 0,
        player_defeated: false,
        flee_success: false,
    }
}

/// The health of every member.
pub open spec fn member_hps(members: Seq<PartyMember>) -> Seq<int> {
    Seq::new(members.len(), |i: int| members[i].hp as int)
}

/// Some member at index `from` or later is still standing.
pub open spec fn has_living(hps: Seq<int>, from: int) -> bool {
    exists|i: int| from <= i < hps.len() && #[trigger] hps[i] > 0
}

/// How badly hurt a member is, in percent of the maximum (at least 1) health.
pub open spec fn health_key(m: PartyMember, hp: int) -> int {
    hp * 100 / (if m.max_hp >= 1 { m.max_hp as int } else { 1 })
}

/// `t` is the standing member with the lowest health ratio (the first of equals).
pub open spec fn is_herb_target(members: Seq<PartyMember>, hps: Seq<int>, t: int) -> bool {
    &&& 0 <= t < hps.len()
    &&& hps[t] > 0
    &&& forall|j: int|
        0 <= j < hps.len() && #[trigger] hps[j] > 0 ==> health_key(members[t], hps[t]) <= health_key(
            members[j],
            hps[j],
        )
    &&& forall|j: int|
        0 <= j < t && #[trigger] hps[j] > 0 ==> health_key(members[t], hps[t]) < health_key(
            members[j],
            hps[j],
        )
}

/// The health a herb brings back: 20, not above the maximum.
pub open spec fn herb_amount(m: PartyMember, hp: int) -> int {
    (if hp + 20 < m.max_hp { hp + 20 } else { m.max_hp as int }) - hp
}

/// The conclusion of observing `m` with the given skill rolls.
pub open spec fn observed_conclusion(skills: PlayerSkills, m: PartyMember, eye_roll: int, magic_roll: int) -> Seq<char> {
    conclusion_text(m.mental_state, m.personality, eye_roll <= skills.keen_eye, magic_roll <= skills.magic_knowledge)
}

/// The step of the protagonist's action is one `action` can produce.
pub open spec fn player_step_ok(
    action: PlayerBattleAction,
    mon: Seq<char>,
    mon_hp: int,
    members: Seq<PartyMember>,
    hps: Seq<int>,
    skills: PlayerSkills,
    step: StepView,
) -> bool {
    match action {
        PlayerBattleAction::Attack => step.monster_damage matches Some(d) && 2 <= d <= 5 && step
            == strike_step(stone_text(mon, d as int), d, mon_hp),
        PlayerBattleAction::Defend => step == message_step(guard_text()),
        PlayerBattleAction::UseItem => if has_living(hps, 0) {
            step.member_heal matches Some((t, h)) && is_herb_target(members, hps, t as int) && h
                == herb_amount(members[t as int], hps[t as int]) && step == StepView {
                message: herb_text(members[t as int].name@, h as int),
                member_heal: Some((t, h)),
                ..message_step(Seq::empty())
            }
        } else {
            step == message_step(herb_wasted_text())
        },
        PlayerBattleAction::Diagnose => if has_living(hps, 1) {
            exists|t: int, eye_roll: int, magic_roll: int|
                1 <= t < hps.len() && hps[t] > 0 && 1 <= eye_roll <= 100 && 1 <= magic_roll <= 100 && step
                    == message_step(
                    observe_text(
                        members[t].name@,
                        observation_text(members[t].name@, members[t].mental_state, members[t].personality),
                        #[trigger] observed_conclusion(skills, members[t], eye_roll, magic_roll),
                    ),
                )
        } else {
            step == message_step(nobody_to_observe_text())
        },
        PlayerBattleAction::Flee => step == StepView { flee_success: true, ..message_step(flee_ok_text()) }
            || step == message_step(flee_failed_text()),
    }
}

/// The order given to member `i` (an attack when none was given).
pub open spec fn command_at(cmds: Seq<Option<PartyCommand>>, i: int) -> PartyCommand {
    if 0 <= i < cmds.len() {
        match cmds[i] {
            Some(c) => c,
            None => PartyCommand::Attack,
        }
    } else {
        PartyCommand::Attack
    }
}

/// Whether `m` obeys `c` for the roll, and the texts of the reaction:
/// `(obeyed, reason, action)`.
pub open spec fn order_reaction(m: PartyMember, c: PartyCommand, roll: int, flavor: int) -> (bool, Seq<char>, Seq<char>) {
    if m.is_player {
        (true, Seq::empty(), player_obeyed_text(m.name@))
    } else if spec_obeys(m, c, roll) {
        (true, Seq::empty(), obeyed_text(m.name@, c))
    } else {
        (false, disobey_reason_text(m.name@, m.personality, c), disobey_action_text(m.name@, m.personality, c, flavor))
    }
}

/// The step of companion `m` given its reaction `o` to the order `c`.
pub open spec fn companion_step_for(
    m: PartyMember,
    c: PartyCommand,
    o: (bool, Seq<char>, Seq<char>),
    mon: Seq<char>,
    mon_hp: int,
    step: StepView,
) -> bool {
    if o.0 {
        match c {
            PartyCommand::Attack => step.monster_damage matches Some(d) && 8 <= d <= 14 && step
                == strike_step(order_attack_text(m.name@, o.2, mon, d as int), d, mon_hp),
            PartyCommand::Defend => step == message_step(order_defend_text(m.name@, o.2)),
            PartyCommand::DesperateAttack => step.monster_damage matches Some(d) && 20 <= d <= 30 && step
                == strike_step(order_desperate_text(m.name@, o.2, mon, d as int), d, mon_hp),
            PartyCommand::CastSpell => step.monster_damage matches Some(d) && 14 <= d <= 22 && step
                == strike_step(order_spell_text(m.name@, o.2, mon, d as int), d, mon_hp),
        }
    } else if m.personality == Personality::Yandere {
        step.monster_damage matches Some(d) && 16 <= d <= 24 && step == strike_step(
            rampage_text(m.name@, o.1, o.2, mon, d as int),
            d,
            mon_hp,
        )
    } else {
        step == message_step(refused_text(m.name@, o.1, o.2))
    }
}

/// The step of companion `m` ordered to `c` is one the order can produce.
pub open spec fn companion_step_ok(m: PartyMember, c: PartyCommand, mon: Seq<char>, mon_hp: int, step: StepView) -> bool {
    exists|roll: int, flavor: int|
        1 <= roll <= 100 && 0 <= flavor <= 2 && companion_step_for(
            m,
            c,
            #[trigger] order_reaction(m, c, roll, flavor),
            mon,
            mon_hp,
            step,
        )
}

/// `y` is the first standing companion who dotes on the protagonist.
pub open spec fn is_first_living_yandere(members: Seq<PartyMember>, hps: Seq<int>, y: int) -> bool {
    &&& 1 <= y < hps.len()
    &&& members[y].personality == Personality::Yandere
    &&& hps[y] > 0
    &&& forall|j: int|
        1 <= j < y ==> !(#[trigger] members[j].personality == Personality::Yandere && hps[j] > 0)
}

/// The monster's counterattack is one that can happen: a standing member is
/// hit (half damage, at least 1, on a guarding protagonist), or, when the
/// protagonist is the target, the first standing yandere may leap in.
pub open spec fn counter_step_ok(
    members: Seq<PartyMember>,
    mon: Seq<char>,
    hps: Seq<int>,
    defending: bool,
    step: StepView,
) -> bool {
    ||| cover_step_ok(members, mon, hps, step)
    ||| hit_step_ok(members, mon, hps, defending, step)
}

/// The first standing yandere takes the blow meant for the protagonist.
pub open spec fn cover_step_ok(members: Seq<PartyMember>, mon: Seq<char>, hps: Seq<int>, step: StepView) -> bool {
    step.member_damage matches Some((y, d)) && hps.len() > 0 && hps[0] > 0 && is_first_living_yandere(
        members,
        hps,
        y as int,
    ) && 6 <= d <= 12 && step == StepView {
        message: cover_text(mon, members[y as int].name@, d as int),
        member_damage: Some((y, d)),
        ..message_step(Seq::empty())
    }
}

/// A standing member is hit (half damage, at least 1, on a guarding protagonist).
pub open spec fn hit_step_ok(
    members: Seq<PartyMember>,
    mon: Seq<char>,
    hps: Seq<int>,
    defending: bool,
    step: StepView,
) -> bool {
    step.member_damage matches Some((t, d)) && 0 <= t < hps.len() && hps[t as int] > 0 && (if t == 0
        && defending {
        2 <= d <= 5
    } else {
        5 <= d <= 10
    }) && step == StepView {
        message: counter_text(mon, members[t as int].name@, d as int),
        member_damage: Some((t, d)),
        player_defeated: t == 0 && hp_after(hps[0], d as int) <= 0,
        ..message_step(Seq::empty())
    }
}

/// The counterattack part of a turn: one step while the monster and someone
/// in the party still stand, none otherwise.
pub open spec fn counter_ok(
    members: Seq<PartyMember>,
    mon: Seq<char>,
    hps: Seq<int>,
    defending: bool,
    mon_hp: int,
    steps: Seq<StepView>,
) -> bool {
    if mon_hp > 0 && has_living(hps, 0) {
        steps.len() == 1 && counter_step_ok(members, mon, hps, defending, steps[0])
    } else {
        steps.len() == 0
    }
}

/// The monster's health after a step.
pub open spec fn monster_hp_after(mon_hp: int, step: StepView) -> int {
    match step.monster_damage {
        Some(d) => hp_after(mon_hp, d as int),
        None => mon_hp,
    }
}

/// The members' health after a herb step.
pub open spec fn hps_after_heal(hps: Seq<int>, step: StepView) -> Seq<int> {
    match step.member_heal {
        Some((t, h)) => hps.update(t as int, hps[t as int] + h),
        None => hps,
    }
}

/// The companions from index `i` on act in order (fallen ones skip their
/// turn) until the monster falls, and then the monster counterattacks.
pub open spec fn rest_ok(
    members: Seq<PartyMember>,
    cmds: Seq<Option<PartyCommand>>,
    mon: Seq<char>,
    hps: Seq<int>,
    defending: bool,
    i: int,
    mon_hp: int,
    steps: Seq<StepView>,
) -> bool
    decreases hps.len() - i,
{
    if i >= hps.len() || mon_hp <= 0 || i < 0 {
        counter_ok(members, mon, hps, defending, mon_hp, steps)
    } else if hps[i] <= 0 {
        rest_ok(members, cmds, mon, hps, defending, i + 1, mon_hp, steps)
    } else {
        &&& steps.len() >= 1
        &&& companion_step_ok(members[i], command_at(cmds, i), mon, mon_hp, steps[0])
        &&& rest_ok(members, cmds, mon, hps, defending, i + 1, monster_hp_after(mon_hp, steps[0]), steps.drop_first())
    }
}

/// `steps` is a turn that can come out of the protagonist's `action`, the
/// companions' orders `cmds`, against monster `mon` with `mon_hp` health.
pub open spec fn turn_ok(
    action: PlayerBattleAction,
    cmds: Seq<Option<PartyCommand>>,
    mon: Seq<char>,
    mon_hp: int,
    members: Seq<PartyMember>,
    skills: PlayerSkills,
    steps: Seq<StepView>,
) -> bool {
    let hps = member_hps(members);
    &&& steps.len() >= 1
    &&& player_step_ok(action, mon, mon_hp, members, hps, skills, steps[0])
    &&& if steps[0].monster_defeated || steps[0].flee_success {
        steps.len() == 1
    } else {
        rest_ok(
            members,
            cmds,
            mon,
            hps_after_heal(hps, steps[0]),
            action == PlayerBattleAction::Defend,
            1,
            monster_hp_after(mon_hp, steps[0]),
            steps.drop_first(),
        )
    }
}

// ---------------------------------------------------------------------------
// Building the texts.
// ---------------------------------------------------------------------------

/// `s` followed by the decimal notation of `d` and then `tail`.
fn push_number_then(s: &mut String, d: i32, tail: &str)
    ensures
        final(s)@ == old(s)@ + int_decimal(d as int) + tail@,
{
    append_int(s, d as i64);
    s.append(tail);
}

fn stone_message(mon: &str, d: i32) -> (r: String)
    ensures
        r@ == stone_text(mon@, d as int),
{
    let mut s = string_of("あなた（一般人）は　必死に石を投げつけた！\n");
    s.append(mon);
    s.append("に ");
    push_number_then(&mut s, d, "の ダメージ！");
    s
}

fn herb_message(target: &str, h: i32) -> (r: String)
    ensures
        r@ == herb_text(target@, h as int),
{
    let mut s = string_of("あなたは　やくそうを取り出し　");
    s.append(target);
    s.append("にあてた！\n");
    s.append(target);
    s.append("のHPが ");
    push_number_then(&mut s, h, " 回復した！");
    s
}

fn observe_message(name: &str, obs: &str, conclusion: &str) -> (r: String)
    ensures
        r@ == observe_text(name@, obs@, conclusion@),
{
    let mut s = string_of("あなた「");
    s.append(name);
    s.append("の様子を見よう」\n");
    s.append(obs);
    s.append("\n");
    s.append(conclusion);
    s
}

/// `name` + `head` + `action` + `middle` + `mon` + "に " + `d` + `tail`.
fn order_message(name: &str, head: &str, action: &str, middle: &str, mon: &str, d: i32, tail: &str) -> (r:
    String)
    ensures
        r@ == name@ + head@ + action@ + middle@ + mon@ + "に "@ + int_decimal(d as int) + tail@,
{
    let mut s = string_of(name);
    s.append(head);
    s.append(action);
    s.append(middle);
    s.append(mon);
    s.append("に ");
    push_number_then(&mut s, d, tail);
    s
}

fn rampage_message(name: &str, reason: &str, action: &str, mon: &str, d: i32) -> (r: String)
    ensures
        r@ == rampage_text(name@, reason@, action@, mon@, d as int),
{
    let mut s = string_of(name);
    s.append("に指示した！\n");
    s.append(reason);
    s.append("\n");
    s.append(action);
    s.append("\nなんと ");
    s.append(mon);
    s.append("に ");
    push_number_then(&mut s, d, "の 暴走ダメージ！");
    s
}

fn refused_message(name: &str, reason: &str, action: &str) -> (r: String)
    ensures
        r@ == refused_text(name@, reason@, action@),
{
    let mut s = string_of(name);
    s.append("に指示した！\n");
    s.append(reason);
    s.append("\n");
    s.append(action);
    s
}

fn cover_message(mon: &str, y: &str, d: i32) -> (r: String)
    ensures
        r@ == cover_text(mon@, y@, d as int),
{
    let mut s = string_of(mon);
    s.append("の攻撃があなたに迫る！\n");
    s.append(y);
    s.append("「あなたに触るなッ！」\n");
    s.append(y);
    s.append("が前に飛び出して身代わりになった！ ");
    s.append(y);
    s.append("に ");
    push_number_then(&mut s, d, "の ダメージ！");
    s
}

fn counter_message(mon: &str, target: &str, d: i32) -> (r: String)
    ensures
        r@ == counter_text(mon@, target@, d as int),
{
    let mut s = string_of(mon);
    s.append("の反撃！\n");
    s.append(target);
    s.append("は ");
    push_number_then(&mut s, d, "の ダメージを受けた！");
    s
}

fn message_only(msg: String) -> (r: BattleStep)
    ensures
        r@ == message_step(msg@),
{
    BattleStep {
        message: msg,
        monster_damage: None,
        member_damage: None,
        member_heal: None,
        monster_defeated: false,
        player_defeated: false,
        flee_success: false,
    }
}

fn strike(msg: String, d: i32, mon_hp: i32) -> (r: BattleStep)
    requires
        i32::MIN <= mon_hp - d <= i32::MAX,
    ensures
        r@ == strike_step(msg@, d, mon_hp as int),
{
    let left = mon_hp - d;
    BattleStep {
        message: msg,
        monster_damage: Some(d),
        member_damage: None,
        member_heal: None,
        monster_defeated: left <= 0,
        player_defeated: false,
        flee_success: false,
    }
}

// ---------------------------------------------------------------------------
// Choosing targets.
// ---------------------------------------------------------------------------

pub open spec fn ints(v: Seq<i32>) -> Seq<int> {
    v.map_values(|x: i32| x as int)
}

/// The indices from `from` on of the members still standing, in order.
fn living_indices(hps: &Vec<i32>, from: usize) -> (r: Vec<usize>)
    ensures
        forall|k: int| 0 <= k < r@.len() ==> from <= #[trigger] r@[k] < hps@.len() && hps@[r@[k] as int] > 0,
        r@.len() == 0 <==> !has_living(ints(hps@), from as int),
{
    let mut r: Vec<usize> = Vec::new();
    let mut i = from;
    while i < hps.len()
        invariant
            from <= i || i == from,
            forall|k: int| 0 <= k < r@.len() ==> from <= #[trigger] r@[k] < hps@.len() && hps@[r@[k] as int] > 0,
            r@.len() == 0 <==> !(exists|j: int| from <= j < i && j < hps@.len() && #[trigger] hps@[j] > 0),
        decreases hps@.len() - i,
    {
        if hps[i] > 0 {
            r.push(i);
        }
        i = i + 1;
    }
    proof {
        if has_living(ints(hps@), from as int) {
            let j = choose|j: int| from <= j < ints(hps@).len() && #[trigger] ints(hps@)[j] > 0;
            assert(hps@[j] > 0);
        }
        if r@.len() > 0 {
            let j = choose|j: int| from <= j < i && j < hps@.len() && #[trigger] hps@[j] > 0;
            assert(ints(hps@)[j] > 0);
        }
    }
    r
}

/// The standing member a herb goes to: the lowest health ratio, the first of equals.
fn herb_target(members: &[PartyMember], hps: &Vec<i32>) -> (r: Option<usize>)
    requires
        hps@.len() == members@.len(),
        forall|i: int| 0 <= i < hps@.len() ==> #[trigger] hps@[i] * 100 <= i32::MAX,
    ensures
        r matches Some(t) ==> is_herb_target(members@, ints(hps@), t as int),
        r is None <==> !has_living(ints(hps@), 0),
{
    let ghost h = ints(hps@);
    let mut best: Option<usize> = None;
    let mut best_key: i32 = 0;
    let mut i: usize = 0;
    while i < hps.len()
        invariant
            i <= hps@.len(),
            hps@.len() == members@.len(),
            h == ints(hps@),
            forall|k: int| 0 <= k < hps@.len() ==> #[trigger] hps@[k] * 100 <= i32::MAX,
            best is None <==> !(exists|j: int| 0 <= j < i && #[trigger] h[j] > 0),
            best matches Some(t) ==> {
                &&& t < i
                &&& h[t as int] > 0
                &&& best_key == health_key(members@[t as int], h[t as int])
                &&& forall|j: int|
                    0 <= j < i && #[trigger] h[j] > 0 ==> health_key(members@[t as int], h[t as int])
                        <= health_key(members@[j], h[j])
                &&& forall|j: int|
                    0 <= j < t && #[trigger] h[j] > 0 ==> health_key(members@[t as int], h[t as int])
                        < health_key(members@[j], h[j])
            },
        decreases hps@.len() - i,
    {
        if hps[i] > 0 {
            let m = if members[i].max_hp >= 1 { members[i].max_hp } else { 1 };
            let key = hps[i] * 100 / m;
            assert(key == health_key(members@[i as int], h[i as int]));
            let better = match best {
                None => true,
                Some(_) => key < best_key,
            };
            if better {
                best = Some(i);
                best_key = key;
            }
        }
        i = i + 1;
    }
    proof {
        if has_living(h, 0) {
            let j = choose|j: int| 0 <= j < h.len() && #[trigger] h[j] > 0;
            assert(h[j] > 0);
        }
    }
    best
}

/// The first standing companion who dotes on the protagonist, if any.
fn first_living_yandere(members: &[PartyMember], hps: &Vec<i32>) -> (r: Option<usize>)
    requires
        hps@.len() == members@.len(),
    ensures
        r matches Some(y) ==> is_first_living_yandere(members@, ints(hps@), y as int),
        r is None ==> forall|y: int| !is_first_living_yandere(members@, ints(hps@), y),
{
    let mut i: usize = 1;
    while i < hps.len()
        invariant
            1 <= i,
            hps@.len() == members@.len(),
            forall|j: int|
                1 <= j < i && j < hps@.len() ==> !(#[trigger] members@[j].personality == Personality::Yandere
                    && hps@[j] > 0),
        decreases hps@.len() - i,
    {
        if members[i].personality == Personality::Yandere && hps[i] > 0 {
            return Some(i);
        }
        i = i + 1;
    }
    None
}

// ---------------------------------------------------------------------------
// The three parts of a turn.
// ---------------------------------------------------------------------------

/// The step of the protagonist's `action` against `mon` with `mon_hp` health.
fn player_turn_step(
    action: PlayerBattleAction,
    mon: &str,
    mon_hp: i32,
    members: &[PartyMember],
    hps: &Vec<i32>,
    skills: &PlayerSkills,
    rng: &mut StdRng,
) -> (r: BattleStep)
    requires
        mon_hp >= i32::MIN + 30,
        hps@.len() == members@.len(),
        forall|i: int| 0 <= i < hps@.len() ==> #[trigger] hps@[i] * 100 <= i32::MAX,
        forall|i: int| 0 <= i < hps@.len() ==> i32::MIN <= members@[i].max_hp - #[trigger] hps@[i],
    ensures
        player_step_ok(action, mon@, mon_hp as int, members@, ints(hps@), *skills, r@),
{
    match action {
        PlayerBattleAction::Attack => {
            let d = random_i32(rng, 2, 5);
            strike(stone_message(mon, d), d, mon_hp)
        },
        PlayerBattleAction::Defend => message_only(string_of("あなたは　身をかがめて　警戒を強めた！（被ダメージ軽減）")),
        PlayerBattleAction::UseItem => {
            match herb_target(members, hps) {
                Some(t) => {
                    let prev = hps[t];
                    let cap = members[t].max_hp;
                    let new_hp = if prev + 20 < cap { prev + 20 } else { cap };
                    let h = new_hp - prev;
                    let msg = herb_message(members[t].name.as_str(), h);
                    BattleStep {
                        message: msg,
                        monster_damage: None,
                        member_damage: None,
                        member_heal: Some((t, h)),
                        monster_defeated: false,
                        player_defeated: false,
                        flee_success: false,
                    }
                },
                None => message_only(string_of("あなたは　やくそうを取り出したが、使う相手がいなかった！")),
            }
        },
        PlayerBattleAction::Diagnose => {
            let living = living_indices(hps, 1);
            if living.len() > 0 {
                let pick = random_usize(rng, 0, living.len() - 1);
                let t = living[pick];
                let report = diagnose_member(skills, &members[t], rng);
                let msg = observe_message(
                    members[t].name.as_str(),
                    report.observation_msg.as_str(),
                    report.conclusion_msg.as_str(),
                );
                let r = message_only(msg);
                proof {
                    let m = members@[t as int];
                    let (eye, magic) = choose|eye_roll: int, magic_roll: int|
                        1 <= eye_roll <= 100 && 1 <= magic_roll <= 100 && #[trigger] report_for(
                            *skills,
                            m,
                            eye_roll,
                            magic_roll,
                            report,
                        );
                    assert(observed_conclusion(*skills, m, eye, magic) == report.conclusion_msg@);
                    assert(ints(hps@)[t as int] > 0);
                }
                r
            } else {
                message_only(string_of("あなた「様子を見ようにも、仲間がいない……」"))
            }
        },
        PlayerBattleAction::Flee => {
            if random_ratio(rng, 1, 2) {
                BattleStep {
                    message: string_of("あなたは仲間たちに合図を出し、脱出路へ走り込んだ！\nうまく逃げ切れた！"),
                    monster_damage: None,
                    member_damage: None,
                    member_heal: None,
                    monster_defeated: false,
                    player_defeated: false,
                    flee_success: true,
                }
            } else {
                message_only(string_of("あなたは逃げ出そうとしたが、魔物に退路を塞がれた！"))
            }
        },
    }
}

/// Whether a reaction was obedience, and its reason and action texts.
pub open spec fn reaction_of(o: ActionOutcome) -> (bool, Seq<char>, Seq<char>) {
    match o {
        ActionOutcome::Obeyed { action_msg } => (true, Seq::empty(), action_msg@),
        ActionOutcome::Disobeyed { reason_msg, action_msg } => (false, reason_msg@, action_msg@),
    }
}

proof fn lemma_reaction_of_outcome(m: PartyMember, c: PartyCommand, roll: int, flavor: int, o: ActionOutcome)
    requires
        outcome_for(m, c, roll, flavor, o),
    ensures
        reaction_of(o) == order_reaction(m, c, roll, flavor),
{
}

/// The step of companion `m`, who reacted with `outcome` to the order `cmd`.
fn companion_turn_step(
    m: &PartyMember,
    cmd: PartyCommand,
    outcome: ActionOutcome,
    mon: &str,
    mon_hp: i32,
    rng: &mut StdRng,
) -> (r: BattleStep)
    requires
        mon_hp >= i32::MIN + 30,
    ensures
        companion_step_for(*m, cmd, reaction_of(outcome), mon@, mon_hp as int, r@),
{
    let name = m.name.as_str();
    match outcome {
        ActionOutcome::Obeyed { action_msg } => {
            let action = action_msg.as_str();
            match cmd {
                PartyCommand::Attack => {
                    let d = random_i32(rng, 8, 14);
                    let msg = order_message(name, "に「たたかう」よう指示した！\n", action, "\n", mon, d, "の ダメージ！");
                    strike(msg, d, mon_hp)
                },
                PartyCommand::Defend => {
                    let mut msg = string_of(name);
                    msg.append("に「みをまもる」よう指示した。\n");
                    msg.append(action);
                    message_only(msg)
                },
                PartyCommand::DesperateAttack => {
                    let d = random_i32(rng, 20, 30);
                    let msg = order_message(name, "に「すてみ」を命じた！\n", action, "\n痛恨の一撃！ ", mon, d, "の ダメージ！");
                    strike(msg, d, mon_hp)
                },
                PartyCommand::CastSpell => {
                    let d = random_i32(rng, 14, 22);
                    let msg = order_message(name, "に「じゅもん」を命じた！\n", action, "\n火炎弾が炸裂！ ", mon, d, "の ダメージ！");
                    strike(msg, d, mon_hp)
                },
            }
        },
        ActionOutcome::Disobeyed { reason_msg, action_msg } => {
            if m.personality == Personality::Yandere {
                let d = random_i32(rng, 16, 24);
                let msg = rampage_message(name, reason_msg.as_str(), action_msg.as_str(), mon, d);
                strike(msg, d, mon_hp)
            } else {
                message_only(refused_message(name, reason_msg.as_str(), action_msg.as_str()))
            }
        },
    }
}

/// The monster's counterattack, or `None` when nobody in the party stands.
fn counter_turn_step(
    members: &[PartyMember],
    mon: &str,
    hps: &Vec<i32>,
    defending: bool,
    rng: &mut StdRng,
) -> (r: Option<BattleStep>)
    requires
        hps@.len() == members@.len(),
    ensures
        r is Some <==> has_living(ints(hps@), 0),
        r matches Some(st) ==> counter_step_ok(members@, mon@, ints(hps@), defending, st@),
{
    let living = living_indices(hps, 0);
    if living.len() == 0 {
        return None;
    }
    let pick = random_usize(rng, 0, living.len() - 1);
    let target = living[pick];
    let cover = if target == 0 && random_ratio(rng, 2, 5) {
        first_living_yandere(members, hps)
    } else {
        None
    };
    match cover {
        Some(y) => {
            let d = random_i32(rng, 6, 12);
            let msg = cover_message(mon, members[y].name.as_str(), d);
            let st = BattleStep {
                message: msg,
                monster_damage: None,
                member_damage: Some((y, d)),
                member_heal: None,
                monster_defeated: false,
                player_defeated: false,
                flee_success: false,
            };
            proof {
                assert(cover_step_ok(members@, mon@, ints(hps@), st@));
            }
            Some(st)
        },
        None => {
            let raw = random_i32(rng, 5, 10);
            let d = if target == 0 && defending {
                if raw / 2 > 1 { raw / 2 } else { 1 }
            } else {
                raw
            };
            let left = hps[target] - d;
            let msg = counter_message(mon, members[target].name.as_str(), d);
            let st = BattleStep {
                message: msg,
                monster_damage: None,
                member_damage: Some((target, d)),
                member_heal: None,
                monster_defeated: false,
                player_defeated: target == 0 && left <= 0,
                flee_success: false,
            };
            proof {
                assert(hit_step_ok(members@, mon@, ints(hps@), defending, st@));
            }
            Some(st)
        },
    }
}

// ---------------------------------------------------------------------------
// Applying the effects of steps.
// ---------------------------------------------------------------------------

/// The health of member `idx` (with maximum `max_hp`) after a step's damage
/// and then its healing.
pub open spec fn member_hp_after_step(hp: int, max_hp: int, idx: int, step: StepView) -> int {
    let h1 = match step.member_damage {
        Some((i, d)) => if i == idx { hp_after(hp, d as int) } else { hp },
        None => hp,
    };
    match step.member_heal {
        Some((i, h)) => if i == idx {
            if h1 + h < max_hp { h1 + h } else { max_hp as int }
        } else {
            h1
        },
        None => h1,
    }
}

/// The members after a step's damage and healing.
pub open spec fn members_after_step(members: Seq<PartyMember>, step: StepView) -> Seq<PartyMember> {
    Seq::new(
        members.len(),
        |j: int|
            PartyMember {
                hp: member_hp_after_step(members[j].hp as int, members[j].max_hp as int, j, step) as i32,
                ..members[j]
            },
    )
}

/// The step's arithmetic stays within `i32`.
pub open spec fn step_fits(mon_hp: int, members: Seq<PartyMember>, step: StepView) -> bool {
    &&& step.monster_damage matches Some(d) ==> i32::MIN <= mon_hp - d <= i32::MAX
    &&& step.member_damage matches Some((i, d)) ==> (i < members.len() ==> i32::MIN <= members[i as int].hp
        - d <= i32::MAX)
    &&& step.member_heal matches Some((i, h)) ==> (i < members.len() ==> ({
        let mid = match step.member_damage {
            Some((k, d)) => if k == i { hp_after(members[i as int].hp as int, d as int) } else { members[i as int].hp as int },
            None => members[i as int].hp as int,
        };
        i32::MIN <= mid + h <= i32::MAX
    }))
}

/// The monster's health after the steps, in order.
pub open spec fn monster_hp_after_steps(mon_hp: int, steps: Seq<StepView>) -> int
    decreases steps.len(),
{
    if steps.len() == 0 {
        mon_hp
    } else {
        monster_hp_after(monster_hp_after_steps(mon_hp, steps.drop_last()), steps.last())
    }
}

/// The members after the steps, in order.
pub open spec fn members_after_steps(members: Seq<PartyMember>, steps: Seq<StepView>) -> Seq<PartyMember>
    decreases steps.len(),
{
    if steps.len() == 0 {
        members
    } else {
        members_after_step(members_after_steps(members, steps.drop_last()), steps.last())
    }
}

/// Every step's arithmetic, applied in order, stays within `i32`.
pub open spec fn steps_fit(mon_hp: int, members: Seq<PartyMember>, steps: Seq<StepView>) -> bool
    decreases steps.len(),
{
    if steps.len() == 0 {
        true
    } else {
        steps_fit(mon_hp, members, steps.drop_last()) && step_fits(
            monster_hp_after_steps(mon_hp, steps.drop_last()),
            members_after_steps(members, steps.drop_last()),
            steps.last(),
        )
    }
}

proof fn lemma_steps_fit_prefix(mon_hp: int, members: Seq<PartyMember>, steps: Seq<StepView>, k: int)
    requires
        steps_fit(mon_hp, members, steps),
        0 <= k <= steps.len(),
    ensures
        steps_fit(mon_hp, members, steps.take(k)),
    decreases steps.len(),
{
    if k < steps.len() {
        assert(steps.drop_last().take(k) =~= steps.take(k));
        lemma_steps_fit_prefix(mon_hp, members, steps.drop_last(), k);
    } else {
        assert(steps.take(k) =~= steps);
    }
}

/// Whether some step hurts the monster.
pub open spec fn some_strike(steps: Seq<StepView>) -> bool {
    exists|k: int| 0 <= k < steps.len() && (#[trigger] steps[k]).monster_damage is Some
}

/// The state of a battle.
pub struct BattleState {
    pub current_index: usize,
    pub monsters: Vec<Monster>,
    pub flash_timer: SimpleTimer,
    pub is_flashing: bool,
    pub phase: BattlePhase,
    pub player_action: Option<PlayerBattleAction>,
    pub party_commands: Vec<Option<PartyCommand>>,
    pub turn_steps: Vec<BattleStep>,
}

/// The flash after a hit lasts 180 milliseconds.
pub const FLASH_MILLIS: u64 = 180;

impl BattleState {
    /// The current monster is one of the battle's monsters.
    pub open spec fn wf(&self) -> bool {
        self.current_index < self.monsters@.len()
    }

    pub open spec fn spec_current_monster(&self) -> Monster {
        self.monsters@[self.current_index as int]
    }

    /// A battle against `monsters`, starting with the first, waiting for orders.
    pub fn new(monsters: Vec<Monster>) -> (r: Self)
        ensures
            r.current_index == 0,
            r.monsters@ == monsters@,
            r.flash_timer.wf(),
            r.flash_timer.spec_duration() == FLASH_MILLIS * 1_000_000,
            r.flash_timer.spec_elapsed() == 0,
            !r.is_flashing,
            r.phase == (BattlePhase::CommandInput { member_cursor: 0 }),
            r.player_action is None,
            r.party_commands@.len() == 0,
            r.turn_steps@.len() == 0,
    {
        Self {
            current_index: 0,
            monsters,
            flash_timer: SimpleTimer::from_millis(FLASH_MILLIS),
            is_flashing: false,
            phase: BattlePhase::CommandInput { member_cursor: 0 },
            player_action: None,
            party_commands: Vec::new(),
            turn_steps: Vec::new(),
        }
    }

    /// The monster being fought.
    pub fn current_monster(&self) -> (r: &Monster)
        requires
            self.wf(),
        ensures
            *r == self.spec_current_monster(),
    {
        &self.monsters[self.current_index]
    }

    /// Clears the orders and the log for a new turn of `member_count` members.
    pub fn reset_turn_commands(&mut self, member_count: usize)
        ensures
            final(self).phase == (BattlePhase::CommandInput { member_cursor: 0 }),
            final(self).player_action is None,
            final(self).party_commands@ == Seq::new(member_count as nat, |i: int| None::<PartyCommand>),
            final(self).turn_steps@.len() == 0,
            final(self).current_index == old(self).current_index,
            final(self).monsters == old(self).monsters,
            final(self).flash_timer == old(self).flash_timer,
            final(self).is_flashing == old(self).is_flashing,
    {
        self.phase = BattlePhase::CommandInput { member_cursor: 0 };
        self.player_action = None;
        let mut cmds: Vec<Option<PartyCommand>> = Vec::new();
        let mut i: usize = 0;
        while i < member_count
            invariant
                i <= member_count,
                cmds@ == Seq::new(i as nat, |k: int| None::<PartyCommand>),
            decreases member_count - i,
        {
            cmds.push(None);
            i = i + 1;
            assert(cmds@ =~= Seq::new(i as nat, |k: int| None::<PartyCommand>));
        }
        self.party_commands = cmds;
        self.turn_steps = Vec::new();
    }

    /// Gives `command` to member `index`, growing the order list with empty
    /// orders as needed.
    pub fn set_party_command(&mut self, index: usize, command: PartyCommand)
        requires
            index < usize::MAX,
        ensures
            final(self).party_commands@.len() == (if index < old(self).party_commands@.len() {
                old(self).party_commands@.len() as int
            } else {
                index + 1
            }),
            final(self).party_commands@[index as int] == Some(command),
            forall|j: int|
                0 <= j < final(self).party_commands@.len() && j != index ==> #[trigger] final(self).party_commands@[j] == (if j < old(self).party_commands@.len() {
                    old(self).party_commands@[j]
                } else {
                    None
                }),
            final(self).current_index == old(self).current_index,
            final(self).monsters == old(self).monsters,
            final(self).phase == old(self).phase,
            final(self).player_action == old(self).player_action,
            final(self).turn_steps == old(self).turn_steps,
            final(self).flash_timer == old(self).flash_timer,
            final(self).is_flashing == old(self).is_flashing,
    {
        while self.party_commands.len() <= index
            invariant
                index < usize::MAX,
                self.party_commands@.len() <= (if index < old(self).party_commands@.len() {
                    old(self).party_commands@.len() as int
                } else {
                    index + 1
                }),
                old(self).party_commands@.len() <= self.party_commands@.len(),
                forall|j: int|
                    0 <= j < self.party_commands@.len() ==> #[trigger] self.party_commands@[j] == (if j
                        < old(self).party_commands@.len() {
                        old(self).party_commands@[j]
                    } else {
                        None
                    }),
                self.current_index == old(self).current_index,
                self.monsters == old(self).monsters,
                self.phase == old(self).phase,
                self.player_action == old(self).player_action,
                self.turn_steps == old(self).turn_steps,
                self.flash_timer == old(self).flash_timer,
                self.is_flashing == old(self).is_flashing,
            decreases index + 1 - self.party_commands@.len(),
        {
            self.party_commands.push(None);
        }
        self.party_commands.set(index, Some(command));
    }

    /// Moves on to the next monster (cycling), restores its health and
    /// clears the orders for a turn of `member_count` members.
    pub fn next_monster(&mut self, member_count: usize)
        requires
            old(self).wf(),
        ensures
            final(self).wf(),
            final(self).current_index == (old(self).current_index + 1) % (old(self).monsters@.len() as int),
            final(self).monsters@ == old(self).monsters@.update(
                final(self).current_index as int,
                Monster {
                    hp: old(self).monsters@[final(self).current_index as int].max_hp,
                    ..old(self).monsters@[final(self).current_index as int]
                },
            ),
            final(self).phase == (BattlePhase::CommandInput { member_cursor: 0 }),
            final(self).player_action is None,
            final(self).party_commands@ == Seq::new(member_count as nat, |i: int| None::<PartyCommand>),
            final(self).turn_steps@.len() == 0,
    {
        let n = self.monsters.len();
        let next = (self.current_index + 1) % n;
        self.current_index = next;
        let max_hp = self.monsters[next].max_hp;
        self.monsters[next].hp = max_hp;
        self.reset_turn_commands(member_count);
    }

    /// Plays out the coming turn and records it in `turn_steps` (without
    /// applying it): the protagonist acts, then each standing companion from
    /// index 1 on is given its order (an attack when none was given) until
    /// the monster falls, then the monster strikes back at a standing member.
    /// A fallen monster or a successful escape ends the turn at once.
    pub fn build_turn_resolution(&mut self, members: &[PartyMember], skills: &PlayerSkills, rng: &mut StdRng)
        requires
            old(self).wf(),
            old(self).spec_current_monster().hp >= i32::MIN + 30,
            forall|i: int| 0 <= i < members@.len() ==> member_fits(#[trigger] members@[i]),
        ensures
            final(self).phase == (BattlePhase::TurnResolving { step_cursor: 0 }),
            turn_ok(
                action_or_attack(old(self).player_action),
                old(self).party_commands@,
                old(self).spec_current_monster().name@,
                old(self).spec_current_monster().hp as int,
                members@,
                *skills,
                steps_view(final(self).turn_steps@),
            ),
            final(self).current_index == old(self).current_index,
            final(self).monsters == old(self).monsters,
            final(self).flash_timer == old(self).flash_timer,
            final(self).is_flashing == old(self).is_flashing,
            final(self).player_action == old(self).player_action,
            final(self).party_commands == old(self).party_commands,
    {
        let ci = self.current_index;
        let mon_name = self.monsters[ci].name.clone();
        let mon = mon_name.as_str();
        let mon_hp0 = self.monsters[ci].hp;
        let ghost members_v = members@;
        let ghost cmds_v = self.party_commands@;

        let mut hps: Vec<i32> = Vec::new();
        let mut k: usize = 0;
        while k < members.len()
            invariant
                k <= members@.len(),
                hps@.len() == k,
                forall|j: int| 0 <= j < k ==> hps@[j] == #[trigger] members@[j].hp,
            decreases members@.len() - k,
        {
            hps.push(members[k].hp);
            k = k + 1;
        }
        proof {
            assert(ints(hps@) =~= member_hps(members@));
            assert forall|i: int| 0 <= i < hps@.len() implies #[trigger] hps@[i] * 100 <= i32::MAX by {
                assert(member_fits(members@[i]));
            }
            assert forall|i: int| 0 <= i < hps@.len() implies i32::MIN <= members@[i].max_hp - #[trigger] hps@[i] by {
                assert(member_fits(members@[i]));
            }
        }

        let action = match self.player_action {
            Some(a) => a,
            None => PlayerBattleAction::Attack,
        };
        let first = player_turn_step(action, mon, mon_hp0, members, &hps, skills, rng);
        let ended = first.monster_defeated || first.flee_success;
        let ghost first_v = first@;
        let mut steps: Vec<BattleStep> = Vec::new();
        if ended {
            steps.push(first);
            proof {
                assert(steps_view(steps@) =~= seq![first_v]);
            }
        } else {
            let mut mon_hp: i32 = match first.monster_damage {
                Some(d) => {
                    let h = mon_hp0 - d;
                    if h > 0 { h } else { 0 }
                },
                None => mon_hp0,
            };
            match first.member_heal {
                Some((t, h)) => {
                    let v = hps[t] + h;
                    hps.set(t, v);
                },
                None => {},
            }
            let defending = action == PlayerBattleAction::Defend;
            let ghost heal_hps = ints(hps@);
            let ghost hp1 = mon_hp as int;
            let ghost mon_v = mon@;
            let ghost mut done: Seq<StepView> = Seq::empty();
            proof {
                assert(heal_hps =~= hps_after_heal(member_hps(members@), first_v));
                assert(hp1 == monster_hp_after(mon_hp0 as int, first_v));
            }
            steps.push(first);
            proof {
                assert(steps_view(steps@) =~= seq![first_v] + done);
            }
            let mut i: usize = 1;
            while i < members.len() && mon_hp > 0
                invariant
                    1 <= i,
                    members@ == members_v,
                    hps@.len() == members@.len(),
                    heal_hps == ints(hps@),
                    mon_hp >= i32::MIN + 30,
                    mon_v == mon@,
                    self.party_commands@ == cmds_v,
                    steps_view(steps@) == seq![first_v] + done,
                    forall|s: Seq<StepView>|
                        #[trigger] rest_ok(members_v, cmds_v, mon_v, heal_hps, defending, i as int, mon_hp as int, s)
                            ==> rest_ok(members_v, cmds_v, mon_v, heal_hps, defending, 1, hp1, done + s),
                decreases members@.len() - i,
            {
                if hps[i] > 0 {
                    let cmd = command_at_exec(&self.party_commands, i);
                    let outcome = evaluate_command(&members[i], cmd, rng);
                    let ghost o = outcome;
                    let st = companion_turn_step(&members[i], cmd, outcome, mon, mon_hp, rng);
                    let ghost st_v = st@;
                    proof {
                        let m = members@[i as int];
                        let (roll, flavor) = choose|roll: int, flavor: int|
                            1 <= roll <= 100 && 0 <= flavor <= 2 && #[trigger] outcome_for(m, cmd, roll, flavor, o);
                        lemma_reaction_of_outcome(m, cmd, roll, flavor, o);
                        assert(companion_step_for(m, cmd, order_reaction(m, cmd, roll, flavor), mon_v, mon_hp as int, st_v));
                        assert(companion_step_ok(m, cmd, mon_v, mon_hp as int, st_v));
                    }
                    let new_hp: i32 = match st.monster_damage {
                        Some(d) => {
                            let h = mon_hp - d;
                            if h > 0 { h } else { 0 }
                        },
                        None => mon_hp,
                    };
                    proof {
                        assert(new_hp == monster_hp_after(mon_hp as int, st_v));
                        assert forall|s: Seq<StepView>|
                            #[trigger] rest_ok(members_v, cmds_v, mon_v, heal_hps, defending, i + 1, new_hp as int, s)
                            implies rest_ok(members_v, cmds_v, mon_v, heal_hps, defending, 1, hp1, done.push(st_v) + s) by {
                            let t = seq![st_v] + s;
                            assert(t[0] == st_v);
                            assert(t.drop_first() =~= s);
                            assert(rest_ok(members_v, cmds_v, mon_v, heal_hps, defending, i as int, mon_hp as int, t));
                            assert(done + t =~= done.push(st_v) + s);
                        }
                        done = done.push(st_v);
                    }
                    let ghost before = steps@;
                    steps.push(st);
                    mon_hp = new_hp;
                    proof {
                        lemma_steps_view_push(before, st_v, steps@);
                        assert(steps_view(steps@) =~= seq![first_v] + done);
                    }
                } else {
                    proof {
                        assert forall|s: Seq<StepView>|
                            #[trigger] rest_ok(members_v, cmds_v, mon_v, heal_hps, defending, i + 1, mon_hp as int, s)
                            implies rest_ok(members_v, cmds_v, mon_v, heal_hps, defending, 1, hp1, done + s) by {
                            assert(rest_ok(members_v, cmds_v, mon_v, heal_hps, defending, i as int, mon_hp as int, s));
                        }
                    }
                }
                i = i + 1;
            }
            let ghost counter: Seq<StepView> = Seq::empty();
            if mon_hp > 0 {
                match counter_turn_step(members, mon, &hps, defending, rng) {
                    Some(st) => {
                        let ghost before = steps@;
                        proof {
                            counter = seq![st@];
                        }
                        let ghost st_v = st@;
                        steps.push(st);
                        proof {
                            lemma_steps_view_push(before, st_v, steps@);
                        }
                    },
                    None => {},
                }
            }
            proof {
                assert(counter_ok(members_v, mon_v, heal_hps, defending, mon_hp as int, counter));
                assert(rest_ok(members_v, cmds_v, mon_v, heal_hps, defending, i as int, mon_hp as int, counter));
                assert(steps_view(steps@) =~= seq![first_v] + (done + counter));
                assert(steps_view(steps@).drop_first() =~= done + counter);
            }
        }
        self.turn_steps = steps;
        self.phase = BattlePhase::TurnResolving { step_cursor: 0 };
    }

    /// The monster being fought, to change it in place.
    pub fn current_monster_mut(&mut self) -> (r: &mut Monster)
        requires
            old(self).wf(),
        ensures
            *r == old(self).spec_current_monster(),
            final(self).monsters@ == old(self).monsters@.update(old(self).current_index as int, *final(r)),
            final(self).current_index == old(self).current_index,
            final(self).flash_timer == old(self).flash_timer,
            final(self).is_flashing == old(self).is_flashing,
            final(self).phase == old(self).phase,
            final(self).player_action == old(self).player_action,
            final(self).party_commands == old(self).party_commands,
            final(self).turn_steps == old(self).turn_steps,
    {
        let ci = self.current_index;
        &mut self.monsters[ci]
    }

    /// Applies the effects of step `step_idx` of the turn: damage to the
    /// monster (with the hit flash), then damage to a member, then healing
    /// of a member (up to the maximum). A step beyond the log does nothing.
    pub fn apply_step_effects(&mut self, step_idx: usize, members: &mut [PartyMember])
        requires
            old(self).wf(),
            step_idx < old(self).turn_steps@.len() ==> step_fits(
                old(self).spec_current_monster().hp as int,
                old(members)@,
                old(self).turn_steps@[step_idx as int]@,
            ),
        ensures
            final(self).wf(),
            step_idx >= old(self).turn_steps@.len() ==> *final(self) == *old(self) && final(members)@ == old(
                members,
            )@,
            step_idx < old(self).turn_steps@.len() ==> ({
                let st = old(self).turn_steps@[step_idx as int]@;
                &&& final(self).monsters@ == old(self).monsters@.update(
                    old(self).current_index as int,
                    Monster {
                        hp: monster_hp_after(old(self).spec_current_monster().hp as int, st) as i32,
                        ..old(self).spec_current_monster()
                    },
                )
                &&& final(members)@ == members_after_step(old(members)@, st)
                &&& final(self).is_flashing == (old(self).is_flashing || st.monster_damage is Some)
                &&& st.monster_damage is Some ==> final(self).flash_timer.spec_duration()
                    == old(self).flash_timer.spec_duration() && final(self).flash_timer.spec_elapsed() == 0
                    && !final(self).flash_timer.spec_finished()
                &&& st.monster_damage is None ==> final(self).flash_timer == old(self).flash_timer
            }),
            final(self).current_index == old(self).current_index,
            final(self).phase == old(self).phase,
            final(self).player_action == old(self).player_action,
            final(self).party_commands == old(self).party_commands,
            final(self).turn_steps == old(self).turn_steps,
    {
        if step_idx >= self.turn_steps.len() {
            return;
        }
        let monster_dmg = self.turn_steps[step_idx].monster_damage;
        let member_dmg = self.turn_steps[step_idx].member_damage;
        let member_heal = self.turn_steps[step_idx].member_heal;
        let ghost st = self.turn_steps@[step_idx as int]@;
        let ghost m0 = members@;
        match monster_dmg {
            Some(dmg) => {
                self.current_monster_mut().take_damage(dmg);
                self.is_flashing = true;
                self.flash_timer.reset();
            },
            None => {},
        }
        match member_dmg {
            Some((idx, dmg)) => {
                if idx < members.len() {
                    let h = members[idx].hp - dmg;
                    members[idx].hp = if h > 0 { h } else { 0 };
                }
            },
            None => {},
        }
        match member_heal {
            Some((idx, heal)) => {
                if idx < members.len() {
                    let h = members[idx].hp + heal;
                    let cap = members[idx].max_hp;
                    members[idx].hp = if h < cap { h } else { cap };
                }
            },
            None => {},
        }
        proof {
            assert(members@ =~= members_after_step(m0, st));
        }
    }

    /// Applies the effects of every step of the turn, in order.
    pub fn execute_all_steps(&mut self, members: &mut [PartyMember])
        requires
            old(self).wf(),
            steps_fit(
                old(self).spec_current_monster().hp as int,
                old(members)@,
                steps_view(old(self).turn_steps@),
            ),
        ensures
            final(self).wf(),
            final(self).monsters@ == old(self).monsters@.update(
                old(self).current_index as int,
                Monster {
                    hp: monster_hp_after_steps(
                        old(self).spec_current_monster().hp as int,
                        steps_view(old(self).turn_steps@),
                    ) as i32,
                    ..old(self).spec_current_monster()
                },
            ),
            final(members)@ == members_after_steps(old(members)@, steps_view(old(self).turn_steps@)),
            final(self).is_flashing == (old(self).is_flashing || some_strike(steps_view(old(self).turn_steps@))),
            some_strike(steps_view(old(self).turn_steps@)) ==> final(self).flash_timer.spec_duration()
                == old(self).flash_timer.spec_duration() && final(self).flash_timer.spec_elapsed() == 0
                && !final(self).flash_timer.spec_finished(),
            !some_strike(steps_view(old(self).turn_steps@)) ==> final(self).flash_timer == old(self).flash_timer,
            final(self).current_index == old(self).current_index,
            final(self).phase == old(self).phase,
            final(self).player_action == old(self).player_action,
            final(self).party_commands == old(self).party_commands,
            final(self).turn_steps == old(self).turn_steps,
    {
        let ghost all = steps_view(self.turn_steps@);
        let ghost mon0 = self.spec_current_monster();
        let ghost ci = self.current_index as int;
        let ghost monsters0 = self.monsters@;
        let n = self.turn_steps.len();
        let mut i: usize = 0;
        while i < n
            invariant
                i <= n,
                n == self.turn_steps@.len(),
                all == steps_view(self.turn_steps@),
                self.wf(),
                self.current_index == old(self).current_index,
                ci == self.current_index,
                self.turn_steps == old(self).turn_steps,
                self.phase == old(self).phase,
                self.player_action == old(self).player_action,
                self.party_commands == old(self).party_commands,
                steps_fit(mon0.hp as int, old(members)@, all),
                self.monsters@ == monsters0.update(
                    ci,
                    Monster { hp: monster_hp_after_steps(mon0.hp as int, all.take(i as int)) as i32, ..mon0 },
                ),
                mon0 == monsters0[ci],
                ci < monsters0.len(),
                monsters0 == old(self).monsters@,
                members@ == members_after_steps(old(members)@, all.take(i as int)),
                self.is_flashing == (old(self).is_flashing || some_strike(all.take(i as int))),
                some_strike(all.take(i as int)) ==> self.flash_timer.spec_duration()
                    == old(self).flash_timer.spec_duration() && self.flash_timer.spec_elapsed() == 0
                    && !self.flash_timer.spec_finished(),
                !some_strike(all.take(i as int)) ==> self.flash_timer == old(self).flash_timer,
                i32::MIN <= monster_hp_after_steps(mon0.hp as int, all.take(i as int)) <= i32::MAX,
            decreases n - i,
        {
            proof {
                lemma_steps_fit_prefix(mon0.hp as int, old(members)@, all, i + 1);
                assert(all.take(i + 1).drop_last() =~= all.take(i as int));
                assert(all.take(i + 1).last() == all[i as int]);
            }
            self.apply_step_effects(i, members);
            proof {
                let prefix = all.take(i as int);
                let next = all.take(i + 1);
                if some_strike(next) && !some_strike(prefix) {
                    let k = choose|k: int| 0 <= k < next.len() && (#[trigger] next[k]).monster_damage is Some;
                    assert(k == i);
                }
                if some_strike(prefix) {
                    let k = choose|k: int| 0 <= k < prefix.len() && (#[trigger] prefix[k]).monster_damage is Some;
                    assert(next[k] == prefix[k]);
                }
                if all[i as int].monster_damage is Some {
                    assert(next[i as int] == all[i as int]);
                }
                assert(self.monsters@ =~= monsters0.update(
                    ci,
                    Monster { hp: monster_hp_after_steps(mon0.hp as int, next) as i32, ..mon0 },
                ));
            }
            i = i + 1;
        }
        proof {
            assert(all.take(n as int) =~= all);
        }
    }

    /// Deals `damage` to the current monster and starts the hit flash;
    /// returns the monster's name and whether it fell.
    pub fn apply_damage(&mut self, damage: i32) -> (r: (String, bool))
        requires
            old(self).wf(),
            i32::MIN <= old(self).spec_current_monster().hp - damage <= i32::MAX,
        ensures
            final(self).current_index == old(self).current_index,
            final(self).monsters@ == old(self).monsters@.update(
                old(self).current_index as int,
                Monster {
                    hp: hp_after(old(self).spec_current_monster().hp as int, damage as int) as i32,
                    ..old(self).spec_current_monster()
                },
            ),
            r.0@ == old(self).spec_current_monster().name@,
            r.1 == (hp_after(old(self).spec_current_monster().hp as int, damage as int) <= 0),
            final(self).is_flashing,
            final(self).flash_timer.spec_duration() == old(self).flash_timer.spec_duration(),
            final(self).flash_timer.spec_elapsed() == 0,
            !final(self).flash_timer.spec_finished(),
            final(self).phase == old(self).phase,
            final(self).turn_steps == old(self).turn_steps,
    {
        let ci = self.current_index;
        self.monsters[ci].take_damage(damage);
        let name = self.monsters[ci].name.clone();
        let is_dead = self.monsters[ci].is_dead();
        self.is_flashing = true;
        self.flash_timer.reset();
        (name, is_dead)
    }
}

proof fn lemma_steps_view_push(v: Seq<BattleStep>, x: StepView, w: Seq<BattleStep>)
    requires
        w.len() == v.len() + 1,
        forall|j: int| 0 <= j < v.len() ==> w[j] == v[j],
        w[v.len() as int]@ == x,
    ensures
        steps_view(w) =~= steps_view(v).push(x),
{
}

/// The protagonist's chosen action, an attack when none was chosen.
pub open spec fn action_or_attack(a: Option<PlayerBattleAction>) -> PlayerBattleAction {
    match a {
        Some(x) => x,
        None => PlayerBattleAction::Attack,
    }
}

/// A member's numbers leave room for the turn's arithmetic in `i32`.
pub open spec fn member_fits(m: PartyMember) -> bool {
    m.hp * 100 <= i32::MAX && i32::MIN <= m.max_hp - m.hp
}

/// The order given to member `i`.
fn command_at_exec(cmds: &Vec<Option<PartyCommand>>, i: usize) -> (r: PartyCommand)
    ensures
        r == command_at(cmds@, i as int),
{
    if i < cmds.len() {
        match cmds[i] {
            Some(c) => c,
            None => PartyCommand::Attack,
        }
    } else {
        PartyCommand::Attack
    }
}

// ---------------------------------------------------------------------------
// Monsters of the capital's surroundings.
// ---------------------------------------------------------------------------

pub const SLIME_ART: &'static str = r#"
        /\
       /  \
      /    \
    .( o  o ).
   (   .__.   )
    `--------'
"#;

pub const SKELETON_ART: &'static str = r#"
     .-""""-.
    /        \
   /_O      O_\
     \  ||  /
      `===='
    .-'|  |'-.
   /   |  |   \
"#;

pub const BEAR_ART: &'static str = r#"
   ((.-.))  ((.-.))
    /   `    '   \
   |  (o)    (o)  |
   |      V       |
    \   `----'   /
     \  |    |  /
"#;

pub const BANDIT_ART: &'static str = r#"
      .-----.
     /_______\
    ( | o o | )
     \   =   /
    .-'--+--'-.
   /  |  |  |  \
"#;

/// The monsters met first, in order of appearance.
pub fn create_default_monsters() -> (r: Vec<Monster>)
    ensures
        r@.len() == 4,
        r@[0].name@ == "スライムグリフ"@ && r@[0].hp == 24 && r@[0].max_hp == 24 && r@[0].glyph_art == SLIME_ART,
        r@[1].name@ == "がいこつせんし"@ && r@[1].hp == 36 && r@[1].max_hp == 36 && r@[1].glyph_art == SKELETON_ART,
        r@[2].name@ == "キラーベア"@ && r@[2].hp == 50 && r@[2].max_hp == 50 && r@[2].glyph_art == BEAR_ART,
        r@[3].name@ == "山賊のとうぞく"@ && r@[3].hp == 42 && r@[3].max_hp == 42 && r@[3].glyph_art == BANDIT_ART,
{
    let mut r: Vec<Monster> = Vec::new();
    r.push(Monster::new("スライムグリフ", 24, SLIME_ART));
    r.push(Monster::new("がいこつせんし", 36, SKELETON_ART));
    r.push(Monster::new("キラーベア", 50, BEAR_ART));
    r.push(Monster::new("山賊のとうぞく", 42, BANDIT_ART));
    r
}

// ---------------------------------------------------------------------------
// Laws of a turn.
// ---------------------------------------------------------------------------

/// No step of the sequence but possibly the last ends the battle in any way.
pub open spec fn only_last_decisive(steps: Seq<StepView>) -> bool {
    forall|k: int|
        0 <= k < steps.len() - 1 ==> !(#[trigger] steps[k]).monster_defeated && !steps[k].player_defeated
            && !steps[k].flee_success
}

proof fn lemma_monster_hp_after_steps_cons(mon_hp: int, x: StepView, s: Seq<StepView>)
    ensures
        monster_hp_after_steps(mon_hp, seq![x] + s) == monster_hp_after_steps(monster_hp_after(mon_hp, x), s),
    decreases s.len(),
{
    let t = seq![x] + s;
    if s.len() == 0 {
        assert(t.drop_last() =~= Seq::<StepView>::empty());
        assert(t.last() == x);
        assert(monster_hp_after_steps(mon_hp, t.drop_last()) == mon_hp);
    } else {
        assert(t.drop_last() =~= seq![x] + s.drop_last());
        assert(t.last() == s.last());
        lemma_monster_hp_after_steps_cons(mon_hp, x, s.drop_last());
    }
}

proof fn lemma_rest_shape(
    members: Seq<PartyMember>,
    cmds: Seq<Option<PartyCommand>>,
    mon: Seq<char>,
    hps: Seq<int>,
    defending: bool,
    i: int,
    mon_hp: int,
    steps: Seq<StepView>,
)
    requires
        rest_ok(members, cmds, mon, hps, defending, i, mon_hp, steps),
    ensures
        only_last_decisive(steps),
        forall|k: int| 0 <= k < steps.len() ==> (#[trigger] steps[k]).member_heal is None && !steps[k].flee_success,
        mon_hp > 0 ==> (monster_hp_after_steps(mon_hp, steps) <= 0 <==> (steps.len() > 0
            && steps.last().monster_defeated)),
        mon_hp <= 0 ==> steps.len() == 0,
    decreases hps.len() - i,
{
    if i >= hps.len() || mon_hp <= 0 || i < 0 {
        if steps.len() == 1 {
            assert(steps.drop_last() =~= Seq::<StepView>::empty());
            assert(steps.last() == steps[0]);
            assert(steps[0].monster_damage is None && !steps[0].monster_defeated);
            assert(monster_hp_after_steps(mon_hp, steps.drop_last()) == mon_hp);
        }
    } else if hps[i] <= 0 {
        lemma_rest_shape(members, cmds, mon, hps, defending, i + 1, mon_hp, steps);
    } else {
        let x = steps[0];
        let rest = steps.drop_first();
        let hp2 = monster_hp_after(mon_hp, x);
        let (roll, flavor) = choose|roll: int, flavor: int|
            1 <= roll <= 100 && 0 <= flavor <= 2 && companion_step_for(
                members[i],
                command_at(cmds, i),
                #[trigger] order_reaction(members[i], command_at(cmds, i), roll, flavor),
                mon,
                mon_hp,
                x,
            );
        lemma_rest_shape(members, cmds, mon, hps, defending, i + 1, hp2, rest);
        assert(steps =~= seq![x] + rest);
        lemma_monster_hp_after_steps_cons(mon_hp, x, rest);
        assert(x.monster_defeated <==> hp2 <= 0);
        assert forall|k: int| 0 <= k < steps.len() - 1 implies !(#[trigger] steps[k]).monster_defeated
            && !steps[k].player_defeated && !steps[k].flee_success by {
            if k > 0 {
                assert(steps[k] == rest[k - 1]);
            }
        }
        assert forall|k: int| 0 <= k < steps.len() implies (#[trigger] steps[k]).member_heal is None
            && !steps[k].flee_success by {
            if k > 0 {
                assert(steps[k] == rest[k - 1]);
            }
        }
        if rest.len() > 0 {
            assert(steps.last() == rest.last());
        } else {
            assert(steps.last() == x);
            assert(monster_hp_after_steps(hp2, rest) == hp2);
        }
    }
}

/// A turn always logs at least one step, and only its last step can end the
/// battle: a fallen monster, a fallen protagonist or an escape. When the
/// monster stood at the start, it has fallen after the turn's damage exactly
/// when the last step says so.
pub proof fn lemma_turn_ends_only_at_last_step(
    action: PlayerBattleAction,
    cmds: Seq<Option<PartyCommand>>,
    mon: Seq<char>,
    mon_hp: int,
    members: Seq<PartyMember>,
    skills: PlayerSkills,
    steps: Seq<StepView>,
)
    requires
        turn_ok(action, cmds, mon, mon_hp, members, skills, steps),
    ensures
        steps.len() >= 1,
        only_last_decisive(steps),
        mon_hp > 0 ==> (monster_hp_after_steps(mon_hp, steps) <= 0 <==> steps.last().monster_defeated),
{
    let x = steps[0];
    let rest = steps.drop_first();
    assert(steps =~= seq![x] + rest);
    lemma_monster_hp_after_steps_cons(mon_hp, x, rest);
    if x.monster_defeated || x.flee_success {
        assert(rest.len() == 0);
        assert(steps.last() == x);
    } else {
        let hps1 = hps_after_heal(member_hps(members), x);
        let hp1 = monster_hp_after(mon_hp, x);
        lemma_rest_shape(members, cmds, mon, hps1, action == PlayerBattleAction::Defend, 1, hp1, rest);
        assert forall|k: int| 0 <= k < steps.len() - 1 implies !(#[trigger] steps[k]).monster_defeated
            && !steps[k].player_defeated && !steps[k].flee_success by {
            if k > 0 {
                assert(steps[k] == rest[k - 1]);
            }
        }
        if rest.len() > 0 {
            assert(steps.last() == rest.last());
        } else {
            assert(steps.last() == x);
        }
        if mon_hp > 0 && hp1 <= 0 {
            assert(x.monster_defeated);
        }
    }
}

/// A herb is only ever used by the protagonist, on the turn's first step,
/// and only on a member who is still standing: the fallen are never revived.
pub proof fn lemma_herb_never_revives(
    action: PlayerBattleAction,
    cmds: Seq<Option<PartyCommand>>,
    mon: Seq<char>,
    mon_hp: int,
    members: Seq<PartyMember>,
    skills: PlayerSkills,
    steps: Seq<StepView>,
)
    requires
        turn_ok(action, cmds, mon, mon_hp, members, skills, steps),
    ensures
        forall|k: int|
            0 <= k < steps.len() ==> ((#[trigger] steps[k]).member_heal matches Some((t, h)) ==> k == 0
                && action == PlayerBattleAction::UseItem && 0 <= t < members.len() && members[t as int].hp
                > 0),
{
    let x = steps[0];
    let rest = steps.drop_first();
    if !(x.monster_defeated || x.flee_success) {
        let hps1 = hps_after_heal(member_hps(members), x);
        let hp1 = monster_hp_after(mon_hp, x);
        lemma_rest_shape(members, cmds, mon, hps1, action == PlayerBattleAction::Defend, 1, hp1, rest);
        assert forall|k: int| 0 < k < steps.len() implies (#[trigger] steps[k]).member_heal is None by {
            assert(steps[k] == rest[k - 1]);
        }
    }
    if x.member_heal is Some {
        let pair = x.member_heal->0;
        assert(member_hps(members)[pair.0 as int] > 0);
    }
}

/// Every step of the companions' part of a turn deals positive damage, and
/// the monster only hits members standing in `hps`.
proof fn lemma_rest_amounts(
    members: Seq<PartyMember>,
    cmds: Seq<Option<PartyCommand>>,
    mon: Seq<char>,
    hps: Seq<int>,
    defending: bool,
    i: int,
    mon_hp: int,
    steps: Seq<StepView>,
)
    requires
        rest_ok(members, cmds, mon, hps, defending, i, mon_hp, steps),
    ensures
        forall|k: int|
            0 <= k < steps.len() ==> ((#[trigger] steps[k]).monster_damage matches Some(d) ==> d > 0),
        forall|k: int|
            0 <= k < steps.len() ==> ((#[trigger] steps[k]).member_damage matches Some((t, d)) ==> 0 <= t
                < hps.len() && hps[t as int] > 0 && d > 0),
    decreases hps.len() - i,
{
    if i >= hps.len() || mon_hp <= 0 || i < 0 {
    } else if hps[i] <= 0 {
        lemma_rest_amounts(members, cmds, mon, hps, defending, i + 1, mon_hp, steps);
    } else {
        let x = steps[0];
        let rest = steps.drop_first();
        let c = command_at(cmds, i);
        let (roll, flavor) = choose|roll: int, flavor: int|
            1 <= roll <= 100 && 0 <= flavor <= 2 && companion_step_for(
                members[i],
                c,
                #[trigger] order_reaction(members[i], c, roll, flavor),
                mon,
                mon_hp,
                x,
            );
        lemma_rest_amounts(members, cmds, mon, hps, defending, i + 1, monster_hp_after(mon_hp, x), rest);
        assert(x.member_damage is None);
        assert forall|k: int| 0 < k < steps.len() implies #[trigger] steps[k] == rest[k - 1] by {}
    }
}

/// Every step of a turn that hurts the monster deals positive damage; the
/// monster only ever hits a member who is standing at the start of the turn,
/// for positive damage; and a herb heals a standing member by at most 20,
/// never past the member's maximum.
pub proof fn lemma_turn_amounts(
    action: PlayerBattleAction,
    cmds: Seq<Option<PartyCommand>>,
    mon: Seq<char>,
    mon_hp: int,
    members: Seq<PartyMember>,
    skills: PlayerSkills,
    steps: Seq<StepView>,
)
    requires
        turn_ok(action, cmds, mon, mon_hp, members, skills, steps),
        forall|i: int| 0 <= i < members.len() ==> 0 <= (#[trigger] members[i]).hp <= members[i].max_hp,
    ensures
        forall|k: int|
            0 <= k < steps.len() ==> ((#[trigger] steps[k]).monster_damage matches Some(d) ==> d > 0),
        forall|k: int|
            0 <= k < steps.len() ==> ((#[trigger] steps[k]).member_damage matches Some((t, d)) ==> 0 <= t
                < members.len() && members[t as int].hp > 0 && d > 0),
        forall|k: int|
            0 <= k < steps.len() ==> ((#[trigger] steps[k]).member_heal matches Some((t, h)) ==> 0 <= t
                < members.len() && members[t as int].hp > 0 && 0 <= h <= 20 && members[t as int].hp + h
                <= members[t as int].max_hp),
{
    let x = steps[0];
    let rest = steps.drop_first();
    let hps0 = member_hps(members);
    lemma_herb_never_revives(action, cmds, mon, mon_hp, members, skills, steps);
    if x.member_heal is Some {
        let pair = x.member_heal->0;
        let t = pair.0 as int;
        assert(hps0[t] == members[t].hp);
        assert(pair.1 == herb_amount(members[t], hps0[t]));
    }
    if !(x.monster_defeated || x.flee_success) {
        let hps1 = hps_after_heal(hps0, x);
        let hp1 = monster_hp_after(mon_hp, x);
        lemma_rest_amounts(members, cmds, mon, hps1, action == PlayerBattleAction::Defend, 1, hp1, rest);
        assert forall|k: int| 0 < k < steps.len() implies #[trigger] steps[k] == rest[k - 1] by {}
        assert forall|t: int| 0 <= t < hps1.len() && hps1[t] > 0 implies members[t].hp > 0 by {
            assert(hps0[t] == members[t].hp);
            if x.member_heal is Some {
                let pair = x.member_heal->0;
                if t != pair.0 as int {
                    assert(hps1[t] == hps0[t]);
                }
            }
        }
    }
}

proof fn lemma_rest_ranges(
    members: Seq<PartyMember>,
    cmds: Seq<Option<PartyCommand>>,
    mon: Seq<char>,
    hps: Seq<int>,
    defending: bool,
    i: int,
    mon_hp: int,
    steps: Seq<StepView>,
)
    requires
        rest_ok(members, cmds, mon, hps, defending, i, mon_hp, steps),
    ensures
        forall|k: int|
            0 <= k < steps.len() ==> ((#[trigger] steps[k]).monster_damage matches Some(d) ==> 8 <= d <= 30),
        forall|k: int|
            0 <= k < steps.len() ==> ((#[trigger] steps[k]).member_damage matches Some((t, d)) ==> if t == 0 {
                if defending { 2 <= d <= 5 } else { 5 <= d <= 10 }
            } else {
                5 <= d <= 12
            }),
    decreases hps.len() - i,
{
    if i >= hps.len() || mon_hp <= 0 || i < 0 {
    } else if hps[i] <= 0 {
        lemma_rest_ranges(members, cmds, mon, hps, defending, i + 1, mon_hp, steps);
    } else {
        let x = steps[0];
        let rest = steps.drop_first();
        let c = command_at(cmds, i);
        let (roll, flavor) = choose|roll: int, flavor: int|
            1 <= roll <= 100 && 0 <= flavor <= 2 && companion_step_for(
                members[i],
                c,
                #[trigger] order_reaction(members[i], c, roll, flavor),
                mon,
                mon_hp,
                x,
            );
        lemma_rest_ranges(members, cmds, mon, hps, defending, i + 1, monster_hp_after(mon_hp, x), rest);
        assert(x.member_damage is None);
        assert forall|k: int| 0 < k < steps.len() implies #[trigger] steps[k] == rest[k - 1] by {}
    }
}

/// How hard each blow of a turn lands: the protagonist's stone 2 to 5;
/// a companion's blow 8 to 30 (attack 8-14, spell 14-22, rampage 16-24,
/// desperate attack 20-30); the monster's blow 5 to 10 on the protagonist,
/// only 2 to 5 when the protagonist guards, and 5 to 12 on a companion.
pub proof fn lemma_turn_damage_ranges(
    action: PlayerBattleAction,
    cmds: Seq<Option<PartyCommand>>,
    mon: Seq<char>,
    mon_hp: int,
    members: Seq<PartyMember>,
    skills: PlayerSkills,
    steps: Seq<StepView>,
)
    requires
        turn_ok(action, cmds, mon, mon_hp, members, skills, steps),
    ensures
        action == PlayerBattleAction::Attack ==> (steps[0].monster_damage matches Some(d) && 2 <= d <= 5),
        action != PlayerBattleAction::Attack ==> steps[0].monster_damage is None,
        forall|k: int|
            1 <= k < steps.len() ==> ((#[trigger] steps[k]).monster_damage matches Some(d) ==> 8 <= d <= 30),
        forall|k: int|
            0 <= k < steps.len() ==> ((#[trigger] steps[k]).member_damage matches Some((t, d)) ==> if t == 0 {
                if action == PlayerBattleAction::Defend { 2 <= d <= 5 } else { 5 <= d <= 10 }
            } else {
                5 <= d <= 12
            }),
{
    let x = steps[0];
    let rest = steps.drop_first();
    if action == PlayerBattleAction::Diagnose && has_living(member_hps(members), 1) {
        let (t, eye_roll, magic_roll) = choose|t: int, eye_roll: int, magic_roll: int|
            1 <= t < member_hps(members).len() && member_hps(members)[t] > 0 && 1 <= eye_roll <= 100 && 1
                <= magic_roll <= 100 && x == message_step(
                observe_text(
                    members[t].name@,
                    observation_text(members[t].name@, members[t].mental_state, members[t].personality),
                    #[trigger] observed_conclusion(skills, members[t], eye_roll, magic_roll),
                ),
            );
    }
    if !(x.monster_defeated || x.flee_success) {
        let hps1 = hps_after_heal(member_hps(members), x);
        let hp1 = monster_hp_after(mon_hp, x);
        lemma_rest_ranges(members, cmds, mon, hps1, action == PlayerBattleAction::Defend, 1, hp1, rest);
        assert forall|k: int| 0 < k < steps.len() implies #[trigger] steps[k] == rest[k - 1] by {}
    }
}

} // verus!
