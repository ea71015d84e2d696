//! Keys during a battle: giving the protagonist's action and the companions'
//! orders, playing the turn out step by step, and coming back after a win,
//! a flight or a defeat.

use super::{is_advance, AppMode, Key};
use crate::battle::{
    action_or_attack, has_living, member_fits, member_hps, members_after_step, message_step, monster_hp_after,
    observe_text, observed_conclusion, step_fits, steps_view, turn_ok, BattlePhase, BattleState, BattleStep, Monster,
    StepView,
};
use crate::party::diagnosis::observation_text;
use crate::party::inventory::{first_index_of, strings_view};
use crate::party::{PartyCommand, PartyMember, PartyState, PlayerBattleAction, PlayerInventory, PlayerSkills};
use crate::text::string_of;
use crate::town::{AreaId, Position, TownState, TileType};
use rand::rngs::StdRng;
use vstd::prelude::*;

verus! {

/// The first member at `start` or later who still stands.
pub open spec fn spec_next_alive(members: Seq<PartyMember>, start: int) -> Option<int>
    decreases members.len() - start,
{
    if start >= members.len() || start < 0 {
        None
    } else if members[start].hp > 0 {
        Some(start)
    } else {
        spec_next_alive(members, start + 1)
    }
}

/// The last index before `c` that is the protagonist's or a standing member's.
pub open spec fn spec_prev_alive(members: Seq<PartyMember>, c: int) -> int
    decreases c,
{
    if c <= 1 {
        0
    } else if members[c - 1].hp > 0 {
        c - 1
    } else {
        spec_prev_alive(members, c - 1)
    }
}

/// The first member at `start_idx` or later who still stands.
pub fn next_alive_member(members: &[PartyMember], start_idx: usize) -> (r: Option<usize>)
    ensures
        r is None <==> spec_next_alive(members@, start_idx as int) is None,
        r matches Some(i) ==> spec_next_alive(members@, start_idx as int) == Some(i as int) && start_idx <= i
            < members@.len() && members@[i as int].hp > 0,
    decreases members@.len() - start_idx,
{
    if start_idx >= members.len() {
        None
    } else if members[start_idx].hp > 0 {
        Some(start_idx)
    } else {
        next_alive_member(members, start_idx + 1)
    }
}

/// The last index before `c` that is the protagonist's or a standing member's.
fn prev_alive_member(members: &Vec<PartyMember>, c: usize) -> (r: usize)
    requires
        c <= members@.len(),
    ensures
        r == spec_prev_alive(members@, c as int),
        r < c || c == 0,
    decreases c,
{
    if c <= 1 {
        0
    } else if members[c - 1].hp > 0 {
        c - 1
    } else {
        prev_alive_member(members, c - 1)
    }
}

// ---------------------------------------------------------------------------
// Messages.
// ---------------------------------------------------------------------------

pub open spec fn left_text(area: AreaId) -> Seq<char> {
    "戦闘を離脱し、"@ + area.spec_name() + "へ戻った。\n[WASD]で歩き回れる。"@
}

pub open spec fn new_monster_text(name: Seq<char>) -> Seq<char> {
    "あらたな　魔物【"@ + name + "】が　あらわれた！\nあなたの行動を選択してください。"@
}

pub open spec fn no_herb_text() -> Seq<char> {
    "やくそうを持っていません！\n別の行動を選択してください。"@
}

/// The start of the message after the protagonist's action was chosen.
pub open spec fn chose_action_lead(a: PlayerBattleAction) -> Seq<char> {
    "あなた:「"@ + a.spec_name() + "」を選択した。\n続いて、"@
}

/// The start of the message after member `cur` was given `c`.
pub open spec fn ordered_lead(cur: Seq<char>, c: PartyCommand) -> Seq<char> {
    cur + ":「"@ + c.spec_name() + "」を指示した。\n続いて、"@
}

/// The message asking for the next member's order.
pub open spec fn ask_next_text(lead: Seq<char>, next: Seq<char>) -> Seq<char> {
    lead + next + " への指示を選択してください。"@
}

pub open spec fn back_text(name: Seq<char>) -> Seq<char> {
    name + " の行動選択に戻りました。"@
}

/// The ending of a shown step: the way back after a kill, or "next".
pub open spec fn step_suffix(defeated: bool) -> Seq<char> {
    if defeated {
        "\n魔物をたおした！([Space]で探索へ復帰)"@
    } else {
        "\n([Space]で次へ)"@
    }
}

pub open spec fn turn_start_text(step_msg: Seq<char>, defeated: bool) -> Seq<char> {
    "【ターン開始！】\n\n"@ + step_msg + step_suffix(defeated)
}

pub open spec fn victory_text(mon: Seq<char>, area: AreaId) -> Seq<char> {
    "魔物【"@ + mon + "】を撃破した！\n戦闘に勝利し、"@ + area.spec_name() + "の探索に戻った。\n[WASD]で歩き回れる。"@
}

pub open spec fn defeat_text() -> Seq<char> {
    "あなた（一般人）は力尽きてしまった……！\nパーティは壊滅した。\n[Space] または [B] で宿屋へ戻る。"@
}

pub open spec fn fled_text(area: AreaId) -> Seq<char> {
    "脱出に成功し、"@ + area.spec_name() + "の安全な場所へ逃げ戻った！"@
}

pub open spec fn next_turn_text() -> Seq<char> {
    "次のターン！ あなたの行動を選択してください。"@
}

pub open spec fn revived_text() -> Seq<char> {
    "教会の神父に助け出され、王都の宿屋で目覚めた……\n（HP/MP全回復）"@
}

/// `r` is the message `m`.
pub open spec fn says(r: Option<String>, m: Seq<char>) -> bool {
    r matches Some(s) && s@ == m
}

// ---------------------------------------------------------------------------
// What the keys do, step by step.
// ---------------------------------------------------------------------------

/// The action a key picks for the protagonist.
pub open spec fn spec_chosen_action(k: Key) -> Option<PlayerBattleAction> {
    match k {
        Key::Digit1 => Some(PlayerBattleAction::Attack),
        Key::Digit2 => Some(PlayerBattleAction::Defend),
        Key::Digit3 => Some(PlayerBattleAction::UseItem),
        Key::Digit4 => Some(PlayerBattleAction::Diagnose),
        Key::Digit5 => Some(PlayerBattleAction::Flee),
        _ => None,
    }
}

/// The order a key gives a companion.
pub open spec fn spec_chosen_command(k: Key) -> Option<PartyCommand> {
    match k {
        Key::Digit1 => Some(PartyCommand::Attack),
        Key::Digit2 => Some(PartyCommand::Defend),
        Key::Digit3 => Some(PartyCommand::DesperateAttack),
        Key::Digit4 => Some(PartyCommand::CastSpell),
        _ => None,
    }
}

/// The orders after member `c` was given `cmd` (the list grows as needed).
pub open spec fn commands_with(
    cmds: Seq<Option<PartyCommand>>,
    c: int,
    cmd: PartyCommand,
) -> Seq<Option<PartyCommand>> {
    Seq::new(
        if c < cmds.len() { cmds.len() } else { (c + 1) as nat },
        |j: int|
            if j == c {
                Some(cmd)
            } else if j < cmds.len() {
                cmds[j]
            } else {
                None
            },
    )
}

/// `nb` waits for new orders from the protagonist, `n` members strong.
pub open spec fn commands_reset(ob: BattleState, nb: BattleState, n: nat) -> bool {
    &&& nb.phase == (BattlePhase::CommandInput { member_cursor: 0 })
    &&& nb.player_action is None
    &&& nb.party_commands@ == Seq::new(n, |i: int| None::<PartyCommand>)
    &&& nb.turn_steps@.len() == 0
    &&& nb.current_index == ob.current_index
    &&& nb.monsters == ob.monsters
    &&& nb.flash_timer == ob.flash_timer
    &&& nb.is_flashing == ob.is_flashing
}

/// `nb` faces the next monster, at full health, waiting for orders.
pub open spec fn next_monster_up(ob: BattleState, nb: BattleState, n: nat) -> bool {
    let ni = (ob.current_index + 1) % (ob.monsters@.len() as int);
    &&& nb.wf()
    &&& nb.current_index == ni
    &&& nb.monsters@ == ob.monsters@.update(ni, Monster { hp: ob.monsters@[ni].max_hp, ..ob.monsters@[ni] })
    &&& nb.phase == (BattlePhase::CommandInput { member_cursor: 0 })
    &&& nb.player_action is None
    &&& nb.party_commands@ == Seq::new(n, |i: int| None::<PartyCommand>)
    &&& nb.turn_steps@.len() == 0
}

/// `nt` is `ot` after the defeated monster's symbol (if it still stands
/// where the battle started) became floor; the position is forgotten.
pub open spec fn monster_cleared(ot: TownState, nt: TownState) -> bool {
    let hit = ot.last_encounter_pos matches Some(p) && ot.map.spec_get(p.x as int, p.y as int) == Some(
        TileType::MonsterSymbol,
    );
    &&& nt.wf()
    &&& nt.last_encounter_pos is None
    &&& hit ==> ({
        let p = ot.last_encounter_pos->0;
        &&& nt.map.is_set_of(ot.map, p.x as int, p.y as int, TileType::DungeonFloor)
        &&& nt.fov_current()
        &&& nt.dirty
    })
    &&& !hit ==> nt.map == ot.map && nt.fov == ot.fov && nt.dirty == ot.dirty
    &&& nt.current_area == ot.current_area
    &&& nt.player_pos == ot.player_pos
    &&& nt.player_facing == ot.player_facing
    &&& nt.followers == ot.followers
    &&& nt.torch_active == ot.torch_active
    &&& nt.debug_see_all == ot.debug_see_all
}

/// The turn was built from `ob`'s orders and its first step played.
pub open spec fn turn_started(
    ob: BattleState,
    om: Seq<PartyMember>,
    skills: PlayerSkills,
    nb: BattleState,
    nm: Seq<PartyMember>,
    r: Option<String>,
) -> bool {
    let mon = ob.spec_current_monster();
    let steps = steps_view(nb.turn_steps@);
    &&& nb.wf()
    &&& nb.phase == (BattlePhase::TurnResolving { step_cursor: 0 })
    &&& turn_ok(action_or_attack(ob.player_action), ob.party_commands@, mon.name@, mon.hp as int, om, skills, steps)
    &&& nb.current_index == ob.current_index
    &&& nb.monsters@ == ob.monsters@.update(
        ob.current_index as int,
        Monster { hp: monster_hp_after(mon.hp as int, steps[0]) as i32, ..mon },
    )
    &&& nm == members_after_step(om, steps[0])
    &&& nb.player_action == ob.player_action
    &&& nb.party_commands == ob.party_commands
    &&& says(r, turn_start_text(steps[0].message, steps[0].monster_defeated))
}

/// After the order (or action) was taken: on to the next standing member
/// at `from` or later, or, when none is left, the turn starts.
pub open spec fn orders_go_on(
    ob: BattleState,
    om: Seq<PartyMember>,
    skills: PlayerSkills,
    nb: BattleState,
    nm: Seq<PartyMember>,
    from: int,
    r: Option<String>,
    lead: Seq<char>,
) -> bool {
    match spec_next_alive(om, from) {
        Some(i) => {
            &&& nb == BattleState { phase: BattlePhase::CommandInput { member_cursor: i as usize }, ..ob }
            &&& nm == om
            &&& says(r, ask_next_text(lead, om[i].name@))
        },
        None => turn_started(ob, om, skills, nb, nm, r),
    }
}

/// What a key does while the orders are being given, the cursor on member `c`.
pub open spec fn command_key_done(
    k: Key,
    c: int,
    om: Seq<PartyMember>,
    oi: PlayerInventory,
    skills: PlayerSkills,
    ob: BattleState,
    nm: Seq<PartyMember>,
    ni: PlayerInventory,
    nb: BattleState,
    r: Option<String>,
) -> bool {
    if c == 0 {
        match spec_chosen_action(k) {
            None => nb == ob && nm == om && ni == oi && r is None,
            Some(a) => {
                let herb = "やくそう"@;
                let has_herb = strings_view(oi.items@).contains(herb);
                if a == PlayerBattleAction::UseItem && !has_herb {
                    nb == ob && nm == om && ni == oi && says(r, no_herb_text())
                } else {
                    &&& ni.gold == oi.gold
                    &&& ni.topics@ == oi.topics@
                    &&& strings_view(ni.items@) == if a == PlayerBattleAction::UseItem {
                        strings_view(oi.items@).remove(first_index_of(strings_view(oi.items@), herb))
                    } else {
                        strings_view(oi.items@)
                    }
                    &&& orders_go_on(
                        BattleState { player_action: Some(a), ..ob },
                        om,
                        skills,
                        nb,
                        nm,
                        1,
                        r,
                        chose_action_lead(a),
                    )
                }
            },
        }
    } else if c < om.len() {
        &&& ni == oi
        &&& match spec_chosen_command(k) {
            Some(cmd) => orders_go_on(
                BattleState { party_commands: nb.party_commands, ..ob },
                om,
                skills,
                nb,
                nm,
                c + 1,
                r,
                ordered_lead(om[c].name@, cmd),
            ) && nb.party_commands@ == commands_with(ob.party_commands@, c, cmd),
            None => if k == Key::Escape {
                let p = spec_prev_alive(om, c);
                &&& nb == BattleState { phase: BattlePhase::CommandInput { member_cursor: p as usize }, ..ob }
                &&& nm == om
                &&& says(r, back_text(om[p].name@))
            } else {
                nb == ob && nm == om && r is None
            },
        }
    } else {
        nb == ob && nm == om && ni == oi && r is None
    }
}

/// Back to exploring after leaving or fleeing: nothing remembered, orders cleared.
pub open spec fn battle_left(nmode: AppMode, ob: BattleState, nb: BattleState, ot: TownState, nt: TownState, n: nat) -> bool {
    &&& nmode == AppMode::Town
    &&& nt == TownState { last_encounter_pos: None, ..ot }
    &&& commands_reset(ob, nb, n)
}

/// Back to exploring after a win: the next monster waits, the symbol is gone.
pub open spec fn battle_won(nmode: AppMode, ob: BattleState, nb: BattleState, ot: TownState, nt: TownState, n: nat) -> bool {
    &&& nmode == AppMode::Town
    &&& next_monster_up(ob, nb, n)
    &&& monster_cleared(ot, nt)
}

/// What Space or Enter does while the turn plays out at step `c`.
pub open spec fn turn_key_done(
    c: int,
    omode: AppMode,
    om: Seq<PartyMember>,
    ob: BattleState,
    ot: TownState,
    nmode: AppMode,
    nm: Seq<PartyMember>,
    nb: BattleState,
    nt: TownState,
    r: Option<String>,
) -> bool {
    let steps = steps_view(ob.turn_steps@);
    let st = steps[c];
    let n = om.len();
    if st.monster_defeated {
        battle_won(nmode, ob, nb, ot, nt, n) && nm == om && says(r, victory_text(ob.spec_current_monster().name@, ot.current_area))
    } else if st.player_defeated {
        nmode == omode && nb == BattleState { phase: BattlePhase::Defeat, ..ob } && nm == om && nt == ot
            && says(r, defeat_text())
    } else if st.flee_success {
        battle_left(nmode, ob, nb, ot, nt, n) && nm == om && says(r, fled_text(ot.current_area))
    } else if c + 1 < steps.len() {
        let next = steps[c + 1];
        let mon = ob.spec_current_monster();
        &&& nmode == omode
        &&& nt == ot
        &&& nb.wf()
        &&& nb.phase == (BattlePhase::TurnResolving { step_cursor: (c + 1) as usize })
        &&& nb.current_index == ob.current_index
        &&& nb.monsters@ == ob.monsters@.update(
            ob.current_index as int,
            Monster { hp: monster_hp_after(mon.hp as int, next) as i32, ..mon },
        )
        &&& nm == members_after_step(om, next)
        &&& nb.turn_steps == ob.turn_steps
        &&& nb.player_action == ob.player_action
        &&& nb.party_commands == ob.party_commands
        &&& says(r, next.message + step_suffix(next.monster_defeated))
    } else if ob.spec_current_monster().hp <= 0 {
        battle_won(nmode, ob, nb, ot, nt, n) && nm == om && says(r, victory_text(ob.spec_current_monster().name@, ot.current_area))
    } else if om[0].hp <= 0 {
        nmode == omode && nb == BattleState { phase: BattlePhase::Defeat, ..ob } && nm == om && nt == ot
            && says(r, defeat_text())
    } else {
        nmode == omode && commands_reset(ob, nb, n) && nm == om && nt == ot && says(r, next_turn_text())
    }
}

/// Everyone healed in full.
pub open spec fn all_healed(om: Seq<PartyMember>, nm: Seq<PartyMember>) -> bool {
    &&& nm.len() == om.len()
    &&& forall|i: int|
        0 <= i < om.len() ==> #[trigger] nm[i] == PartyMember { hp: om[i].max_hp, mp: om[i].max_mp, ..om[i] }
}

/// The state a battle key may be pressed in: the battle and the town are
/// well formed, the party is not empty, orders can be turned into a turn
/// (the monster's and members' numbers leave room for its arithmetic), and
/// while a turn plays out the cursor is on one of its steps and the next
/// step's arithmetic fits.
pub open spec fn battle_input_ready(party: PartyState, battle: BattleState, town: TownState) -> bool {
    &&& battle.wf()
    &&& town.wf()
    &&& party.members@.len() >= 1
    &&& battle.spec_current_monster().hp >= i32::MIN + 30
    &&& forall|i: int| 0 <= i < party.members@.len() ==> member_fits(#[trigger] party.members@[i])
    &&& battle.phase matches BattlePhase::TurnResolving { step_cursor } ==> {
        &&& step_cursor < battle.turn_steps@.len()
        &&& step_cursor + 1 < battle.turn_steps@.len() ==> step_fits(
            battle.spec_current_monster().hp as int,
            party.members@,
            battle.turn_steps@[step_cursor + 1]@,
        )
    }
}

/// What one key does in a battle.
pub open spec fn battle_key_outcome(
    k: Key,
    omode: AppMode,
    op: PartyState,
    oi: PlayerInventory,
    skills: PlayerSkills,
    ob: BattleState,
    ot: TownState,
    nmode: AppMode,
    np: PartyState,
    ni: PlayerInventory,
    nb: BattleState,
    nt: TownState,
    r: Option<String>,
) -> bool {
    let om = op.members@;
    let nm = np.members@;
    let n = om.len();
    &&& np.selected_index == op.selected_index
    &&& np.debug_mode == op.debug_mode
    &&& if k == Key::B {
        battle_left(nmode, ob, nb, ot, nt, n) && nm == om && ni == oi && says(r, left_text(ot.current_area))
    } else if k == Key::N {
        &&& next_monster_up(ob, nb, n)
        &&& nmode == omode && nm == om && ni == oi && nt == ot
        &&& says(r, new_monster_text(nb.spec_current_monster().name@))
    } else {
        match ob.phase {
            BattlePhase::CommandInput { member_cursor } => nmode == omode && nt == ot && command_key_done(
                k,
                member_cursor as int,
                om,
                oi,
                skills,
                ob,
                nm,
                ni,
                nb,
                r,
            ),
            BattlePhase::TurnResolving { step_cursor } => ni == oi && if is_advance(k) {
                turn_key_done(step_cursor as int, omode, om, ob, ot, nmode, nm, nb, nt, r)
            } else {
                nmode == omode && nm == om && nb == ob && nt == ot && r is None
            },
            BattlePhase::Defeat => ni == oi && if is_advance(k) {
                &&& nmode == AppMode::Town
                &&& all_healed(om, nm)
                &&& nt.switched_from(TownState { last_encounter_pos: None, ..ot }, AreaId::Town, Position { x: 3, y: 4 })
                &&& nt.player_facing == ot.player_facing
                &&& commands_reset(ob, nb, n)
                &&& says(r, revived_text())
            } else {
                nmode == omode && nm == om && nb == ob && nt == ot && r is None
            },
        }
    }
}

/// The first step of any turn keeps its arithmetic in `i32`.
proof fn lemma_first_step_fits(
    action: PlayerBattleAction,
    cmds: Seq<Option<PartyCommand>>,
    mon: Seq<char>,
    mon_hp: int,
    members: Seq<PartyMember>,
    skills: PlayerSkills,
    steps: Seq<StepView>,
)
    requires
        turn_ok(action, cmds, mon, mon_hp, members, skills, steps),
        i32::MIN + 30 <= mon_hp <= i32::MAX,
        forall|i: int| 0 <= i < members.len() ==> member_fits(#[trigger] members[i]),
    ensures
        step_fits(mon_hp, members, steps[0]),
{
    let hps = member_hps(members);
    let st = steps[0];
    match action {
        PlayerBattleAction::UseItem => {
            if has_living(hps, 0) {
                let t = (st.member_heal->0).0;
                assert(member_fits(members[t as int]));
            }
        },
        PlayerBattleAction::Diagnose => {
            if has_living(hps, 1) {
                let (t, e, m) = choose|t: int, eye_roll: int, magic_roll: int|
                    1 <= t < hps.len() && hps[t] > 0 && 1 <= eye_roll <= 100 && 1 <= magic_roll <= 100 && st
                        == message_step(
                        observe_text(
                            members[t].name@,
                            observation_text(members[t].name@, members[t].mental_state, members[t].personality),
                            #[trigger] observed_conclusion(skills, members[t], eye_roll, magic_roll),
                        ),
                    );
            }
        },
        _ => {},
    }
}

/// Builds the turn from the orders given and plays its first step; returns
/// the message announcing it.
pub fn start_turn_resolution(
    battle: &mut BattleState,
    members: &mut Vec<PartyMember>,
    skills: &PlayerSkills,
    rng: &mut StdRng,
) -> (r: Option<String>)
    requires
        old(battle).wf(),
        old(battle).spec_current_monster().hp >= i32::MIN + 30,
        forall|i: int| 0 <= i < old(members)@.len() ==> member_fits(#[trigger] old(members)@[i]),
    ensures
        turn_started(*old(battle), old(members)@, *skills, *final(battle), final(members)@, r),
{
    battle.build_turn_resolution(members.as_slice(), skills, rng);
    let ghost mon = old(battle).spec_current_monster();
    proof {
        lemma_first_step_fits(
            action_or_attack(old(battle).player_action),
            old(battle).party_commands@,
            mon.name@,
            mon.hp as int,
            old(members)@,
            *skills,
            steps_view(battle.turn_steps@),
        );
        assert(battle.turn_steps@[0]@ == steps_view(battle.turn_steps@)[0]);
    }
    battle.apply_step_effects(0, members.as_mut_slice());
    let first = &battle.turn_steps[0];
    let mut msg = string_of("【ターン開始！】\n\n");
    msg.append(first.message.as_str());
    if first.monster_defeated {
        msg.append("\n魔物をたおした！([Space]で探索へ復帰)");
    } else {
        msg.append("\n([Space]で次へ)");
    }
    Some(msg)
}

/// Leaves the battle for exploring: nothing remembered, orders cleared.
fn leave_battle(mode: &mut AppMode, n: usize, battle: &mut BattleState, town: &mut TownState)
    ensures
        battle_left(*final(mode), *old(battle), *final(battle), *old(town), *final(town), n as nat),
{
    *mode = AppMode::Town;
    town.last_encounter_pos = None;
    battle.reset_turn_commands(n);
}

/// Wins the battle: the next monster waits and the defeated symbol goes;
/// returns the victory message.
fn win_battle(mode: &mut AppMode, n: usize, battle: &mut BattleState, town: &mut TownState) -> (r: String)
    requires
        old(battle).wf(),
        old(town).wf(),
    ensures
        battle_won(*final(mode), *old(battle), *final(battle), *old(town), *final(town), n as nat),
        r@ == victory_text(old(battle).spec_current_monster().name@, old(town).current_area),
{
    let name = battle.current_monster().name.clone();
    battle.next_monster(n);
    town.clear_defeated_monster();
    *mode = AppMode::Town;
    let mut msg = string_of("魔物【");
    msg.append(name.as_str());
    msg.append("】を撃破した！\n戦闘に勝利し、");
    msg.append(town.current_area.name());
    msg.append("の探索に戻った。\n[WASD]で歩き回れる。");
    msg
}

/// The protagonist's action (the cursor on the protagonist).
fn action_key(
    k: Key,
    members: &mut Vec<PartyMember>,
    inv: &mut PlayerInventory,
    skills: &PlayerSkills,
    battle: &mut BattleState,
    rng: &mut StdRng,
) -> (r: Option<String>)
    requires
        old(battle).wf(),
        old(battle).spec_current_monster().hp >= i32::MIN + 30,
        forall|i: int| 0 <= i < old(members)@.len() ==> member_fits(#[trigger] old(members)@[i]),
    ensures
        command_key_done(k, 0, old(members)@, *old(inv), *skills, *old(battle), final(members)@, *final(inv), *final(battle), r),
{
    let chosen = match k {
        Key::Digit1 => Some(PlayerBattleAction::Attack),
        Key::Digit2 => Some(PlayerBattleAction::Defend),
        Key::Digit3 => {
            if inv.has_item("やくそう") {
                inv.remove_item("やくそう");
                Some(PlayerBattleAction::UseItem)
            } else {
                return Some(string_of("やくそうを持っていません！\n別の行動を選択してください。"));
            }
        },
        Key::Digit4 => Some(PlayerBattleAction::Diagnose),
        Key::Digit5 => Some(PlayerBattleAction::Flee),
        _ => None,
    };
    match chosen {
        None => None,
        Some(action) => {
            let ghost b1 = BattleState { player_action: Some(action), ..*old(battle) };
            battle.player_action = Some(action);
            assert(*battle == b1);
            match next_alive_member(members.as_slice(), 1) {
                Some(next_idx) => {
                    battle.phase = BattlePhase::CommandInput { member_cursor: next_idx };
                    let mut msg = string_of("あなた:「");
                    msg.append(action.name());
                    msg.append("」を選択した。\n続いて、");
                    msg.append(members[next_idx].name.as_str());
                    msg.append(" への指示を選択してください。");
                    assert(msg@ == ask_next_text(chose_action_lead(action), members@[next_idx as int].name@));
                    Some(msg)
                },
                None => start_turn_resolution(battle, members, skills, rng),
            }
        },
    }
}

/// A companion's order (the cursor on member `c`, not the protagonist).
fn order_key(
    k: Key,
    c: usize,
    members: &mut Vec<PartyMember>,
    inv: &PlayerInventory,
    skills: &PlayerSkills,
    battle: &mut BattleState,
    rng: &mut StdRng,
) -> (r: Option<String>)
    requires
        1 <= c < old(members)@.len(),
        old(battle).wf(),
        old(battle).spec_current_monster().hp >= i32::MIN + 30,
        forall|i: int| 0 <= i < old(members)@.len() ==> member_fits(#[trigger] old(members)@[i]),
    ensures
        command_key_done(k, c as int, old(members)@, *inv, *skills, *old(battle), final(members)@, *inv, *final(battle), r),
{
    let chosen = match k {
        Key::Digit1 => Some(PartyCommand::Attack),
        Key::Digit2 => Some(PartyCommand::Defend),
        Key::Digit3 => Some(PartyCommand::DesperateAttack),
        Key::Digit4 => Some(PartyCommand::CastSpell),
        _ => None,
    };
    let len = members.len();
    match chosen {
        Some(cmd) => {
            let ghost cmds0 = battle.party_commands@;
            battle.set_party_command(c, cmd);
            proof {
                assert(battle.party_commands@ =~= commands_with(cmds0, c as int, cmd));
            }
            match next_alive_member(members.as_slice(), c + 1) {
                Some(next_idx) => {
                    battle.phase = BattlePhase::CommandInput { member_cursor: next_idx };
                    let mut msg = members[c].name.clone();
                    msg.append(":「");
                    msg.append(cmd.name());
                    msg.append("」を指示した。\n続いて、");
                    msg.append(members[next_idx].name.as_str());
                    msg.append(" への指示を選択してください。");
                    assert(msg@ == ask_next_text(ordered_lead(members@[c as int].name@, cmd), members@[next_idx as int].name@));
                    Some(msg)
                },
                None => start_turn_resolution(battle, members, skills, rng),
            }
        },
        None => {
            if k == Key::Escape {
                let prev_idx = prev_alive_member(members, c);
                battle.phase = BattlePhase::CommandInput { member_cursor: prev_idx };
                let mut msg = members[prev_idx].name.clone();
                msg.append(" の行動選択に戻りました。");
                Some(msg)
            } else {
                None
            }
        },
    }
}

/// The protagonist's action or a companion's order for member `c`.
fn command_key(
    k: Key,
    c: usize,
    members: &mut Vec<PartyMember>,
    inv: &mut PlayerInventory,
    skills: &PlayerSkills,
    battle: &mut BattleState,
    rng: &mut StdRng,
) -> (r: Option<String>)
    requires
        old(battle).wf(),
        old(battle).spec_current_monster().hp >= i32::MIN + 30,
        forall|i: int| 0 <= i < old(members)@.len() ==> member_fits(#[trigger] old(members)@[i]),
    ensures
        command_key_done(k, c as int, old(members)@, *old(inv), *skills, *old(battle), final(members)@, *final(inv), *final(battle), r),
{
    if c == 0 {
        action_key(k, members, inv, skills, battle, rng)
    } else if c < members.len() {
        order_key(k, c, members, inv, skills, battle, rng)
    } else {
        None
    }
}

/// Space or Enter while the turn plays out at step `c`.
fn turn_key(
    c: usize,
    mode: &mut AppMode,
    members: &mut Vec<PartyMember>,
    battle: &mut BattleState,
    town: &mut TownState,
) -> (r: Option<String>)
    requires
        old(battle).wf(),
        old(town).wf(),
        old(members)@.len() >= 1,
        c < old(battle).turn_steps@.len(),
        c + 1 < old(battle).turn_steps@.len() ==> step_fits(
            old(battle).spec_current_monster().hp as int,
            old(members)@,
            old(battle).turn_steps@[c + 1]@,
        ),
    ensures
        turn_key_done(c as int, *old(mode), old(members)@, *old(battle), *old(town), *final(mode), final(members)@, *final(battle), *final(town), r),
{
    let n = members.len();
    let len = battle.turn_steps.len();
    proof {
        assert(steps_view(battle.turn_steps@)[c as int] == battle.turn_steps@[c as int]@);
    }
    if battle.turn_steps[c].monster_defeated {
        return Some(win_battle(mode, n, battle, town));
    }
    if battle.turn_steps[c].player_defeated {
        battle.phase = BattlePhase::Defeat;
        return Some(string_of("あなた（一般人）は力尽きてしまった……！\nパーティは壊滅した。\n[Space] または [B] で宿屋へ戻る。"));
    }
    if battle.turn_steps[c].flee_success {
        leave_battle(mode, n, battle, town);
        let mut msg = string_of("脱出に成功し、");
        msg.append(town.current_area.name());
        msg.append("の安全な場所へ逃げ戻った！");
        return Some(msg);
    }
    let next = c + 1;
    if next < len {
        proof {
            assert(steps_view(battle.turn_steps@)[next as int] == battle.turn_steps@[next as int]@);
        }
        battle.phase = BattlePhase::TurnResolving { step_cursor: next };
        battle.apply_step_effects(next, members.as_mut_slice());
        let step = &battle.turn_steps[next];
        let mut msg = step.message.clone();
        if step.monster_defeated {
            msg.append("\n魔物をたおした！([Space]で探索へ復帰)");
        } else {
            msg.append("\n([Space]で次へ)");
        }
        Some(msg)
    } else if battle.current_monster().is_dead() {
        Some(win_battle(mode, n, battle, town))
    } else if members[0].hp <= 0 {
        battle.phase = BattlePhase::Defeat;
        Some(string_of("あなた（一般人）は力尽きてしまった……！\nパーティは壊滅した。\n[Space] または [B] で宿屋へ戻る。"))
    } else {
        battle.reset_turn_commands(n);
        Some(string_of("次のターン！ あなたの行動を選択してください。"))
    }
}

/// After a defeat: everyone is healed at the capital's inn and exploring
/// resumes in front of it.
fn return_after_defeat(
    mode: &mut AppMode,
    members: &mut Vec<PartyMember>,
    battle: &mut BattleState,
    town: &mut TownState,
    rng: &mut StdRng,
) -> (r: String)
    requires
        old(town).wf(),
    ensures
        *final(mode) == AppMode::Town,
        all_healed(old(members)@, final(members)@),
        final(town).switched_from(TownState { last_encounter_pos: None, ..*old(town) }, AreaId::Town, Position { x: 3, y: 4 }),
        final(town).player_facing == old(town).player_facing,
        commands_reset(*old(battle), *final(battle), old(members)@.len()),
        r@ == revived_text(),
{
    let mut i: usize = 0;
    while i < members.len()
        invariant
            i <= members@.len(),
            members@.len() == old(members)@.len(),
            forall|k: int| 0 <= k < old(members)@.len() ==> #[trigger] members@[k] == if k < i {
                PartyMember { hp: old(members)@[k].max_hp, mp: old(members)@[k].max_mp, ..old(members)@[k] }
            } else {
                old(members)@[k]
            },
        decreases members@.len() - i,
    {
        let max_hp = members[i].max_hp;
        let max_mp = members[i].max_mp;
        members[i].hp = max_hp;
        members[i].mp = max_mp;
        i = i + 1;
    }
    town.last_encounter_pos = None;
    town.switch_area(AreaId::Town, Position { x: 3, y: 4 }, rng);
    *mode = AppMode::Town;
    battle.reset_turn_commands(members.len());
    string_of("教会の神父に助け出され、王都の宿屋で目覚めた……\n（HP/MP全回復）")
}

/// Checks `battle_input_ready` for the host before it hands a key over.
pub fn battle_input_is_ready(party: &PartyState, battle: &BattleState, town: &TownState) -> (r: bool)
    ensures
        r == battle_input_ready(*party, *battle, *town),
{
    if battle.current_index >= battle.monsters.len() || !town.is_wf() || party.members.len() == 0 {
        return false;
    }
    if battle.monsters[battle.current_index].hp < i32::MIN + 30 {
        return false;
    }
    let mut i: usize = 0;
    while i < party.members.len()
        invariant
            i <= party.members@.len(),
            forall|k: int| 0 <= k < i ==> member_fits(#[trigger] party.members@[k]),
        decreases party.members@.len() - i,
    {
        if !member_fits_now(&party.members[i]) {
            return false;
        }
        i = i + 1;
    }
    match battle.phase {
        BattlePhase::TurnResolving { step_cursor } => {
            if step_cursor >= battle.turn_steps.len() {
                return false;
            }
            if step_cursor + 1 < battle.turn_steps.len() {
                return step_fits_now(battle.monsters[battle.current_index].hp, &party.members, &battle.turn_steps[step_cursor + 1]);
            }
            true
        },
        _ => true,
    }
}

/// Whether `m`'s numbers leave room for a turn's arithmetic.
fn member_fits_now(m: &PartyMember) -> (r: bool)
    ensures
        r == member_fits(*m),
{
    (m.hp as i64) * 100 <= i32::MAX as i64 && (m.max_hp as i64) - (m.hp as i64) >= i32::MIN as i64
}

/// Whether the step's arithmetic stays within `i32`.
fn step_fits_now(mon_hp: i32, members: &Vec<PartyMember>, step: &BattleStep) -> (r: bool)
    ensures
        r == step_fits(mon_hp as int, members@, step@),
{
    let mon_ok = match step.monster_damage {
        Some(d) => {
            let v = mon_hp as i64 - d as i64;
            i32::MIN as i64 <= v && v <= i32::MAX as i64
        },
        None => true,
    };
    let dmg_ok = match step.member_damage {
        Some((i, d)) => {
            if i < members.len() {
                let v = members[i].hp as i64 - d as i64;
                i32::MIN as i64 <= v && v <= i32::MAX as i64
            } else {
                true
            }
        },
        None => true,
    };
    let heal_ok = match step.member_heal {
        Some((i, h)) => {
            if i < members.len() {
                let hp = members[i].hp as i64;
                let mid: i64 = match step.member_damage {
                    Some((k, d)) => if k == i {
                        if hp - d as i64 > 0 { hp - d as i64 } else { 0 }
                    } else {
                        hp
                    },
                    None => hp,
                };
                let v = mid + h as i64;
                i32::MIN as i64 <= v && v <= i32::MAX as i64
            } else {
                true
            }
        },
        None => true,
    };
    mon_ok && dmg_ok && heal_ok
}

/// What one key does during a battle (see `battle_key_outcome`): `B`
/// leaves, `N` brings the next monster, digits give the action and the
/// orders (`Escape` goes back one member), Space or Enter plays the turn
/// on and returns to the capital's inn after a defeat. Returns the message
/// to show, if any.
pub fn handle_battle_input(
    key: Key,
    mode: &mut AppMode,
    party: &mut PartyState,
    inv: &mut PlayerInventory,
    skills: &PlayerSkills,
    battle: &mut BattleState,
    town: &mut TownState,
    rng: &mut StdRng,
) -> (r: Option<String>)
    requires
        battle_input_ready(*old(party), *old(battle), *old(town)),
    ensures
        battle_key_outcome(
            key,
            *old(mode),
            *old(party),
            *old(inv),
            *skills,
            *old(battle),
            *old(town),
            *final(mode),
            *final(party),
            *final(inv),
            *final(battle),
            *final(town),
            r,
        ),
{
    let n = party.members.len();
    if key == Key::B {
        leave_battle(mode, n, battle, town);
        let mut msg = string_of("戦闘を離脱し、");
        msg.append(town.current_area.name());
        msg.append("へ戻った。\n[WASD]で歩き回れる。");
        return Some(msg);
    }
    if key == Key::N {
        battle.next_monster(n);
        let mut msg = string_of("あらたな　魔物【");
        msg.append(battle.current_monster().name.as_str());
        msg.append("】が　あらわれた！\nあなたの行動を選択してください。");
        return Some(msg);
    }
    match battle.phase {
        BattlePhase::CommandInput { member_cursor } => {
            command_key(key, member_cursor, &mut party.members, inv, skills, battle, rng)
        },
        BattlePhase::TurnResolving { step_cursor } => {
            if key == Key::Space || key == Key::Enter {
                turn_key(step_cursor, mode, &mut party.members, battle, town)
            } else {
                None
            }
        },
        BattlePhase::Defeat => {
            if key == Key::Space || key == Key::Enter {
                Some(return_after_defeat(mode, &mut party.members, battle, town, rng))
            } else {
                None
            }
        },
    }
}

} // verus!
