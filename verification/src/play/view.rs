//! The texts of the game screen's windows: the status header, the two side
//! windows and the monster panel.

use super::town_input::{command_at, label_for, spec_command_at};
use super::{AppMode, CommandMenuStage, CommandMenuState, TravelState};
use crate::battle::{BattlePhase, BattleState, Monster};
use crate::party::influence::{MentalState, PartyMember, Personality, ABNORMAL_INFLUENCE_THRESHOLD};
use crate::party::inventory::strings_view;
use crate::party::{PartyState, PlayerInventory};
use crate::text::{
    append_decimal, append_int, append_str, chars_of, int_decimal, nat_decimal, push_char,
    string_from_chars, string_of,
};
use crate::town::dialogue::{shop_item, spec_shop_item, DialogueLearnStage, DialogueSession, SHOP_ITEM_COUNT};
use crate::town::interact::TargetKind;
use crate::town::TownState;
use vstd::prelude::*;

verus! {

/// `true` or `false`, as a flag is printed.
pub open spec fn bool_text(b: bool) -> Seq<char> {
    if b { "true"@ } else { "false"@ }
}

/// A number printed at least two characters wide, padded with spaces on the left.
pub open spec fn pad2(s: Seq<char>) -> Seq<char> {
    if s.len() == 0 {
        "  "@
    } else if s.len() == 1 {
        " "@ + s
    } else {
        s
    }
}

fn append_bool(s: &mut String, b: bool)
    ensures
        final(s)@ == old(s)@ + bool_text(b),
{
    if b {
        append_str(s, "true");
    } else {
        append_str(s, "false");
    }
}

fn append_padded_int(s: &mut String, i: i32)
    ensures
        final(s)@ == old(s)@ + pad2(int_decimal(i as int)),
{
    let digits = crate::text::int_to_string(i as i64);
    let n = digits.as_str().unicode_len();
    if n == 0 {
        append_str(s, "  ");
    } else if n == 1 {
        append_str(s, " ");
        append_str(s, digits.as_str());
        assert(final(s)@ =~= old(s)@ + pad2(int_decimal(i as int)));
    } else {
        append_str(s, digits.as_str());
    }
}

// ---------------------------------------------------------------------------
// The status header.
// ---------------------------------------------------------------------------

/// First line of the header: the member in focus, with HP and MP.
pub open spec fn member_line(party: PartyState) -> Seq<char> {
    let m = party.members@[party.selected_index as int];
    "▼ 注目中の仲間 [No."@ + nat_decimal((party.selected_index + 1) as nat) + "/"@
        + nat_decimal(party.members@.len()) + "]: "@ + m.name@ + " ("@ + m.job@ + ")  HP: "@
        + int_decimal(m.hp as int) + "/"@ + int_decimal(m.max_hp as int) + "  MP: "@
        + int_decimal(m.mp as int) + "/"@ + int_decimal(m.max_mp as int) + "\n"@
}

/// How the debug line names the strength of an influence.
pub open spec fn abnormal_text(m: PartyMember) -> Seq<char> {
    if m.influence.raw_value >= ABNORMAL_INFLUENCE_THRESHOLD {
        "【魔術介入/異常】"@
    } else {
        "（自然上限内）"@
    }
}

/// How the debug line names a mental state.
pub open spec fn mental_text(s: MentalState) -> Seq<char> {
    match s {
        MentalState::Normal => "正常"@,
        MentalState::Charmed => "魅了(Charmed)"@,
        MentalState::Cursed => "呪縛(Cursed)"@,
    }
}

/// How the debug line names a personality.
pub open spec fn personality_debug_text(p: Personality) -> Seq<char> {
    match p {
        Personality::Player => "プレイヤー(Player)"@,
        Personality::Loyal => "忠実(Loyal)"@,
        Personality::Slacker => "遊び人(Slacker)"@,
        Personality::Coward => "臆病(Coward)"@,
        Personality::Yandere => "ヤンデレ(Yandere)"@,
    }
}

/// Second line of the header in debug mode: the member's hidden values.
pub open spec fn debug_line(m: PartyMember, see_all: bool) -> Seq<char> {
    "  [DEBUG] 影響度: "@ + int_decimal(m.influence.raw_value as int) + " "@ + abnormal_text(m)
        + " | 精神: "@ + mental_text(m.mental_state) + " | 性格: "@
        + personality_debug_text(m.personality) + " | 全視界: "@ + bool_text(see_all) + "\n"@
}

/// How the header names the torch's state.
pub open spec fn torch_text(on: bool) -> Seq<char> {
    if on { "点灯中(半径6)"@ } else { "消灯(半径2)"@ }
}

/// The conversation partner's name, or "相手" without a conversation.
pub open spec fn partner_name_or_default(d: Option<DialogueSession>) -> Seq<char> {
    match d {
        Some(s) => s.partner.spec_name(),
        None => "相手"@,
    }
}

/// The conversation's stage; talking without a conversation.
pub open spec fn learn_stage_of(d: Option<DialogueSession>) -> DialogueLearnStage {
    match d {
        Some(s) => s.learn_stage,
        None => DialogueLearnStage::Talking,
    }
}

/// `name:hp/max_hp` of a member.
pub open spec fn member_hp_entry(m: PartyMember) -> Seq<char> {
    m.name@ + ":"@ + int_decimal(m.hp as int) + "/"@ + int_decimal(m.max_hp as int)
}

/// The members' HP entries, separated by ` | `.
pub open spec fn party_summary(ms: Seq<PartyMember>) -> Seq<char>
    decreases ms.len(),
{
    if ms.len() == 0 {
        Seq::empty()
    } else if ms.len() == 1 {
        member_hp_entry(ms[0])
    } else {
        party_summary(ms.drop_last()) + " | "@ + member_hp_entry(ms.last())
    }
}

/// The hint of the command window's header line.
pub open spec fn menu_hint(menu: CommandMenuState) -> Seq<char> {
    match menu.stage {
        CommandMenuStage::ChoosingCommand => "コマンドを選択してください"@,
        CommandMenuStage::ChoosingDirection(_) => "方向キーで対象を選択してください"@,
    }
}

/// Second line of the header outside debug mode: what the mode is about.
pub open spec fn mode_line(
    party: PartyState,
    mode: AppMode,
    town: TownState,
    inv: PlayerInventory,
    dialogue: Option<DialogueSession>,
    menu: CommandMenuState,
    travel: TravelState,
) -> Seq<char> {
    let gold = int_decimal(inv.gold as int);
    match mode {
        AppMode::Town => "  ["@ + town.current_area.spec_name() + "] 所持金: "@ + gold + "G | 松明: "@
            + torch_text(town.torch_active) + " | 仲間列: 主人公(青) 戦士(赤) 遊び人(黄) 魔法使い(紫)\n"@,
        AppMode::Dialogue => match learn_stage_of(dialogue) {
            DialogueLearnStage::Talking => "  [会話中: "@ + partner_name_or_default(dialogue) + "] 所持金: "@
                + gold + "G | [W/S]で話題選択 | [1]たずねる | [2]おぼえる | [3]はなれる\n"@,
            DialogueLearnStage::ChoosingLearnTarget { .. } => "  [会話中: "@ + partner_name_or_default(dialogue)
                + "] 覚える言葉を選択中 | [W/S]候補選択 | [1]決定 | [3]やめる\n"@,
        },
        AppMode::Interact => "  [コマンド選択中] 所持金: "@ + gold + "G | "@ + menu_hint(menu) + "\n"@,
        AppMode::Shop => "  [道具屋・取引中: 道具屋の店主] 所持金: "@ + gold
            + "G | [W/S]で商品選択 | [1]購入 | [3]店を出る\n"@,
        AppMode::Inn => "  [宿屋・受付: 宿屋の主人] 所持金: "@ + gold + "G | [1]宿泊(50G)で全快 | [3]宿を出る\n"@,
        AppMode::Battle => "  [戦闘交戦中] "@ + party_summary(party.members@) + "\n"@,
        AppMode::Travel => "  [街道・移動姿勢選択中] 行き先: "@ + travel.destination.spec_name() + " | 所持金: "@
            + gold + "G\n"@,
    }
}

/// Last line of the header: the keys of the mode.
pub open spec fn controls_line(mode: AppMode, menu: CommandMenuState, dialogue: Option<DialogueSession>) -> Seq<char> {
    match mode {
        AppMode::Town => "操作: [WASD]移動 | [Z]コマンド | [L]松明切替 | [B]戦闘切替 | [Tab]仲間切替 | [Space]スキップ"@,
        AppMode::Interact => match menu.stage {
            CommandMenuStage::ChoosingCommand => "操作: [W/S]コマンド選択 | [1/Enter]決定 | [3/Esc]やめる"@,
            CommandMenuStage::ChoosingDirection(_) => "操作: [WASD]方向を選択 | [Esc]やめる"@,
        },
        AppMode::Dialogue => match learn_stage_of(dialogue) {
            DialogueLearnStage::Talking => "操作: [W/S]話題選択 | [1/Enter]たずねる | [2]おぼえる | [3/Esc]はなれる"@,
            DialogueLearnStage::ChoosingLearnTarget { .. } => "操作: [W/S]候補選択 | [1/Enter]決定 | [3/Esc]やめる"@,
        },
        AppMode::Shop => "操作: [W/S]商品選択 | [1/Enter]かう | [3/Esc]店を出る"@,
        AppMode::Inn => "操作: [1/Enter]とまる(50G) | [3/Esc]やめる"@,
        AppMode::Battle => "操作: [1-5]コマンド/指示 | [Space/Enter]ターン進行 | [N]敵切替 | [B]街へ帰還"@,
        AppMode::Travel => "操作: [1]慎重に | [2]普通に | [3]大胆に | [Esc]やめる"@,
    }
}

/// The whole status header.
pub open spec fn status_header_text(
    party: PartyState,
    mode: AppMode,
    town: TownState,
    inv: PlayerInventory,
    dialogue: Option<DialogueSession>,
    menu: CommandMenuState,
    travel: TravelState,
) -> Seq<char> {
    let m = party.members@[party.selected_index as int];
    member_line(party) + (if party.debug_mode {
        debug_line(m, town.debug_see_all)
    } else {
        mode_line(party, mode, town, inv, dialogue, menu, travel)
    }) + controls_line(mode, menu, dialogue)
}

fn member_line_string(party: &PartyState) -> (r: String)
    requires
        party.selected_index < party.members@.len(),
    ensures
        r@ == member_line(*party),
{
    let m = &party.members[party.selected_index];
    let count = party.members.len();
    let mut s = string_of("▼ 注目中の仲間 [No.");
    append_decimal(&mut s, (party.selected_index + 1) as u64);
    append_str(&mut s, "/");
    append_decimal(&mut s, count as u64);
    append_str(&mut s, "]: ");
    append_str(&mut s, m.name.as_str());
    append_str(&mut s, " (");
    append_str(&mut s, m.job.as_str());
    append_str(&mut s, ")  HP: ");
    append_int(&mut s, m.hp as i64);
    append_str(&mut s, "/");
    append_int(&mut s, m.max_hp as i64);
    append_str(&mut s, "  MP: ");
    append_int(&mut s, m.mp as i64);
    append_str(&mut s, "/");
    append_int(&mut s, m.max_mp as i64);
    append_str(&mut s, "\n");
    assert(s@ =~= member_line(*party));
    s
}

fn debug_line_string(m: &PartyMember, see_all: bool) -> (r: String)
    ensures
        r@ == debug_line(*m, see_all),
{
    let mut s = string_of("  [DEBUG] 影響度: ");
    append_int(&mut s, m.influence.raw_value as i64);
    append_str(&mut s, " ");
    append_str(&mut s, if m.influence.is_abnormal() { "【魔術介入/異常】" } else { "（自然上限内）" });
    append_str(&mut s, " | 精神: ");
    append_str(&mut s, match m.mental_state {
        MentalState::Normal => "正常",
        MentalState::Charmed => "魅了(Charmed)",
        MentalState::Cursed => "呪縛(Cursed)",
    });
    append_str(&mut s, " | 性格: ");
    append_str(&mut s, match m.personality {
        Personality::Player => "プレイヤー(Player)",
        Personality::Loyal => "忠実(Loyal)",
        Personality::Slacker => "遊び人(Slacker)",
        Personality::Coward => "臆病(Coward)",
        Personality::Yandere => "ヤンデレ(Yandere)",
    });
    append_str(&mut s, " | 全視界: ");
    append_bool(&mut s, see_all);
    append_str(&mut s, "\n");
    assert(s@ =~= debug_line(*m, see_all));
    s
}

fn party_summary_string(members: &Vec<PartyMember>) -> (r: String)
    ensures
        r@ == party_summary(members@),
{
    let mut s = String::new();
    let mut i: usize = 0;
    while i < members.len()
        invariant
            i <= members@.len(),
            s@ == party_summary(members@.take(i as int)),
        decreases members@.len() - i,
    {
        let m = &members[i];
        let ghost before = s@;
        if i > 0 {
            append_str(&mut s, " | ");
        }
        append_str(&mut s, m.name.as_str());
        append_str(&mut s, ":");
        append_int(&mut s, m.hp as i64);
        append_str(&mut s, "/");
        append_int(&mut s, m.max_hp as i64);
        proof {
            let t = members@.take(i + 1);
            assert(t.drop_last() =~= members@.take(i as int));
            assert(t.last() == members@[i as int]);
            if i == 0 {
                assert(s@ =~= member_hp_entry(members@[0]));
            } else {
                assert(s@ =~= before + " | "@ + member_hp_entry(members@[i as int]));
            }
        }
        i = i + 1;
    }
    assert(members@.take(members@.len() as int) =~= members@);
    s
}

fn mode_line_string(
    party: &PartyState,
    mode: AppMode,
    town: &TownState,
    inv: &PlayerInventory,
    dialogue: &Option<DialogueSession>,
    menu: &CommandMenuState,
    travel: &TravelState,
) -> (r: String)
    ensures
        r@ == mode_line(*party, mode, *town, *inv, *dialogue, *menu, *travel),
{
    let mut s = String::new();
    match mode {
        AppMode::Town => {
            append_str(&mut s, "  [");
            append_str(&mut s, town.current_area.name());
            append_str(&mut s, "] 所持金: ");
            append_int(&mut s, inv.gold as i64);
            append_str(&mut s, "G | 松明: ");
            append_str(&mut s, if town.torch_active { "点灯中(半径6)" } else { "消灯(半径2)" });
            append_str(&mut s, " | 仲間列: 主人公(青) 戦士(赤) 遊び人(黄) 魔法使い(紫)\n");
        },
        AppMode::Dialogue => {
            let partner_name = match dialogue {
                Some(d) => d.partner.name(),
                None => "相手",
            };
            let stage = match dialogue {
                Some(d) => d.learn_stage,
                None => DialogueLearnStage::Talking,
            };
            append_str(&mut s, "  [会話中: ");
            append_str(&mut s, partner_name);
            match stage {
                DialogueLearnStage::Talking => {
                    append_str(&mut s, "] 所持金: ");
                    append_int(&mut s, inv.gold as i64);
                    append_str(&mut s, "G | [W/S]で話題選択 | [1]たずねる | [2]おぼえる | [3]はなれる\n");
                },
                DialogueLearnStage::ChoosingLearnTarget { .. } => {
                    append_str(&mut s, "] 覚える言葉を選択中 | [W/S]候補選択 | [1]決定 | [3]やめる\n");
                },
            }
        },
        AppMode::Interact => {
            append_str(&mut s, "  [コマンド選択中] 所持金: ");
            append_int(&mut s, inv.gold as i64);
            append_str(&mut s, "G | ");
            append_str(&mut s, match menu.stage {
                CommandMenuStage::ChoosingCommand => "コマンドを選択してください",
                CommandMenuStage::ChoosingDirection(_) => "方向キーで対象を選択してください",
            });
            append_str(&mut s, "\n");
        },
        AppMode::Shop => {
            append_str(&mut s, "  [道具屋・取引中: 道具屋の店主] 所持金: ");
            append_int(&mut s, inv.gold as i64);
            append_str(&mut s, "G | [W/S]で商品選択 | [1]購入 | [3]店を出る\n");
        },
        AppMode::Inn => {
            append_str(&mut s, "  [宿屋・受付: 宿屋の主人] 所持金: ");
            append_int(&mut s, inv.gold as i64);
            append_str(&mut s, "G | [1]宿泊(50G)で全快 | [3]宿を出る\n");
        },
        AppMode::Battle => {
            append_str(&mut s, "  [戦闘交戦中] ");
            let summary = party_summary_string(&party.members);
            append_str(&mut s, summary.as_str());
            append_str(&mut s, "\n");
        },
        AppMode::Travel => {
            append_str(&mut s, "  [街道・移動姿勢選択中] 行き先: ");
            append_str(&mut s, travel.destination.name());
            append_str(&mut s, " | 所持金: ");
            append_int(&mut s, inv.gold as i64);
            append_str(&mut s, "G\n");
        },
    }
    assert(s@ =~= mode_line(*party, mode, *town, *inv, *dialogue, *menu, *travel));
    s
}

fn controls_line_str(mode: AppMode, menu: &CommandMenuState, dialogue: &Option<DialogueSession>) -> (r: &'static str)
    ensures
        r@ == controls_line(mode, *menu, *dialogue),
{
    let stage = match dialogue {
        Some(d) => d.learn_stage,
        None => DialogueLearnStage::Talking,
    };
    match mode {
        AppMode::Town => "操作: [WASD]移動 | [Z]コマンド | [L]松明切替 | [B]戦闘切替 | [Tab]仲間切替 | [Space]スキップ",
        AppMode::Interact => match menu.stage {
            CommandMenuStage::ChoosingCommand => "操作: [W/S]コマンド選択 | [1/Enter]決定 | [3/Esc]やめる",
            CommandMenuStage::ChoosingDirection(_) => "操作: [WASD]方向を選択 | [Esc]やめる",
        },
        AppMode::Dialogue => match stage {
            DialogueLearnStage::Talking => "操作: [W/S]話題選択 | [1/Enter]たずねる | [2]おぼえる | [3/Esc]はなれる",
            DialogueLearnStage::ChoosingLearnTarget { .. } => "操作: [W/S]候補選択 | [1/Enter]決定 | [3/Esc]やめる",
        },
        AppMode::Shop => "操作: [W/S]商品選択 | [1/Enter]かう | [3/Esc]店を出る",
        AppMode::Inn => "操作: [1/Enter]とまる(50G) | [3/Esc]やめる",
        AppMode::Battle => "操作: [1-5]コマンド/指示 | [Space/Enter]ターン進行 | [N]敵切替 | [B]街へ帰還",
        AppMode::Travel => "操作: [1]慎重に | [2]普通に | [3]大胆に | [Esc]やめる",
    }
}

/// The status header: the member in focus, a line about the mode (in
/// debug mode: the member's hidden values instead) and the mode's keys.
pub fn format_status_header(
    party: &PartyState,
    mode: AppMode,
    town: &TownState,
    inv: &PlayerInventory,
    dialogue: &Option<DialogueSession>,
    command_menu: &CommandMenuState,
    travel: &TravelState,
) -> (r: String)
    requires
        party.selected_index < party.members@.len(),
    ensures
        r@ == status_header_text(*party, mode, *town, *inv, *dialogue, *command_menu, *travel),
{
    let mut header = member_line_string(party);
    if party.debug_mode {
        let line = debug_line_string(&party.members[party.selected_index], town.debug_see_all);
        append_str(&mut header, line.as_str());
    } else {
        let line = mode_line_string(party, mode, town, inv, dialogue, command_menu, travel);
        append_str(&mut header, line.as_str());
    }
    append_str(&mut header, controls_line_str(mode, command_menu, dialogue));
    header
}

// ---------------------------------------------------------------------------
// The left window.
// ---------------------------------------------------------------------------

/// The cursor mark of a list line: `▶` on the selected line, a space elsewhere.
pub open spec fn cursor_mark(i: int, selected: int) -> Seq<char> {
    if i == selected { "▶"@ } else { " "@ }
}

/// The first `n` lines of the command list.
pub open spec fn command_lines(n: int, selected: int, target: TargetKind) -> Seq<char>
    decreases n,
{
    if n <= 0 {
        Seq::empty()
    } else {
        command_lines(n - 1, selected, target) + cursor_mark(n - 1, selected) + " "@
            + label_for(spec_command_at(n - 1), target) + "\n"@
    }
}

/// The first `n` topics, one per line after the cursor mark.
pub open spec fn topic_lines(topics: Seq<Seq<char>>, n: int, selected: int) -> Seq<char>
    decreases n,
{
    if n <= 0 {
        Seq::empty()
    } else {
        topic_lines(topics, n - 1, selected) + cursor_mark(n - 1, selected) + " "@ + topics[n - 1] + "\n"@
    }
}

/// The first `n` articles of the shop with their prices.
pub open spec fn shop_lines(n: int, selected: int) -> Seq<char>
    decreases n,
{
    if n <= 0 {
        Seq::empty()
    } else {
        shop_lines(n - 1, selected) + cursor_mark(n - 1, selected) + spec_shop_item(n - 1).0 + " "@
            + pad2(int_decimal(spec_shop_item(n - 1).1)) + "G\n"@
    }
}

/// The first `n` topics of the notebook, each after a dot.
pub open spec fn notebook_lines(topics: Seq<Seq<char>>, n: int) -> Seq<char>
    decreases n,
{
    if n <= 0 {
        Seq::empty()
    } else {
        notebook_lines(topics, n - 1) + "・"@ + topics[n - 1] + "\n"@
    }
}

/// The smaller of `a` and `b`.
pub open spec fn min_int(a: int, b: int) -> int {
    if a < b { a } else { b }
}

/// The left window during a battle.
pub open spec fn battle_left_text(battle: BattleState, party: PartyState) -> Seq<char> {
    match battle.phase {
        BattlePhase::CommandInput { member_cursor } => if member_cursor == 0 {
            "【あなたの行動】\n[1]たたかう\n[2]みをまもる\n[3]どうぐ(草)\n[4]観察 5:逃走"@
        } else if member_cursor < party.members@.len() {
            "【"@ + party.members@[member_cursor as int].name@ + "へ指示】\n[1]たたかう\n[2]みをまもる\n[3]すてみ\n[4]じゅもん"@
        } else {
            "【指示決定】\nターン開始準備完了"@
        },
        BattlePhase::TurnResolving { step_cursor } => "【ターン進行中】\n進捗: "@
            + nat_decimal((step_cursor + 1) as nat) + "/"@
            + nat_decimal(if battle.turn_steps@.len() > 1 { battle.turn_steps@.len() } else { 1nat })
            + "\n\n[Space]で次へ"@,
        BattlePhase::Defeat => "【全滅……】\nあなたは力尽きた\n\n[B]街へ逃走\n(宿屋で治療)"@,
    }
}

/// The left window of each mode.
pub open spec fn left_window_text(
    mode: AppMode,
    inv: PlayerInventory,
    dialogue: Option<DialogueSession>,
    menu: CommandMenuState,
    target: TargetKind,
    travel: TravelState,
    battle: BattleState,
    party: PartyState,
) -> Seq<char> {
    let topics = strings_view(inv.topics@);
    match mode {
        AppMode::Interact => match menu.stage {
            CommandMenuStage::ChoosingCommand => "【コマンド】\n"@ + command_lines(4, menu.selected_index as int, target),
            CommandMenuStage::ChoosingDirection(c) => "【"@ + label_for(c, target) + "】\n方向を選んで\n対象を指定\nしてください"@,
        },
        AppMode::Dialogue => {
            let selected = match dialogue { Some(d) => d.selected_topic_index as int, None => 0 };
            "【話題を振る】\n"@ + topic_lines(topics, min_int(4, topics.len() as int), selected)
        },
        AppMode::Shop => {
            let selected = match dialogue { Some(d) => d.selected_shop_index as int, None => 0 };
            "【品物】(金:"@ + int_decimal(inv.gold as int) + "G)\n"@ + shop_lines(SHOP_ITEM_COUNT as int, selected)
        },
        AppMode::Inn => "【宿屋・宿泊】\n一泊料金: 50G\n所持金  : "@ + int_decimal(inv.gold as int) + "G\n全員のHP/MP全快"@,
        AppMode::Town => "【手帳】金:"@ + int_decimal(inv.gold as int) + "G\n[覚えた話題]\n"@
            + notebook_lines(topics, min_int(3, topics.len() as int)),
        AppMode::Battle => battle_left_text(battle, party),
        AppMode::Travel => "【街道】\n行き先:\n"@ + travel.destination.spec_name() + "\n\nどのように\n進みますか？"@,
    }
}

fn command_list_string(selected: usize, target: TargetKind) -> (r: String)
    ensures
        r@ == "【コマンド】\n"@ + command_lines(4, selected as int, target),
{
    let mut s = string_of("【コマンド】\n");
    let mut i: usize = 0;
    while i < 4
        invariant
            i <= 4,
            s@ == "【コマンド】\n"@ + command_lines(i as int, selected as int, target),
        decreases 4 - i,
    {
        append_str(&mut s, if i == selected { "▶" } else { " " });
        append_str(&mut s, " ");
        append_str(&mut s, command_at(i).dynamic_label(target));
        append_str(&mut s, "\n");
        assert(s@ =~= "【コマンド】\n"@ + command_lines(i + 1, selected as int, target));
        i = i + 1;
    }
    s
}

fn topic_list_string(topics: &Vec<String>, limit: usize, selected: usize) -> (r: String)
    ensures
        r@ == "【話題を振る】\n"@ + topic_lines(
            strings_view(topics@),
            min_int(limit as int, topics@.len() as int),
            selected as int,
        ),
{
    let mut s = string_of("【話題を振る】\n");
    let n = if limit < topics.len() { limit } else { topics.len() };
    let ghost tv = strings_view(topics@);
    let mut i: usize = 0;
    while i < n
        invariant
            n <= topics@.len(),
            i <= n,
            tv == strings_view(topics@),
            s@ == "【話題を振る】\n"@ + topic_lines(tv, i as int, selected as int),
        decreases n - i,
    {
        append_str(&mut s, if i == selected { "▶" } else { " " });
        append_str(&mut s, " ");
        append_str(&mut s, topics[i].as_str());
        append_str(&mut s, "\n");
        assert(tv[i as int] == topics@[i as int]@);
        assert(s@ =~= "【話題を振る】\n"@ + topic_lines(tv, i + 1, selected as int));
        i = i + 1;
    }
    s
}

fn notebook_string(inv: &PlayerInventory) -> (r: String)
    ensures
        r@ == "【手帳】金:"@ + int_decimal(inv.gold as int) + "G\n[覚えた話題]\n"@
            + notebook_lines(strings_view(inv.topics@), min_int(3, inv.topics@.len() as int)),
{
    let mut s = string_of("【手帳】金:");
    append_int(&mut s, inv.gold as i64);
    append_str(&mut s, "G\n[覚えた話題]\n");
    let ghost head = s@;
    let n = if 3 < inv.topics.len() { 3 } else { inv.topics.len() };
    let ghost tv = strings_view(inv.topics@);
    let mut i: usize = 0;
    while i < n
        invariant
            n <= inv.topics@.len(),
            i <= n,
            tv == strings_view(inv.topics@),
            s@ == head + notebook_lines(tv, i as int),
        decreases n - i,
    {
        append_str(&mut s, "・");
        append_str(&mut s, inv.topics[i].as_str());
        append_str(&mut s, "\n");
        assert(tv[i as int] == inv.topics@[i as int]@);
        assert(s@ =~= head + notebook_lines(tv, i + 1));
        i = i + 1;
    }
    s
}

fn shop_list_string(gold: i32, selected: usize) -> (r: String)
    ensures
        r@ == "【品物】(金:"@ + int_decimal(gold as int) + "G)\n"@ + shop_lines(SHOP_ITEM_COUNT as int, selected as int),
{
    let mut s = string_of("【品物】(金:");
    append_int(&mut s, gold as i64);
    append_str(&mut s, "G)\n");
    let ghost head = s@;
    let mut i: usize = 0;
    while i < SHOP_ITEM_COUNT
        invariant
            i <= SHOP_ITEM_COUNT,
            s@ == head + shop_lines(i as int, selected as int),
        decreases SHOP_ITEM_COUNT - i,
    {
        let item = shop_item(i);
        append_str(&mut s, if i == selected { "▶" } else { " " });
        append_str(&mut s, item.name);
        append_str(&mut s, " ");
        append_padded_int(&mut s, item.price);
        append_str(&mut s, "G\n");
        assert(s@ =~= head + shop_lines(i + 1, selected as int));
        i = i + 1;
    }
    s
}

fn battle_left_string(battle: &BattleState, party: &PartyState) -> (r: String)
    requires
        battle.phase matches BattlePhase::TurnResolving { step_cursor } ==> step_cursor < usize::MAX,
    ensures
        r@ == battle_left_text(*battle, *party),
{
    match battle.phase {
        BattlePhase::CommandInput { member_cursor } => {
            if member_cursor == 0 {
                string_of("【あなたの行動】\n[1]たたかう\n[2]みをまもる\n[3]どうぐ(草)\n[4]観察 5:逃走")
            } else if member_cursor < party.members.len() {
                let mut s = string_of("【");
                append_str(&mut s, party.members[member_cursor].name.as_str());
                append_str(&mut s, "へ指示】\n[1]たたかう\n[2]みをまもる\n[3]すてみ\n[4]じゅもん");
                assert(s@ =~= battle_left_text(*battle, *party));
                s
            } else {
                string_of("【指示決定】\nターン開始準備完了")
            }
        },
        BattlePhase::TurnResolving { step_cursor } => {
            let steps = battle.turn_steps.len();
            let mut s = string_of("【ターン進行中】\n進捗: ");
            append_decimal(&mut s, (step_cursor + 1) as u64);
            append_str(&mut s, "/");
            append_decimal(&mut s, if steps > 1 { steps as u64 } else { 1 });
            append_str(&mut s, "\n\n[Space]で次へ");
            assert(s@ =~= battle_left_text(*battle, *party));
            s
        },
        BattlePhase::Defeat => string_of("【全滅……】\nあなたは力尽きた\n\n[B]街へ逃走\n(宿屋で治療)"),
    }
}

/// The left window: the command list, topics, articles, the inn's price,
/// the notebook, the battle orders or the road, depending on the mode.
pub fn format_left_window(
    mode: AppMode,
    inv: &PlayerInventory,
    dialogue: &Option<DialogueSession>,
    command_menu: &CommandMenuState,
    facing_target: TargetKind,
    travel: &TravelState,
    battle: &BattleState,
    party: &PartyState,
) -> (r: String)
    requires
        mode == AppMode::Battle ==> (battle.phase matches BattlePhase::TurnResolving { step_cursor }
            ==> step_cursor < usize::MAX),
    ensures
        r@ == left_window_text(mode, *inv, *dialogue, *command_menu, facing_target, *travel, *battle, *party),
{
    match mode {
        AppMode::Interact => match command_menu.stage {
            CommandMenuStage::ChoosingCommand => command_list_string(command_menu.selected_index, facing_target),
            CommandMenuStage::ChoosingDirection(cmd) => {
                let mut s = string_of("【");
                append_str(&mut s, cmd.dynamic_label(facing_target));
                append_str(&mut s, "】\n方向を選んで\n対象を指定\nしてください");
                assert(s@ =~= left_window_text(mode, *inv, *dialogue, *command_menu, facing_target, *travel, *battle, *party));
                s
            },
        },
        AppMode::Dialogue => {
            let selected = match dialogue {
                Some(d) => d.selected_topic_index,
                None => 0,
            };
            topic_list_string(&inv.topics, 4, selected)
        },
        AppMode::Shop => {
            let selected = match dialogue {
                Some(d) => d.selected_shop_index,
                None => 0,
            };
            shop_list_string(inv.gold, selected)
        },
        AppMode::Inn => {
            let mut s = string_of("【宿屋・宿泊】\n一泊料金: 50G\n所持金  : ");
            append_int(&mut s, inv.gold as i64);
            append_str(&mut s, "G\n全員のHP/MP全快");
            assert(s@ =~= left_window_text(mode, *inv, *dialogue, *command_menu, facing_target, *travel, *battle, *party));
            s
        },
        AppMode::Town => notebook_string(inv),
        AppMode::Battle => battle_left_string(battle, party),
        AppMode::Travel => {
            let mut s = string_of("【街道】\n行き先:\n");
            append_str(&mut s, travel.destination.name());
            append_str(&mut s, "\n\nどのように\n進みますか？");
            assert(s@ =~= left_window_text(mode, *inv, *dialogue, *command_menu, facing_target, *travel, *battle, *party));
            s
        },
    }
}

// ---------------------------------------------------------------------------
// The right window.
// ---------------------------------------------------------------------------

/// Whether the conversation's reply holds words that can be remembered.
pub open spec fn has_learnable(d: Option<DialogueSession>) -> bool {
    match d {
        Some(s) => s.learnable_spans@.len() > 0,
        None => false,
    }
}

/// The right window of each mode: the keys to press.
pub open spec fn right_window_text(
    mode: AppMode,
    dialogue: Option<DialogueSession>,
    menu: CommandMenuState,
    battle: BattleState,
) -> Seq<char> {
    match mode {
        AppMode::Interact => match menu.stage {
            CommandMenuStage::ChoosingCommand => "[W/S]選択\n[1/Enter]決定\n[3/Esc]やめる"@,
            CommandMenuStage::ChoosingDirection(_) => "[WASD]方向選択\n[Esc]やめる"@,
        },
        AppMode::Dialogue => match learn_stage_of(dialogue) {
            DialogueLearnStage::Talking => "[1]たずねる\n"@
                + (if has_learnable(dialogue) { "[2]おぼえる★"@ } else { "[2]おぼえる"@ })
                + "\n[3]はなれる\n(W/S:選択)"@,
            DialogueLearnStage::ChoosingLearnTarget { .. } => "[1]決定\n[3]やめる\n\n(W/S:候補選択)"@,
        },
        AppMode::Shop => "[1]かう\n[3]みせをでる\n(W/S:商品選)\n(所持金消費)"@,
        AppMode::Inn => "[1]とまる(50G)\n[3]やめる\n\n(HP/MP全回復)"@,
        AppMode::Town => "[探索操作]\nWASD:移動\nZ   :コマンド\nTab :仲間\nB   :戦闘"@,
        AppMode::Battle => match battle.phase {
            BattlePhase::CommandInput { member_cursor } => if member_cursor == 0 {
                "[1-5]行動\n[B]街へ帰還\n\n(あなた手番)"@
            } else {
                "[1-4]指示\n[Esc]戻る\n[B]街へ帰還\n\n(仲間手番)"@
            },
            BattlePhase::TurnResolving { .. } => "[Space]次へ\n[Enter]次へ\n\n(ターン中)"@,
            BattlePhase::Defeat => "[B]街へ帰還\n\n(敗北)"@,
        },
        AppMode::Travel => "[1]慎重に\n[2]普通に\n[3]大胆に\n[Esc]やめる"@,
    }
}

/// The right window: the keys of the mode.
pub fn format_right_window(
    mode: AppMode,
    dialogue: &Option<DialogueSession>,
    command_menu: &CommandMenuState,
    battle: &BattleState,
) -> (r: String)
    ensures
        r@ == right_window_text(mode, *dialogue, *command_menu, *battle),
{
    match mode {
        AppMode::Interact => match command_menu.stage {
            CommandMenuStage::ChoosingCommand => string_of("[W/S]選択\n[1/Enter]決定\n[3/Esc]やめる"),
            CommandMenuStage::ChoosingDirection(_) => string_of("[WASD]方向選択\n[Esc]やめる"),
        },
        AppMode::Dialogue => {
            let stage = match dialogue {
                Some(d) => d.learn_stage,
                None => DialogueLearnStage::Talking,
            };
            match stage {
                DialogueLearnStage::Talking => {
                    let learnable = match dialogue {
                        Some(d) => d.learnable_spans.len() > 0,
                        None => false,
                    };
                    let mut s = string_of("[1]たずねる\n");
                    append_str(&mut s, if learnable { "[2]おぼえる★" } else { "[2]おぼえる" });
                    append_str(&mut s, "\n[3]はなれる\n(W/S:選択)");
                    assert(s@ =~= right_window_text(mode, *dialogue, *command_menu, *battle));
                    s
                },
                DialogueLearnStage::ChoosingLearnTarget { .. } => string_of("[1]決定\n[3]やめる\n\n(W/S:候補選択)"),
            }
        },
        AppMode::Shop => string_of("[1]かう\n[3]みせをでる\n(W/S:商品選)\n(所持金消費)"),
        AppMode::Inn => string_of("[1]とまる(50G)\n[3]やめる\n\n(HP/MP全回復)"),
        AppMode::Town => string_of("[探索操作]\nWASD:移動\nZ   :コマンド\nTab :仲間\nB   :戦闘"),
        AppMode::Battle => match battle.phase {
            BattlePhase::CommandInput { member_cursor } => if member_cursor == 0 {
                string_of("[1-5]行動\n[B]街へ帰還\n\n(あなた手番)")
            } else {
                string_of("[1-4]指示\n[Esc]戻る\n[B]街へ帰還\n\n(仲間手番)")
            },
            BattlePhase::TurnResolving { .. } => string_of("[Space]次へ\n[Enter]次へ\n\n(ターン中)"),
            BattlePhase::Defeat => string_of("[B]街へ帰還\n\n(敗北)"),
        },
        AppMode::Travel => string_of("[1]慎重に\n[2]普通に\n[3]大胆に\n[Esc]やめる"),
    }
}

// ---------------------------------------------------------------------------
// The monster panel.
// ---------------------------------------------------------------------------

/// `n` copies of `c`.
pub open spec fn repeat_char(c: char, n: int) -> Seq<char> {
    Seq::new(if n > 0 { n as nat } else { 0nat }, |i: int| c)
}

/// An HP bar of `length` cells, `filled` of them full, in brackets.
pub open spec fn hp_bar_text(filled: int, length: int) -> Seq<char> {
    "["@ + repeat_char('█', filled) + repeat_char(' ', length - filled) + "]"@
}

fn append_repeat(s: &mut String, c: char, n: usize)
    ensures
        final(s)@ == old(s)@ + repeat_char(c, n as int),
{
    let mut i: usize = 0;
    while i < n
        invariant
            i <= n,
            s@ == old(s)@ + repeat_char(c, i as int),
        decreases n - i,
    {
        push_char(s, c);
        i = i + 1;
        assert(s@ =~= old(s)@ + repeat_char(c, i as int));
    }
}

/// An HP bar of `length` cells of which `filled` are full, in brackets
/// (the rest, if any, are blank).
pub fn format_hp_bar_cells(filled: usize, length: usize) -> (r: String)
    ensures
        r@ == hp_bar_text(filled as int, length as int),
{
    let empty = if length > filled { length - filled } else { 0 };
    let mut s = string_of("[");
    append_repeat(&mut s, '█', filled);
    append_repeat(&mut s, ' ', empty);
    append_str(&mut s, "]");
    assert(repeat_char(' ', empty as int) =~= repeat_char(' ', length - filled));
    assert(s@ =~= hp_bar_text(filled as int, length as int));
    s
}

/// `s` without leading line breaks.
pub open spec fn strip_leading_newlines(s: Seq<char>) -> Seq<char>
    decreases s.len(),
{
    if s.len() > 0 && s[0] == '\n' { strip_leading_newlines(s.drop_first()) } else { s }
}

/// `s` without trailing line breaks.
pub open spec fn strip_trailing_newlines(s: Seq<char>) -> Seq<char>
    decreases s.len(),
{
    if s.len() > 0 && s.last() == '\n' { strip_trailing_newlines(s.drop_last()) } else { s }
}

/// `s` without leading and trailing line breaks.
pub open spec fn strip_newlines(s: Seq<char>) -> Seq<char> {
    strip_trailing_newlines(strip_leading_newlines(s))
}

fn strip_newlines_string(s: &str) -> (r: String)
    ensures
        r@ == strip_newlines(s@),
{
    let v = chars_of(s);
    let n = v.len();
    let mut i: usize = 0;
    assert(s@.subrange(0, n as int) =~= s@);
    while i < n && v[i] == '\n'
        invariant
            v@ == s@,
            n == v@.len(),
            i <= n,
            strip_leading_newlines(s@) == strip_leading_newlines(s@.subrange(i as int, n as int)),
        decreases n - i,
    {
        assert(s@.subrange(i as int, n as int).drop_first() =~= s@.subrange(i + 1, n as int));
        i = i + 1;
    }
    let mut j: usize = n;
    while j > i && v[j - 1] == '\n'
        invariant
            v@ == s@,
            n == v@.len(),
            i <= j <= n,
            strip_newlines(s@) == strip_trailing_newlines(s@.subrange(i as int, j as int)),
        decreases j - i,
    {
        assert(s@.subrange(i as int, j as int).drop_last() =~= s@.subrange(i as int, j - 1));
        j = j - 1;
    }
    string_from_chars(&v, i, j)
}

/// The monster panel: its picture without surrounding line breaks, then
/// its name, HP and an HP bar of 14 cells of which `filled` are full.
pub open spec fn monster_display_text(m: Monster, filled: int) -> Seq<char> {
    strip_newlines(m.glyph_art@) + "\n           【 "@ + m.name@ + " 】  HP: "@ + pad2(int_decimal(m.hp as int))
        + "/"@ + int_decimal(m.max_hp as int) + "  "@ + hp_bar_text(filled, 14) + "\n"@
}

/// The monster panel, with `filled` of the bar's 14 cells full.
pub fn format_monster_display(monster: &Monster, filled: usize) -> (r: String)
    ensures
        r@ == monster_display_text(*monster, filled as int),
{
    let mut s = strip_newlines_string(monster.glyph_art);
    append_str(&mut s, "\n           【 ");
    append_str(&mut s, monster.name.as_str());
    append_str(&mut s, " 】  HP: ");
    append_padded_int(&mut s, monster.hp);
    append_str(&mut s, "/");
    append_int(&mut s, monster.max_hp as i64);
    append_str(&mut s, "  ");
    let bar = format_hp_bar_cells(filled, 14);
    append_str(&mut s, bar.as_str());
    append_str(&mut s, "\n");
    assert(s@ =~= monster_display_text(*monster, filled as int));
    s
}

} // verus!
