//! Keys while exploring, using a command, talking, shopping, staying at
//! the inn and travelling.

use super::battle_input::says;
use super::{
    direction_of, is_advance, is_cancel, is_confirm, is_down, is_up, spec_direction, AppMode, CommandMenuStage,
    CommandMenuState, Key, TravelState,
};
use crate::party::inventory::strings_view;
use crate::party::{PartyMember, PartyState, PlayerInventory};
use crate::text::{append_int, int_decimal, string_of};
use crate::town::dialogue::{shop_item, shop_text, spec_shop_description, spec_shop_item, topic_reply, inn_rest_text, spans_spec};
use crate::town::dialogue::greeting_text;
use crate::town::interact::{spec_classify_tile, CHEST_GOLD};
use crate::town::movement::facing_after;
use crate::event::{sudden_event_outcome, SuddenEventCategory, SuddenEventDef, SuddenEventHistory, SuddenEventRegistry, SuddenEventTriggered};
use crate::timer::SimpleTimer;
use crate::town::travel::{
    day_advanced, destination_selected, event_resolved, posture_selected, spec_total_days, transport_selected,
    travel_started, went_back, TravelStepView,
};
use crate::town::TravelStepOutcome;
use crate::town::{
    interacted, player_moved, AreaId, CommandKind, DialogueLearnStage, DialoguePartner, DialogueSession,
    InteractOutcome, LearnableSpan, MoveOutcome, Position, TargetKind, TownState, TravelPhase, TravelPlan,
    TravelPosture, TravelSimulation, TravelTransport, SHOP_ITEM_COUNT,
};
use rand::rngs::StdRng;
use vstd::prelude::*;

verus! {

// ---------------------------------------------------------------------------
// The inn.
// ---------------------------------------------------------------------------

/// What one key does at the inn's counter.
pub open spec fn inn_key_outcome(
    k: Key,
    omode: AppMode,
    om: Seq<PartyMember>,
    oi: PlayerInventory,
    od: Option<DialogueSession>,
    nmode: AppMode,
    nm: Seq<PartyMember>,
    ni: PlayerInventory,
    nd: Option<DialogueSession>,
    r: Option<String>,
) -> bool {
    if is_confirm(k) {
        nmode == omode && match od {
            Some(s) => {
                let paid = oi.gold >= 50;
                &&& nd matches Some(ns) && ns.current_text@ == inn_rest_text(paid) && ns.partner == s.partner
                    && ns.learn_stage == s.learn_stage
                &&& ni.gold == if paid { oi.gold - 50 } else { oi.gold as int }
                &&& ni.items@ == oi.items@ && ni.topics@ == oi.topics@
                &&& nm.len() == om.len()
                &&& forall|i: int| 0 <= i < om.len() ==> {
                    let m = #[trigger] nm[i];
                    let o = om[i];
                    &&& m.name == o.name && m.job == o.job && m.influence == o.influence
                    &&& m.mental_state == o.mental_state && m.personality == o.personality
                    &&& m.is_player == o.is_player
                    &&& m.max_hp == o.max_hp && m.max_mp == o.max_mp
                    &&& m.hp == if paid { o.max_hp } else { o.hp }
                    &&& m.mp == if paid { o.max_mp } else { o.mp }
                }
                &&& says(r, inn_rest_text(paid))
            },
            None => nd is None && nm == om && ni == oi && r is None,
        }
    } else if is_cancel(k) {
        nd is None && nmode == AppMode::Town && nm == om && ni == oi && says(r, "宿屋を出た。"@)
    } else {
        nmode == omode && nd == od && nm == om && ni == oi && r is None
    }
}

/// One key at the inn: `1`/Enter stays the night (see `rest_at_inn`),
/// `3`/Escape leaves.
pub fn handle_inn_input(
    key: Key,
    mode: &mut AppMode,
    party: &mut PartyState,
    inv: &mut PlayerInventory,
    dialogue: &mut Option<DialogueSession>,
) -> (r: Option<String>)
    ensures
        inn_key_outcome(
            key,
            *old(mode),
            old(party).members@,
            *old(inv),
            *old(dialogue),
            *final(mode),
            final(party).members@,
            *final(inv),
            *final(dialogue),
            r,
        ),
        final(party).selected_index == old(party).selected_index,
        final(party).debug_mode == old(party).debug_mode,
{
    if key == Key::Digit1 || key == Key::Enter {
        match dialogue {
            Some(session) => {
                session.rest_at_inn(inv, &mut party.members);
                Some(session.current_text.clone())
            },
            None => None,
        }
    } else if key == Key::Digit3 || key == Key::Escape {
        *dialogue = None;
        *mode = AppMode::Town;
        Some(string_of("宿屋を出た。"))
    } else {
        None
    }
}

// ---------------------------------------------------------------------------
// The shop.
// ---------------------------------------------------------------------------

/// The line shown for the `i`-th article.
pub open spec fn article_text(i: int) -> Seq<char> {
    "【"@ + spec_shop_item(i).0 + "】("@ + int_decimal(spec_shop_item(i).1) + "G)\n"@
        + spec_shop_description(i)
}

/// What one key does at the shop's counter.
pub open spec fn shop_key_outcome(
    k: Key,
    omode: AppMode,
    oi: PlayerInventory,
    od: Option<DialogueSession>,
    nmode: AppMode,
    ni: PlayerInventory,
    nd: Option<DialogueSession>,
    r: Option<String>,
) -> bool {
    if is_up(k) {
        nmode == omode && ni == oi && match od {
            Some(s) => {
                let idx = if s.selected_shop_index > 0 { s.selected_shop_index - 1 } else { 0 };
                nd == Some(DialogueSession { selected_shop_index: idx as usize, ..s }) && says(r, article_text(idx))
            },
            None => nd is None && r is None,
        }
    } else if is_down(k) {
        nmode == omode && ni == oi && match od {
            Some(s) => if s.selected_shop_index + 1 < SHOP_ITEM_COUNT {
                let idx = s.selected_shop_index + 1;
                nd == Some(DialogueSession { selected_shop_index: idx as usize, ..s }) && says(r, article_text(idx))
            } else {
                nd == od && r is None
            },
            None => nd is None && r is None,
        }
    } else if is_confirm(k) {
        nmode == omode && match od {
            Some(s) => {
                let (name, price) = spec_shop_item(s.selected_shop_index as int);
                let paid = oi.gold >= price;
                &&& ni.gold == if paid { oi.gold - price } else { oi.gold as int }
                &&& strings_view(ni.items@) == if paid {
                    strings_view(oi.items@).push(name)
                } else {
                    strings_view(oi.items@)
                }
                &&& ni.topics@ == oi.topics@
                &&& nd matches Some(ns) && ns.current_text@ == shop_text(paid, name, price, ni.gold as int)
                    && ns.partner == s.partner && ns.selected_shop_index == s.selected_shop_index
                    && ns.learn_stage == s.learn_stage
                &&& says(r, shop_text(paid, name, price, ni.gold as int))
            },
            None => nd is None && ni == oi && r is None,
        }
    } else if is_cancel(k) {
        nd is None && nmode == AppMode::Town && ni == oi && says(r, "道具屋を出た。"@)
    } else {
        nmode == omode && nd == od && ni == oi && r is None
    }
}

/// The line shown for the `index`-th article.
fn article_line(index: usize) -> (r: String)
    requires
        index < SHOP_ITEM_COUNT,
    ensures
        r@ == article_text(index as int),
{
    let item = shop_item(index);
    let mut s = string_of("【");
    s.append(item.name);
    s.append("】(");
    append_int(&mut s, item.price as i64);
    s.append("G)\n");
    s.append(item.description);
    s
}

/// One key at the shop: up and down browse the articles (showing the one
/// chosen), `1`/Enter buys it (see `buy_item`), `3`/Escape leaves.
pub fn handle_shop_input(
    key: Key,
    mode: &mut AppMode,
    inv: &mut PlayerInventory,
    dialogue: &mut Option<DialogueSession>,
) -> (r: Option<String>)
    requires
        *old(dialogue) matches Some(s) ==> s.selected_shop_index < SHOP_ITEM_COUNT,
    ensures
        shop_key_outcome(key, *old(mode), *old(inv), *old(dialogue), *final(mode), *final(inv), *final(dialogue), r),
{
    if key == Key::W || key == Key::ArrowUp {
        match dialogue {
            Some(session) => {
                session.selected_shop_index = if session.selected_shop_index > 0 {
                    session.selected_shop_index - 1
                } else {
                    0
                };
                Some(article_line(session.selected_shop_index))
            },
            None => None,
        }
    } else if key == Key::S || key == Key::ArrowDown {
        match dialogue {
            Some(session) => {
                if session.selected_shop_index + 1 < SHOP_ITEM_COUNT {
                    session.selected_shop_index = session.selected_shop_index + 1;
                    Some(article_line(session.selected_shop_index))
                } else {
                    None
                }
            },
            None => None,
        }
    } else if key == Key::Digit1 || key == Key::Enter {
        match dialogue {
            Some(session) => {
                session.buy_item(inv);
                Some(session.current_text.clone())
            },
            None => None,
        }
    } else if key == Key::Digit3 || key == Key::Escape {
        *dialogue = None;
        *mode = AppMode::Town;
        Some(string_of("道具屋を出た。"))
    } else {
        None
    }
}

// ---------------------------------------------------------------------------
// Conversations.
// ---------------------------------------------------------------------------

/// The word a span marks in `text` (clipped to its length).
pub open spec fn span_word(text: Seq<char>, sp: LearnableSpan) -> Seq<char> {
    text.subrange(
        if sp.start <= text.len() { sp.start as int } else { text.len() as int },
        if sp.end <= text.len() { sp.end as int } else { text.len() as int },
    )
}

/// The message after trying to remember `word`.
pub open spec fn learned_text(word: Seq<char>, learned: bool) -> Seq<char> {
    if learned {
        "【"@ + word + "】を手帳に覚えた！\n（話題リストに追加されました）"@
    } else {
        "【"@ + word + "】は既に覚えている。"@
    }
}

/// `ni` is `oi` after trying to remember `word` (nothing when it is known).
pub open spec fn remembered(oi: PlayerInventory, word: Seq<char>, ni: PlayerInventory) -> bool {
    let learned = !strings_view(oi.topics@).contains(word);
    &&& strings_view(ni.topics@) == if learned { strings_view(oi.topics@).push(word) } else { strings_view(oi.topics@) }
    &&& ni.gold == oi.gold
    &&& ni.items@ == oi.items@
}

/// `ns` is `s` after the topic was asked (see `ask_topic`).
pub open spec fn asked(s: DialogueSession, topic: Seq<char>, ns: DialogueSession) -> bool {
    &&& ns.current_text@ == topic_reply(s.partner, topic).0
    &&& spans_spec(ns.current_text@, topic_reply(s.partner, topic).1, ns.learnable_spans@)
    &&& ns.learn_stage == DialogueLearnStage::Talking
    &&& ns.partner == s.partner
    &&& ns.selected_topic_index == s.selected_topic_index
    &&& ns.selected_shop_index == s.selected_shop_index
}

/// What one key does in a conversation.
pub open spec fn dialogue_key_outcome(
    k: Key,
    omode: AppMode,
    oi: PlayerInventory,
    od: Option<DialogueSession>,
    nmode: AppMode,
    ni: PlayerInventory,
    nd: Option<DialogueSession>,
    r: Option<String>,
) -> bool {
    match od {
        None => if is_cancel(k) {
            nd is None && nmode == AppMode::Town && ni == oi && says(r, "会話を終えて、再び歩き出した。"@)
        } else {
            nmode == omode && nd is None && ni == oi && r is None
        },
        Some(s) => match s.learn_stage {
            DialogueLearnStage::Talking => if is_up(k) {
                let idx = if s.selected_topic_index > 0 { s.selected_topic_index - 1 } else { 0 };
                nmode == omode && ni == oi && r is None && nd == Some(
                    DialogueSession { selected_topic_index: idx as usize, ..s },
                )
            } else if is_down(k) {
                let last = if oi.topics@.len() > 0 { oi.topics@.len() - 1 } else { 0 };
                nmode == omode && ni == oi && r is None && nd == Some(
                    if s.selected_topic_index < last {
                        DialogueSession { selected_topic_index: (s.selected_topic_index + 1) as usize, ..s }
                    } else {
                        s
                    },
                )
            } else if is_confirm(k) {
                nmode == omode && ni == oi && if s.selected_topic_index < oi.topics@.len() {
                    nd matches Some(ns) && asked(s, oi.topics@[s.selected_topic_index as int]@, ns) && says(
                        r,
                        ns.current_text@,
                    )
                } else {
                    nd == od && r is None
                }
            } else if k == Key::Digit2 {
                nmode == omode && if s.learnable_spans@.len() == 0 {
                    nd == od && ni == oi && says(r, "新しく覚えられるキーワードは見当たらない。"@)
                } else if s.learnable_spans@.len() == 1 {
                    let word = span_word(s.current_text@, s.learnable_spans@[0]);
                    nd == od && remembered(oi, word, ni) && says(
                        r,
                        learned_text(word, !strings_view(oi.topics@).contains(word)),
                    )
                } else {
                    nd == Some(DialogueSession { learn_stage: DialogueLearnStage::ChoosingLearnTarget { cursor: 0 }, ..s })
                        && ni == oi && r is None
                }
            } else if is_cancel(k) {
                nd is None && nmode == AppMode::Town && ni == oi && says(r, "会話を終えて、再び歩き出した。"@)
            } else {
                nmode == omode && nd == od && ni == oi && r is None
            },
            DialogueLearnStage::ChoosingLearnTarget { cursor } => {
                let len = if s.learnable_spans@.len() > 0 { s.learnable_spans@.len() as int } else { 1 };
                let talking = DialogueSession { learn_stage: DialogueLearnStage::Talking, ..s };
                &&& nmode == omode
                &&& if is_up(k) {
                    ni == oi && r is None && nd == Some(
                        DialogueSession {
                            learn_stage: DialogueLearnStage::ChoosingLearnTarget { cursor: ((cursor + len - 1) % len) as usize },
                            ..s
                        },
                    )
                } else if is_down(k) {
                    ni == oi && r is None && nd == Some(
                        DialogueSession {
                            learn_stage: DialogueLearnStage::ChoosingLearnTarget { cursor: ((cursor + 1) % len) as usize },
                            ..s
                        },
                    )
                } else if is_confirm(k) {
                    nd == Some(talking) && if cursor < s.learnable_spans@.len() {
                        let word = span_word(s.current_text@, s.learnable_spans@[cursor as int]);
                        remembered(oi, word, ni) && says(r, learned_text(word, !strings_view(oi.topics@).contains(word)))
                    } else {
                        ni == oi && r is None
                    }
                } else if is_cancel(k) {
                    nd == Some(talking) && ni == oi && r is None
                } else {
                    nd == od && ni == oi && r is None
                }
            },
        },
    }
}

/// Remembers the word `sp` marks in `text`; returns the message.
fn learn_span(inv: &mut PlayerInventory, text: &String, sp: LearnableSpan) -> (r: String)
    requires
        sp.start <= sp.end,
    ensures
        remembered(*old(inv), span_word(text@, sp), *final(inv)),
        r@ == learned_text(span_word(text@, sp), !strings_view(old(inv).topics@).contains(span_word(text@, sp))),
{
    let word = sp.slice(text.as_str());
    let learned = inv.learn_topic(word.as_str());
    let mut msg = string_of("【");
    msg.append(word.as_str());
    if learned {
        msg.append("】を手帳に覚えた！\n（話題リストに追加されました）");
    } else {
        msg.append("】は既に覚えている。");
    }
    msg
}

/// The spans of a conversation each run forwards, and the learning cursor
/// leaves room for its arithmetic.
pub open spec fn dialogue_ready(d: Option<DialogueSession>) -> bool {
    d matches Some(s) ==> {
        &&& forall|i: int| 0 <= i < s.learnable_spans@.len() ==> (#[trigger] s.learnable_spans@[i]).start
            <= s.learnable_spans@[i].end
        &&& s.learn_stage matches DialogueLearnStage::ChoosingLearnTarget { cursor } ==> cursor + s.learnable_spans@.len()
            < usize::MAX
    }
}

/// Whether a conversation meets `dialogue_ready`: every span runs
/// forwards, and a word cursor leaves room to move round the spans.
pub fn dialogue_is_ready(d: &Option<DialogueSession>) -> (r: bool)
    ensures
        r == dialogue_ready(*d),
{
    match d {
        None => true,
        Some(s) => {
            let n = s.learnable_spans.len();
            let mut i: usize = 0;
            while i < n
                invariant
                    *d == Some(*s),
                    n == s.learnable_spans@.len(),
                    i <= n,
                    forall|k: int| 0 <= k < i ==> (#[trigger] s.learnable_spans@[k]).start <= s.learnable_spans@[k].end,
                decreases n - i,
            {
                if s.learnable_spans[i].start > s.learnable_spans[i].end {
                    assert(!((s.learnable_spans@[i as int]).start <= s.learnable_spans@[i as int].end));
                    return false;
                }
                i = i + 1;
            }
            match s.learn_stage {
                DialogueLearnStage::ChoosingLearnTarget { cursor } => cursor < usize::MAX - n,
                DialogueLearnStage::Talking => true,
            }
        },
    }
}

/// One key in a conversation: while talking, up and down pick a topic,
/// `1`/Enter asks it, `2` remembers the one marked word or starts choosing
/// among several, `3`/Escape ends the conversation; while choosing a word,
/// up and down move the cursor round, `1`/Enter remembers the word under it
/// and `3`/Escape gives up choosing.
pub fn handle_dialogue_input(
    key: Key,
    mode: &mut AppMode,
    inv: &mut PlayerInventory,
    dialogue: &mut Option<DialogueSession>,
) -> (r: Option<String>)
    requires
        dialogue_ready(*old(dialogue)),
    ensures
        dialogue_key_outcome(key, *old(mode), *old(inv), *old(dialogue), *final(mode), *final(inv), *final(dialogue), r),
{
    let talking = match dialogue {
        Some(session) => match session.learn_stage {
            DialogueLearnStage::Talking => true,
            _ => false,
        },
        None => true,
    };
    if talking {
        if key == Key::W || key == Key::ArrowUp {
            if let Some(session) = dialogue {
                session.selected_topic_index = if session.selected_topic_index > 0 {
                    session.selected_topic_index - 1
                } else {
                    0
                };
            }
            None
        } else if key == Key::S || key == Key::ArrowDown {
            if let Some(session) = dialogue {
                let last = if inv.topics.len() > 0 { inv.topics.len() - 1 } else { 0 };
                if session.selected_topic_index < last {
                    session.selected_topic_index = session.selected_topic_index + 1;
                }
            }
            None
        } else if key == Key::Digit1 || key == Key::Enter {
            match dialogue {
                Some(session) => {
                    if session.selected_topic_index < inv.topics.len() {
                        let topic = inv.topics[session.selected_topic_index].clone();
                        session.ask_topic(topic.as_str());
                        Some(session.current_text.clone())
                    } else {
                        None
                    }
                },
                None => None,
            }
        } else if key == Key::Digit2 {
            match dialogue {
                Some(session) => {
                    let n = session.learnable_spans.len();
                    if n == 0 {
                        Some(string_of("新しく覚えられるキーワードは見当たらない。"))
                    } else if n == 1 {
                        let sp = session.learnable_spans[0];
                        Some(learn_span(inv, &session.current_text, sp))
                    } else {
                        session.learn_stage = DialogueLearnStage::ChoosingLearnTarget { cursor: 0 };
                        None
                    }
                },
                None => None,
            }
        } else if key == Key::Digit3 || key == Key::Escape {
            *dialogue = None;
            *mode = AppMode::Town;
            Some(string_of("会話を終えて、再び歩き出した。"))
        } else {
            None
        }
    } else {
        match dialogue {
            Some(session) => {
                let cursor = match session.learn_stage {
                    DialogueLearnStage::ChoosingLearnTarget { cursor } => cursor,
                    DialogueLearnStage::Talking => 0,
                };
                let len = if session.learnable_spans.len() > 0 { session.learnable_spans.len() } else { 1 };
                if key == Key::W || key == Key::ArrowUp {
                    session.learn_stage = DialogueLearnStage::ChoosingLearnTarget { cursor: (cursor + len - 1) % len };
                    None
                } else if key == Key::S || key == Key::ArrowDown {
                    session.learn_stage = DialogueLearnStage::ChoosingLearnTarget { cursor: (cursor + 1) % len };
                    None
                } else if key == Key::Digit1 || key == Key::Enter {
                    let msg = if cursor < session.learnable_spans.len() {
                        let sp = session.learnable_spans[cursor];
                        Some(learn_span(inv, &session.current_text, sp))
                    } else {
                        None
                    };
                    session.learn_stage = DialogueLearnStage::Talking;
                    msg
                } else if key == Key::Digit3 || key == Key::Escape {
                    session.learn_stage = DialogueLearnStage::Talking;
                    None
                } else {
                    None
                }
            },
            None => None,
        }
    }
}

// ---------------------------------------------------------------------------
// The command window.
// ---------------------------------------------------------------------------

/// The `i`-th command of the window.
pub open spec fn spec_command_at(i: int) -> CommandKind {
    if i == 0 {
        CommandKind::Examine
    } else if i == 1 {
        CommandKind::Talk
    } else if i == 2 {
        CommandKind::Item
    } else {
        CommandKind::Steal
    }
}

/// The `i`-th command of the window.
pub(crate) fn command_at(i: usize) -> (r: CommandKind)
    requires
        i < 4,
    ensures
        r == spec_command_at(i as int),
{
    if i == 0 {
        CommandKind::Examine
    } else if i == 1 {
        CommandKind::Talk
    } else if i == 2 {
        CommandKind::Item
    } else {
        CommandKind::Steal
    }
}

/// One line per item, each after a bullet.
pub open spec fn bullet_lines(items: Seq<Seq<char>>) -> Seq<char>
    decreases items.len(),
{
    if items.len() == 0 {
        Seq::empty()
    } else {
        bullet_lines(items.drop_last()) + "・"@ + items.last() + "\n"@
    }
}

/// The belongings as the "item" command shows them.
pub open spec fn belongings_text(gold: int, items: Seq<Seq<char>>) -> Seq<char> {
    "【どうぐ】所持金: "@ + int_decimal(gold) + "G\n"@ + if items.len() == 0 {
        "何も持っていない。"@
    } else {
        bullet_lines(items)
    }
}

/// The label of `c` for what stands in front.
pub open spec fn label_for(c: CommandKind, target: TargetKind) -> Seq<char> {
    if c == CommandKind::Examine && target == TargetKind::Npc {
        "みる"@
    } else {
        c.spec_base_label()
    }
}

/// `ns` is the conversation `DialogueSession::start(p)` opens.
pub open spec fn conversation_opened(p: DialoguePartner, ns: DialogueSession) -> bool {
    &&& ns.partner == p
    &&& ns.selected_topic_index == 0
    &&& ns.selected_shop_index == 0
    &&& ns.current_text@ == greeting_text(p)
    &&& ns.learnable_spans@.len() == 0
    &&& ns.learn_stage == DialogueLearnStage::Talking
}

/// The mode a conversation with `p` puts the screen in.
pub open spec fn mode_for_partner(p: DialoguePartner) -> AppMode {
    match p {
        DialoguePartner::Shop => AppMode::Shop,
        DialoguePartner::Inn => AppMode::Inn,
        _ => AppMode::Dialogue,
    }
}

/// What one key does in the command window.
pub open spec fn interact_key_outcome(
    k: Key,
    omode: AppMode,
    ot: TownState,
    oi: PlayerInventory,
    omenu: CommandMenuState,
    od: Option<DialogueSession>,
    nmode: AppMode,
    nt: TownState,
    ni: PlayerInventory,
    nmenu: CommandMenuState,
    nd: Option<DialogueSession>,
    r: Option<String>,
) -> bool {
    match omenu.stage {
        CommandMenuStage::ChoosingCommand => {
            let idx = omenu.selected_index as int;
            &&& nt == ot && ni == oi && nd == od
            &&& if is_up(k) {
                nmode == omode && r is None && nmenu == CommandMenuState { selected_index: ((idx + 3) % 4) as usize, ..omenu }
            } else if is_down(k) {
                nmode == omode && r is None && nmenu == CommandMenuState { selected_index: ((idx + 1) % 4) as usize, ..omenu }
            } else if is_confirm(k) {
                let c = spec_command_at(idx);
                if c != CommandKind::Item {
                    let target = spec_classify_tile(ot.map.spec_get(ot.spec_ahead().0, ot.spec_ahead().1));
                    &&& nmode == omode
                    &&& nmenu == CommandMenuState { stage: CommandMenuStage::ChoosingDirection(c), ..omenu }
                    &&& says(r, "『"@ + label_for(c, target) + "』する方向を選んでください。"@)
                } else {
                    nmode == AppMode::Town && nmenu == omenu && says(r, belongings_text(oi.gold as int, strings_view(oi.items@)))
                }
            } else if is_cancel(k) {
                nmode == AppMode::Town && nmenu == omenu && says(r, "コマンドをやめた。"@)
            } else {
                nmode == omode && nmenu == omenu && r is None
            }
        },
        CommandMenuStage::ChoosingDirection(c) => {
            let d = spec_direction(k);
            if d != (0int, 0int) {
                let faced = TownState { player_facing: facing_after(ot.player_facing, d.0, d.1), dirty: true, ..ot };
                let back = |m: AppMode| if m == AppMode::Interact { AppMode::Town } else { m };
                &&& nmenu == CommandMenuState { stage: CommandMenuStage::ChoosingCommand, ..omenu }
                &&& exists|o: InteractOutcome|
                    #[trigger] interacted(faced, c, nt, o) && match o {
                        InteractOutcome::Message(m) => r == Some(m) && ni == oi && nd == od && nmode == back(omode),
                        InteractOutcome::ChestOpened { gold, item, message } => {
                            &&& r == Some(message)
                            &&& nd == od
                            &&& nmode == back(omode)
                            &&& ni.gold == oi.gold + gold
                            &&& strings_view(ni.items@) == strings_view(oi.items@).push(item@)
                            &&& ni.topics@ == oi.topics@
                        },
                        InteractOutcome::StartDialogue(p) => {
                            &&& ni == oi
                            &&& nd matches Some(ns) && conversation_opened(p, ns) && says(r, ns.current_text@)
                            &&& nmode == back(mode_for_partner(p))
                        },
                    }
            } else if k == Key::Escape {
                &&& nt == ot && ni == oi && nd == od
                &&& nmode == AppMode::Town
                &&& nmenu == CommandMenuState { stage: CommandMenuStage::ChoosingCommand, ..omenu }
                &&& says(r, "コマンドをやめた。"@)
            } else {
                nt == ot && ni == oi && nd == od && nmode == omode && nmenu == omenu && r is None
            }
        },
    }
}

/// Appends the bullet lines of `items`.
fn append_bullets(s: &mut String, items: &Vec<String>)
    ensures
        final(s)@ == old(s)@ + bullet_lines(strings_view(items@)),
{
    let mut i: usize = 0;
    while i < items.len()
        invariant
            i <= items@.len(),
            s@ == old(s)@ + bullet_lines(strings_view(items@.take(i as int))),
        decreases items@.len() - i,
    {
        let ghost before = s@;
        s.append("・");
        s.append(items[i].as_str());
        s.append("\n");
        proof {
            let t = strings_view(items@.take(i + 1));
            assert(t.drop_last() =~= strings_view(items@.take(i as int)));
            assert(t.last() == items@[i as int]@);
            assert(s@ =~= old(s)@ + bullet_lines(t));
        }
        i = i + 1;
    }
    proof {
        assert(items@.take(i as int) =~= items@);
    }
}

/// One key in the command window: while choosing, up and down move round
/// the commands, `1`/Enter takes one (the item command shows the
/// belongings at once, the others ask for a direction), `3`/Escape closes;
/// while choosing the direction, a direction key turns that way and uses
/// the command there (a chest's gold and item go to the belongings, a
/// person starts a conversation), Escape closes.
pub fn handle_interact_input(
    key: Key,
    mode: &mut AppMode,
    town: &mut TownState,
    inv: &mut PlayerInventory,
    menu: &mut CommandMenuState,
    dialogue: &mut Option<DialogueSession>,
) -> (r: Option<String>)
    requires
        old(town).wf(),
        i32::MIN < old(town).player_pos.x < i32::MAX,
        i32::MIN < old(town).player_pos.y < i32::MAX,
        old(menu).selected_index < 4,
        old(inv).gold <= i32::MAX - CHEST_GOLD,
    ensures
        interact_key_outcome(
            key,
            *old(mode),
            *old(town),
            *old(inv),
            *old(menu),
            *old(dialogue),
            *final(mode),
            *final(town),
            *final(inv),
            *final(menu),
            *final(dialogue),
            r,
        ),
{
    match menu.stage {
        CommandMenuStage::ChoosingCommand => {
            if key == Key::W || key == Key::ArrowUp {
                menu.selected_index = (menu.selected_index + 3) % 4;
                None
            } else if key == Key::S || key == Key::ArrowDown {
                menu.selected_index = (menu.selected_index + 1) % 4;
                None
            } else if key == Key::Digit1 || key == Key::Enter {
                let command = command_at(menu.selected_index);
                if command.needs_direction() {
                    let label = command.dynamic_label(town.facing_target_kind());
                    menu.stage = CommandMenuStage::ChoosingDirection(command);
                    let mut msg = string_of("『");
                    msg.append(label);
                    msg.append("』する方向を選んでください。");
                    Some(msg)
                } else {
                    let mut msg = string_of("【どうぐ】所持金: ");
                    append_int(&mut msg, inv.gold as i64);
                    msg.append("G\n");
                    if inv.items.len() == 0 {
                        msg.append("何も持っていない。");
                    } else {
                        append_bullets(&mut msg, &inv.items);
                    }
                    *mode = AppMode::Town;
                    Some(msg)
                }
            } else if key == Key::Digit3 || key == Key::Escape {
                *mode = AppMode::Town;
                Some(string_of("コマンドをやめた。"))
            } else {
                None
            }
        },
        CommandMenuStage::ChoosingDirection(command) => {
            let (dx, dy) = direction_of(key);
            if dx != 0 || dy != 0 {
                town.face(dx, dy);
                let outcome = town.resolve_interact(command);
                let msg = match outcome {
                    InteractOutcome::Message(m) => m,
                    InteractOutcome::ChestOpened { gold, item, message } => {
                        inv.add_gold(gold);
                        inv.add_item(item.as_str());
                        message
                    },
                    InteractOutcome::StartDialogue(partner) => {
                        let session = DialogueSession::start(partner);
                        let text = session.current_text.clone();
                        *mode = match partner {
                            DialoguePartner::Shop => AppMode::Shop,
                            DialoguePartner::Inn => AppMode::Inn,
                            _ => AppMode::Dialogue,
                        };
                        *dialogue = Some(session);
                        text
                    },
                };
                if *mode == AppMode::Interact {
                    *mode = AppMode::Town;
                }
                menu.stage = CommandMenuStage::ChoosingCommand;
                Some(msg)
            } else if key == Key::Escape {
                *mode = AppMode::Town;
                menu.stage = CommandMenuStage::ChoosingCommand;
                Some(string_of("コマンドをやめた。"))
            } else {
                None
            }
        },
    }
}

// ---------------------------------------------------------------------------
// Exploring.
// ---------------------------------------------------------------------------

/// The message after the torch was lit or put out.
pub open spec fn torch_text(lit: bool) -> Seq<char> {
    if lit {
        "松明に火を灯した。周囲が明るくなった！（視界半径6マス）"@
    } else {
        "松明の火を消した。月明かりだけが頼りだ……（視界半径2マス）"@
    }
}

/// `sim` is the plan `TravelSimulation::new(from, dest, spawn)` starts.
pub open spec fn fresh_travel(sim: TravelSimulation, from: AreaId, dest: AreaId, spawn: Position) -> bool {
    &&& sim.plan == (TravelPlan {
        from_area: from,
        destination: dest,
        posture: TravelPosture::Normal,
        transport: TravelTransport::Foot,
    })
    &&& sim.phase == TravelPhase::ChoosingDestination
    &&& sim.current_day == 0
    &&& sim.total_days == spec_total_days(sim.plan)
    &&& sim.spawn_pos == spawn
    &&& sim.current_message@ == Seq::<char>::empty()
    &&& sim.log_history@.len() == 0
    &&& sim.pending_event is None
    &&& sim.selected_index == 0
}

/// `nt` is `ot` with the torch flipped and the seen cells recomputed.
pub open spec fn torch_flipped(ot: TownState, nt: TownState) -> bool {
    &&& nt.wf()
    &&& nt.torch_active == !ot.torch_active
    &&& nt.fov_current()
    &&& nt.dirty
    &&& nt.current_area == ot.current_area
    &&& nt.map == ot.map
    &&& nt.player_pos == ot.player_pos
    &&& nt.player_facing == ot.player_facing
    &&& nt.followers == ot.followers
    &&& nt.debug_see_all == ot.debug_see_all
    &&& nt.last_encounter_pos == ot.last_encounter_pos
}

/// What the outcome `o` of a step does beyond the town itself.
pub open spec fn step_effects(
    o: MoveOutcome,
    omode: AppMode,
    od: Option<DialogueSession>,
    otr: TravelState,
    nt: TownState,
    nmode: AppMode,
    nd: Option<DialogueSession>,
    ntr: TravelState,
    r: Option<String>,
) -> bool {
    match o {
        MoveOutcome::Moved { message } => r == message && nmode == omode && nd == od && ntr == otr,
        MoveOutcome::Blocked { message } => r == message && nmode == omode && nd == od && ntr == otr,
        MoveOutcome::TriggerBattle { message, .. } => r == Some(message) && nmode == AppMode::Battle && nd is None
            && ntr == otr,
        MoveOutcome::ChangeArea { message, .. } => r == Some(message) && nmode == omode && nd == od && ntr == otr,
        MoveOutcome::RequestTravel { destination, spawn_pos } => {
            &&& nmode == AppMode::Travel
            &&& nd == od
            &&& ntr.destination == destination
            &&& ntr.spawn_pos == spawn_pos
            &&& ntr.step_timer == otr.step_timer
            &&& ntr.sim matches Some(sim) && fresh_travel(sim, nt.current_area, destination, spawn_pos)
            &&& says(r, destination.spec_name() + "へ続く街道口に立った。\n旅の計画を立ててください。"@)
        },
    }
}

/// What one key does while exploring.
pub open spec fn town_key_outcome(
    k: Key,
    omode: AppMode,
    ot: TownState,
    omenu: CommandMenuState,
    od: Option<DialogueSession>,
    otr: TravelState,
    nmode: AppMode,
    nt: TownState,
    nmenu: CommandMenuState,
    nd: Option<DialogueSession>,
    ntr: TravelState,
    r: Option<String>,
) -> bool {
    let d = spec_direction(k);
    if k == Key::L {
        torch_flipped(ot, nt) && nmode == omode && nmenu == omenu && nd == od && ntr == otr && says(
            r,
            torch_text(!ot.torch_active),
        )
    } else if d != (0int, 0int) {
        nmenu == omenu && exists|o: MoveOutcome|
            #[trigger] player_moved(ot, d.0, d.1, nt, o) && step_effects(o, omode, od, otr, nt, nmode, nd, ntr, r)
    } else if k == Key::Z {
        &&& nt == ot && nd == od && ntr == otr
        &&& nmenu == CommandMenuState { stage: CommandMenuStage::ChoosingCommand, selected_index: 0 }
        &&& nmode == AppMode::Interact
        &&& says(r, "コマンドを選んでください。"@)
    } else if k == Key::B {
        &&& nt == ot && nmenu == omenu && ntr == otr
        &&& nmode == AppMode::Battle
        &&& nd is None
        &&& says(r, "地下迷宮の魔物とエンカウントした！\nあなたの行動を選択してください。([B]で街へ帰還)"@)
    } else {
        nt == ot && nmenu == omenu && nd == od && ntr == otr && nmode == omode && r is None
    }
}

/// One key while exploring: `L` lights or puts out the torch, a direction
/// key takes a step (see `TownState::move_player`; a battle or the road out
/// changes the mode), `Z` opens the command window, `B` starts a battle.
pub fn handle_town_input(
    key: Key,
    mode: &mut AppMode,
    town: &mut TownState,
    menu: &mut CommandMenuState,
    dialogue: &mut Option<DialogueSession>,
    travel: &mut TravelState,
    rng: &mut StdRng,
) -> (r: Option<String>)
    requires
        old(town).wf(),
        i32::MIN < old(town).player_pos.x < i32::MAX,
        i32::MIN < old(town).player_pos.y < i32::MAX,
    ensures
        town_key_outcome(
            key,
            *old(mode),
            *old(town),
            *old(menu),
            *old(dialogue),
            *old(travel),
            *final(mode),
            *final(town),
            *final(menu),
            *final(dialogue),
            *final(travel),
            r,
        ),
{
    if key == Key::L {
        town.torch_active = !town.torch_active;
        town.recompute_fov();
        let status = if town.torch_active {
            "松明に火を灯した。周囲が明るくなった！（視界半径6マス）"
        } else {
            "松明の火を消した。月明かりだけが頼りだ……（視界半径2マス）"
        };
        return Some(string_of(status));
    }
    let (dx, dy) = direction_of(key);
    if dx != 0 || dy != 0 {
        let outcome = town.move_player(dx, dy, rng);
        let ghost o = outcome;
        let r = match outcome {
            MoveOutcome::Moved { message } => message,
            MoveOutcome::Blocked { message } => message,
            MoveOutcome::TriggerBattle { message, .. } => {
                *mode = AppMode::Battle;
                *dialogue = None;
                Some(message)
            },
            MoveOutcome::ChangeArea { message, .. } => Some(message),
            MoveOutcome::RequestTravel { destination, spawn_pos } => {
                let from_area = town.current_area;
                travel.destination = destination;
                travel.spawn_pos = spawn_pos;
                travel.sim = Some(TravelSimulation::new(from_area, destination, spawn_pos));
                *mode = AppMode::Travel;
                let mut msg = string_of(destination.name());
                msg.append("へ続く街道口に立った。\n旅の計画を立ててください。");
                Some(msg)
            },
        };
        assert(player_moved(*old(town), dx as int, dy as int, *town, o));
        return r;
    }
    if key == Key::Z {
        menu.stage = CommandMenuStage::ChoosingCommand;
        menu.selected_index = 0;
        *mode = AppMode::Interact;
        return Some(string_of("コマンドを選んでください。"));
    }
    if key == Key::B {
        *mode = AppMode::Battle;
        *dialogue = None;
        return Some(string_of("地下迷宮の魔物とエンカウントした！\nあなたの行動を選択してください。([B]で街へ帰還)"));
    }
    None
}

// ---------------------------------------------------------------------------
// The road.
// ---------------------------------------------------------------------------

/// The journey the road keys work on: the one under way, or a fresh plan
/// from the current area to the remembered destination.
pub open spec fn starting_sim(otr: TravelState, from: AreaId, s0: TravelSimulation) -> bool {
    match otr.sim {
        Some(s) => s0 == s,
        None => fresh_travel(s0, from, otr.destination, otr.spawn_pos),
    }
}

/// The message a day of travel brought.
pub open spec fn travel_step_message(v: TravelStepView) -> Seq<char> {
    match v {
        TravelStepView::Continued { message, .. } => message,
        TravelStepView::EventOccurred { message, .. } => message,
        TravelStepView::Arrived { message, .. } => message,
    }
}

/// `t1` is `t0` after `delta` nanoseconds (see `SimpleTimer::tick`).
pub open spec fn ticked(t0: SimpleTimer, delta: int, t1: SimpleTimer) -> bool {
    &&& t1.spec_duration() == t0.spec_duration()
    &&& t0.spec_finished() ==> t1.spec_elapsed() == t0.spec_elapsed() && t1.spec_finished()
    &&& !t0.spec_finished() ==> t1.spec_elapsed() == t0.spec_elapsed() + delta && t1.spec_finished() == (
    t1.spec_elapsed() >= t1.spec_duration())
}

/// `t1` is `t0` started again from zero.
pub open spec fn restarted(t0: SimpleTimer, t1: SimpleTimer) -> bool {
    t1.spec_duration() == t0.spec_duration() && t1.spec_elapsed() == 0 && !t1.spec_finished()
}

/// The road keys leave the rest as it was: town, belongings, events,
/// conversation and mode.
pub open spec fn road_unchanged(
    omode: AppMode, ot: TownState, oi: PlayerInventory, oh: SuddenEventHistory, od: Option<DialogueSession>,
    nmode: AppMode, nt: TownState, ni: PlayerInventory, nh: SuddenEventHistory, nd: Option<DialogueSession>,
) -> bool {
    nmode == omode && nt == ot && ni == oi && nh == oh && nd == od
}

/// `ntr` keeps `otr`'s destination, spawn and timer, with the journey `sim`.
pub open spec fn journey_is(otr: TravelState, ntr: TravelState, sim: Option<TravelSimulation>) -> bool {
    ntr.sim == sim && ntr.destination == otr.destination && ntr.spawn_pos == otr.spawn_pos && ntr.step_timer == otr.step_timer
}

/// What a road key does while choosing the destination (the journey being `s0`).
pub open spec fn road_destination(
    k: Option<Key>,
    delta: int,
    s0: TravelSimulation,
    omode: AppMode,
    ot: TownState,
    otr: TravelState,
    oi: PlayerInventory,
    events: Seq<SuddenEventDef>,
    oh: SuddenEventHistory,
    od: Option<DialogueSession>,
    nmode: AppMode,
    nt: TownState,
    ntr: TravelState,
    ni: PlayerInventory,
    nh: SuddenEventHistory,
    nd: Option<DialogueSession>,
    r: Option<String>,
) -> bool {
    let stop = nmode == AppMode::Town && nt == ot && ni == oi && nh == oh && nd == od && ntr.sim is None
        && ntr.destination == otr.destination && ntr.spawn_pos == otr.spawn_pos && ntr.step_timer == otr.step_timer
        && says(r, "街道を進むのをやめた。"@);
    if k matches Some(key) && is_confirm(key) {
        &&& road_unchanged(omode, ot, oi, oh, od, nmode, nt, ni, nh, nd)
        &&& ntr.sim matches Some(s1) && destination_selected(s0, otr.destination, otr.spawn_pos, s1)
        &&& journey_is(otr, ntr, ntr.sim)
        &&& says(r, otr.destination.spec_name() + "へ向かう旅を計画します。\n移動姿勢を選択してください。"@)
    } else if k == Some(Key::Escape) {
        stop
    } else {
        road_unchanged(omode, ot, oi, oh, od, nmode, nt, ni, nh, nd) && journey_is(otr, ntr, Some(s0)) && r is None
    }
}

/// What a road key does while choosing the posture (the journey being `s0`).
pub open spec fn road_posture(
    k: Option<Key>,
    delta: int,
    s0: TravelSimulation,
    omode: AppMode,
    ot: TownState,
    otr: TravelState,
    oi: PlayerInventory,
    events: Seq<SuddenEventDef>,
    oh: SuddenEventHistory,
    od: Option<DialogueSession>,
    nmode: AppMode,
    nt: TownState,
    ntr: TravelState,
    ni: PlayerInventory,
    nh: SuddenEventHistory,
    nd: Option<DialogueSession>,
    r: Option<String>,
) -> bool {
    match posture_key(k) {
        Some(p) => {
            &&& road_unchanged(omode, ot, oi, oh, od, nmode, nt, ni, nh, nd)
            &&& ntr.sim matches Some(s1) && posture_selected(s0, p, s1)
            &&& journey_is(otr, ntr, ntr.sim)
            &&& says(r, "移動姿勢を「"@ + posture_label(p) + "」に決定した。\n次に移動手段を選択してください。"@)
        },
        None => if k == Some(Key::Escape) {
            &&& road_unchanged(omode, ot, oi, oh, od, nmode, nt, ni, nh, nd)
            &&& ntr.sim matches Some(s1) && went_back(s0, s1, true)
            &&& journey_is(otr, ntr, ntr.sim)
            &&& says(r, "移動先の選択に戻った。"@)
        } else {
            road_unchanged(omode, ot, oi, oh, od, nmode, nt, ni, nh, nd) && journey_is(otr, ntr, Some(s0)) && r is None
        },
    }
}

/// The posture a key picks: cautious, normal, bold.
pub open spec fn posture_key(k: Option<Key>) -> Option<TravelPosture> {
    match k {
        Some(Key::Digit1) => Some(TravelPosture::Cautious),
        Some(Key::Digit2) => Some(TravelPosture::Normal),
        Some(Key::Digit3) => Some(TravelPosture::Bold),
        _ => None,
    }
}

/// The transport a key picks: foot, horse, carriage.
pub open spec fn transport_key(k: Option<Key>) -> Option<TravelTransport> {
    match k {
        Some(Key::Digit1) => Some(TravelTransport::Foot),
        Some(Key::Digit2) => Some(TravelTransport::Horse),
        Some(Key::Digit3) => Some(TravelTransport::Carriage),
        _ => None,
    }
}

/// `ntr` holds the journey `s2` that set off by `t` from `s0`, with the
/// step timer started again, and `r` its first day's text.
pub open spec fn set_off(s0: TravelSimulation, t: TravelTransport, otr: TravelState, ntr: TravelState, r: Option<String>) -> bool {
    &&& restarted(otr.step_timer, ntr.step_timer)
    &&& ntr.destination == otr.destination && ntr.spawn_pos == otr.spawn_pos
    &&& ntr.sim matches Some(s2) && exists|s1: TravelSimulation|
        #[trigger] transport_selected(s0, t, s1) && (r matches Some(m) && travel_started(s1, s2, m@))
}

/// What a road key does while choosing the transport (the journey being `s0`).
pub open spec fn road_transport(
    k: Option<Key>,
    delta: int,
    s0: TravelSimulation,
    omode: AppMode,
    ot: TownState,
    otr: TravelState,
    oi: PlayerInventory,
    events: Seq<SuddenEventDef>,
    oh: SuddenEventHistory,
    od: Option<DialogueSession>,
    nmode: AppMode,
    nt: TownState,
    ntr: TravelState,
    ni: PlayerInventory,
    nh: SuddenEventHistory,
    nd: Option<DialogueSession>,
    r: Option<String>,
) -> bool {
    match transport_key(k) {
        Some(t) => {
            let cost = t.spec_cost();
            &&& nmode == omode && nt == ot && nh == oh && nd == od
            &&& if oi.gold < cost {
                &&& ni == oi
                &&& journey_is(otr, ntr, Some(s0))
                &&& says(r, "所持金が足りません！（必要: "@ + int_decimal(cost as int) + "G, 所持: "@ + int_decimal(oi.gold as int) + "G）"@)
            } else {
                &&& ni.gold == oi.gold - cost && ni.items@ == oi.items@ && ni.topics@ == oi.topics@
                &&& set_off(s0, t, otr, ntr, r)
            }
        },
        None => if k == Some(Key::Escape) {
            &&& road_unchanged(omode, ot, oi, oh, od, nmode, nt, ni, nh, nd)
            &&& ntr.sim matches Some(s1) && went_back(s0, s1, true)
            &&& journey_is(otr, ntr, ntr.sim)
            &&& says(r, "移動姿勢の選択に戻った。"@)
        } else {
            road_unchanged(omode, ot, oi, oh, od, nmode, nt, ni, nh, nd) && journey_is(otr, ntr, Some(s0)) && r is None
        },
    }
}

/// What a road key does while on the way (the journey being `s0`).
pub open spec fn road_traveling(
    k: Option<Key>,
    delta: int,
    s0: TravelSimulation,
    omode: AppMode,
    ot: TownState,
    otr: TravelState,
    oi: PlayerInventory,
    events: Seq<SuddenEventDef>,
    oh: SuddenEventHistory,
    od: Option<DialogueSession>,
    nmode: AppMode,
    nt: TownState,
    ntr: TravelState,
    ni: PlayerInventory,
    nh: SuddenEventHistory,
    nd: Option<DialogueSession>,
    r: Option<String>,
) -> bool {
    let advance = k matches Some(key) && is_advance(key);
    &&& nmode == omode && nt == ot && ni == oi && nd == od
    &&& ntr.destination == otr.destination && ntr.spawn_pos == otr.spawn_pos
    &&& exists|t1: SimpleTimer| #[trigger] ticked(otr.step_timer, delta, t1) && if advance || t1.spec_finished() {
        &&& restarted(t1, ntr.step_timer)
        &&& ntr.sim matches Some(s1) && exists|ev: Option<SuddenEventTriggered>, v: TravelStepView|
            sudden_event_outcome(events, oh, nh, s0.plan.posture.spec_base_probability() as int, ev)
                && #[trigger] day_advanced(s0, ev, s1, v) && says(r, travel_step_message(v))
    } else {
        ntr.step_timer == t1 && ntr.sim == Some(s0) && nh == oh && r is None
    }
}

/// What a road key does while facing an event (the journey being `s0`).
pub open spec fn road_event(
    k: Option<Key>,
    delta: int,
    s0: TravelSimulation,
    omode: AppMode,
    ot: TownState,
    otr: TravelState,
    oi: PlayerInventory,
    events: Seq<SuddenEventDef>,
    oh: SuddenEventHistory,
    od: Option<DialogueSession>,
    nmode: AppMode,
    nt: TownState,
    ntr: TravelState,
    ni: PlayerInventory,
    nh: SuddenEventHistory,
    nd: Option<DialogueSession>,
    r: Option<String>,
) -> bool {
    let advance = k matches Some(key) && is_advance(key);
    if advance {
        let fight = s0.pending_event matches Some(e) && (e.category == SuddenEventCategory::Bandit || e.category
            == SuddenEventCategory::WildAnimal);
        if fight {
            &&& nt.switched_from(ot, s0.plan.destination, s0.spawn_pos) && nt.player_facing == ot.player_facing
            &&& nmode == AppMode::Battle && nd is None && ni == oi && nh == oh
            &&& ntr.sim is None && ntr.destination == otr.destination && ntr.spawn_pos == otr.spawn_pos
                && ntr.step_timer == otr.step_timer
            &&& says(r, "魔物・山賊が襲いかかってきた！ 武器を構えろ！"@)
        } else {
            &&& road_unchanged(omode, ot, oi, oh, od, nmode, nt, ni, nh, nd)
            &&& journey_is(otr, ntr, ntr.sim)
            &&& ntr.sim matches Some(s1) && exists|v: TravelStepView| #[trigger] event_resolved(s0, s1, v) && says(
                r,
                travel_step_message(v),
            )
        }
    } else {
        road_unchanged(omode, ot, oi, oh, od, nmode, nt, ni, nh, nd) && journey_is(otr, ntr, Some(s0)) && r is None
    }
}

/// What a road key does while arrived (the journey being `s0`).
pub open spec fn road_arrived(
    k: Option<Key>,
    delta: int,
    s0: TravelSimulation,
    omode: AppMode,
    ot: TownState,
    otr: TravelState,
    oi: PlayerInventory,
    events: Seq<SuddenEventDef>,
    oh: SuddenEventHistory,
    od: Option<DialogueSession>,
    nmode: AppMode,
    nt: TownState,
    ntr: TravelState,
    ni: PlayerInventory,
    nh: SuddenEventHistory,
    nd: Option<DialogueSession>,
    r: Option<String>,
) -> bool {
    let advance = k matches Some(key) && is_advance(key);
    if advance {
        &&& nt.switched_from(ot, s0.plan.destination, s0.spawn_pos) && nt.player_facing == ot.player_facing
        &&& nmode == AppMode::Town && nd == od && ni == oi && nh == oh
        &&& ntr.sim is None && ntr.destination == otr.destination && ntr.spawn_pos == otr.spawn_pos
            && ntr.step_timer == otr.step_timer
        &&& says(r, s0.plan.destination.spec_name() + "に到着した。\n[WASD]で歩き回れる。"@)
    } else {
        road_unchanged(omode, ot, oi, oh, od, nmode, nt, ni, nh, nd) && journey_is(otr, ntr, Some(s0)) && r is None
    }
}

/// What a key (or, with none, the passing of `delta` nanoseconds) does on
/// the road, the journey being `s0`.
pub open spec fn road_outcome(
    k: Option<Key>,
    delta: int,
    s0: TravelSimulation,
    omode: AppMode,
    ot: TownState,
    otr: TravelState,
    oi: PlayerInventory,
    events: Seq<SuddenEventDef>,
    oh: SuddenEventHistory,
    od: Option<DialogueSession>,
    nmode: AppMode,
    nt: TownState,
    ntr: TravelState,
    ni: PlayerInventory,
    nh: SuddenEventHistory,
    nd: Option<DialogueSession>,
    r: Option<String>,
) -> bool {
    match s0.phase {
        TravelPhase::ChoosingDestination => road_destination(k, delta, s0, omode, ot, otr, oi, events, oh, od, nmode, nt, ntr, ni, nh, nd, r),
        TravelPhase::ChoosingPosture => road_posture(k, delta, s0, omode, ot, otr, oi, events, oh, od, nmode, nt, ntr, ni, nh, nd, r),
        TravelPhase::ChoosingTransport => road_transport(k, delta, s0, omode, ot, otr, oi, events, oh, od, nmode, nt, ntr, ni, nh, nd, r),
        TravelPhase::Traveling => road_traveling(k, delta, s0, omode, ot, otr, oi, events, oh, od, nmode, nt, ntr, ni, nh, nd, r),
        TravelPhase::EncounterEvent => road_event(k, delta, s0, omode, ot, otr, oi, events, oh, od, nmode, nt, ntr, ni, nh, nd, r),
        TravelPhase::Arrived => road_arrived(k, delta, s0, omode, ot, otr, oi, events, oh, od, nmode, nt, ntr, ni, nh, nd, r),
    }
}

/// The menu label of a posture.
pub open spec fn posture_label(p: TravelPosture) -> Seq<char> {
    match p {
        TravelPosture::Cautious => "慎重に"@,
        TravelPosture::Normal => "普通に"@,
        TravelPosture::Bold => "大胆に"@,
    }
}

/// What a key (or none) does on the road.
pub open spec fn travel_key_outcome(
    k: Option<Key>,
    delta: int,
    omode: AppMode,
    ot: TownState,
    otr: TravelState,
    oi: PlayerInventory,
    events: Seq<SuddenEventDef>,
    oh: SuddenEventHistory,
    od: Option<DialogueSession>,
    nmode: AppMode,
    nt: TownState,
    ntr: TravelState,
    ni: PlayerInventory,
    nh: SuddenEventHistory,
    nd: Option<DialogueSession>,
    r: Option<String>,
) -> bool {
    exists|s0: TravelSimulation|
        #[trigger] starting_sim(otr, ot.current_area, s0) && road_outcome(
            k,
            delta,
            s0,
            omode,
            ot,
            otr,
            oi,
            events,
            oh,
            od,
            nmode,
            nt,
            ntr,
            ni,
            nh,
            nd,
            r,
        )
}

/// The message of a day of travel.
fn step_message(o: &TravelStepOutcome) -> (r: String)
    ensures
        r@ == travel_step_message(o@),
{
    match o {
        TravelStepOutcome::Continued { message, .. } => message.clone(),
        TravelStepOutcome::EventOccurred { message, .. } => message.clone(),
        TravelStepOutcome::Arrived { message, .. } => message.clone(),
    }
}

/// One key on the road, or none when only time passed (`delta_nanos`):
/// while planning, `1`/Enter takes the destination, the digits choose the
/// posture and then the transport (paid for when the purse allows, which
/// sets off), Escape goes back a step or gives up; on the way a day passes
/// on Space or Enter or once the step timer runs out; Space or Enter deals
/// with an event (bandits and wild animals mean a battle at the
/// destination) and, on arrival, enters the destination.
#[verifier::spinoff_prover]
#[verifier::rlimit(50)]
pub fn handle_travel_input(
    key: Option<Key>,
    delta_nanos: u64,
    mode: &mut AppMode,
    town: &mut TownState,
    travel: &mut TravelState,
    inv: &mut PlayerInventory,
    registry: &SuddenEventRegistry,
    history: &mut SuddenEventHistory,
    dialogue: &mut Option<DialogueSession>,
    rng: &mut StdRng,
) -> (r: Option<String>)
    requires
        old(town).wf(),
        old(history).spec_trip_count() < u32::MAX,
        registry.events@.len() <= u32::MAX,
        old(travel).sim matches Some(s) ==> s.current_day < u32::MAX,
        !old(travel).step_timer.spec_finished() ==> old(travel).step_timer.spec_elapsed() + delta_nanos <= u64::MAX,
    ensures
        travel_key_outcome(
            key,
            delta_nanos as int,
            *old(mode),
            *old(town),
            *old(travel),
            *old(inv),
            registry.events@,
            *old(history),
            *old(dialogue),
            *final(mode),
            *final(town),
            *final(travel),
            *final(inv),
            *final(history),
            *final(dialogue),
            r,
        ),
{
    let mut slot: Option<TravelSimulation> = None;
    std::mem::swap(&mut slot, &mut travel.sim);
    let mut sim = match slot {
        Some(s) => s,
        None => TravelSimulation::new(town.current_area, travel.destination, travel.spawn_pos),
    };
    let ghost s0 = sim;
    assert(starting_sim(*old(travel), old(town).current_area, s0));
    let advance = match key {
        Some(k) => k == Key::Space || k == Key::Enter,
        None => false,
    };
    let destination = travel.destination;
    let spawn_pos = travel.spawn_pos;
    match sim.phase {
        TravelPhase::ChoosingDestination => {
            let r = if key == Some(Key::Digit1) || key == Some(Key::Enter) {
                sim.select_destination(destination, spawn_pos);
                travel.sim = Some(sim);
                let mut msg = string_of(destination.name());
                msg.append("へ向かう旅を計画します。\n移動姿勢を選択してください。");
                Some(msg)
            } else if key == Some(Key::Escape) {
                *mode = AppMode::Town;
                Some(string_of("街道を進むのをやめた。"))
            } else {
                travel.sim = Some(sim);
                None
            };
            assert(road_destination(key, delta_nanos as int, s0, *old(mode), *old(town), *old(travel), *old(inv), registry.events@, *old(history), *old(dialogue), *mode, *town, *travel, *inv, *history, *dialogue, r));
            r
        },
        TravelPhase::ChoosingPosture => {
            let posture = match key {
                Some(Key::Digit1) => Some(TravelPosture::Cautious),
                Some(Key::Digit2) => Some(TravelPosture::Normal),
                Some(Key::Digit3) => Some(TravelPosture::Bold),
                _ => None,
            };
            let r = match posture {
                Some(p) => {
                    sim.select_posture(p);
                    travel.sim = Some(sim);
                    let mut msg = string_of("移動姿勢を「");
                    msg.append(p.label());
                    msg.append("」に決定した。\n次に移動手段を選択してください。");
                    Some(msg)
                },
                None => {
                    if key == Some(Key::Escape) {
                        if !sim.back_phase() {
                            *mode = AppMode::Town;
                            Some(string_of("街道を進むのをやめた。"))
                        } else {
                            travel.sim = Some(sim);
                            Some(string_of("移動先の選択に戻った。"))
                        }
                    } else {
                        travel.sim = Some(sim);
                        None
                    }
                },
            };
            assert(road_posture(key, delta_nanos as int, s0, *old(mode), *old(town), *old(travel), *old(inv), registry.events@, *old(history), *old(dialogue), *mode, *town, *travel, *inv, *history, *dialogue, r));
            r
        },
        TravelPhase::ChoosingTransport => {
            let transport = match key {
                Some(Key::Digit1) => Some(TravelTransport::Foot),
                Some(Key::Digit2) => Some(TravelTransport::Horse),
                Some(Key::Digit3) => Some(TravelTransport::Carriage),
                _ => None,
            };
            match transport {
                Some(t) => {
                    let cost = t.cost();
                    if inv.gold < cost {
                        travel.sim = Some(sim);
                        let mut msg = string_of("所持金が足りません！（必要: ");
                        append_int(&mut msg, cost as i64);
                        msg.append("G, 所持: ");
                        append_int(&mut msg, inv.gold as i64);
                        msg.append("G）");
                        let r = Some(msg);
                        assert(road_transport(key, delta_nanos as int, s0, *old(mode), *old(town), *old(travel), *old(inv), registry.events@, *old(history), *old(dialogue), *mode, *town, *travel, *inv, *history, *dialogue, r));
                        r
                    } else {
                        if cost > 0 {
                            inv.spend_gold(cost);
                        }
                        sim.select_transport(t);
                        let ghost s1 = sim;
                        travel.step_timer.reset();
                        let start_msg = sim.start_travel();
                        let ghost s2 = sim;
                        travel.sim = Some(sim);
                        let r = Some(start_msg);
                        assert(transport_selected(s0, t, s1));
                        assert(travel_started(s1, s2, start_msg@));
                        assert(inv.gold == old(inv).gold - t.spec_cost());
                        assert(restarted(old(travel).step_timer, travel.step_timer));
                        assert(travel.sim == Some(s2));
                        assert(exists|s1: TravelSimulation| #[trigger] transport_selected(s0, t, s1) && (r matches Some(m) && travel_started(s1, s2, m@)));
                        assert(road_transport(key, delta_nanos as int, s0, *old(mode), *old(town), *old(travel), *old(inv), registry.events@, *old(history), *old(dialogue), *mode, *town, *travel, *inv, *history, *dialogue, r));
                        r
                    }
                },
                None => {
                    if key == Some(Key::Escape) {
                        sim.back_phase();
                        travel.sim = Some(sim);
                        let r = Some(string_of("移動姿勢の選択に戻った。"));
                        assert(road_transport(key, delta_nanos as int, s0, *old(mode), *old(town), *old(travel), *old(inv), registry.events@, *old(history), *old(dialogue), *mode, *town, *travel, *inv, *history, *dialogue, r));
                        r
                    } else {
                        travel.sim = Some(sim);
                        let r = None;
                        assert(road_transport(key, delta_nanos as int, s0, *old(mode), *old(town), *old(travel), *old(inv), registry.events@, *old(history), *old(dialogue), *mode, *town, *travel, *inv, *history, *dialogue, r));
                        r
                    }
                },
            }
        },
        TravelPhase::Traveling => {
            travel.step_timer.tick(delta_nanos);
            let ghost t1 = travel.step_timer;
            assert(ticked(old(travel).step_timer, delta_nanos as int, t1));
            let timer_done = travel.step_timer.finished();
            let r = if advance || timer_done {
                travel.step_timer.reset();
                let outcome = sim.advance_day(registry, history, rng);
                let msg = step_message(&outcome);
                travel.sim = Some(sim);
                Some(msg)
            } else {
                travel.sim = Some(sim);
                None
            };
            assert(road_traveling(key, delta_nanos as int, s0, *old(mode), *old(town), *old(travel), *old(inv), registry.events@, *old(history), *old(dialogue), *mode, *town, *travel, *inv, *history, *dialogue, r));
            r
        },
        TravelPhase::EncounterEvent => {
            let r = if advance {
                let fight = match &sim.pending_event {
                    Some(e) => e.category == SuddenEventCategory::Bandit || e.category == SuddenEventCategory::WildAnimal,
                    None => false,
                };
                if fight {
                    let dest = sim.plan.destination;
                    let spawn = sim.spawn_pos;
                    town.switch_area(dest, spawn, rng);
                    *mode = AppMode::Battle;
                    *dialogue = None;
                    Some(string_of("魔物・山賊が襲いかかってきた！ 武器を構えろ！"))
                } else {
                    let outcome = sim.resolve_event_and_continue();
                    let msg = step_message(&outcome);
                    travel.sim = Some(sim);
                    Some(msg)
                }
            } else {
                travel.sim = Some(sim);
                None
            };
            assert(road_event(key, delta_nanos as int, s0, *old(mode), *old(town), *old(travel), *old(inv), registry.events@, *old(history), *old(dialogue), *mode, *town, *travel, *inv, *history, *dialogue, r));
            r
        },
        TravelPhase::Arrived => {
            let r = if advance {
                let dest = sim.plan.destination;
                let spawn = sim.spawn_pos;
                town.switch_area(dest, spawn, rng);
                *mode = AppMode::Town;
                let mut msg = string_of(dest.name());
                msg.append("に到着した。\n[WASD]で歩き回れる。");
                Some(msg)
            } else {
                travel.sim = Some(sim);
                None
            };
            assert(road_arrived(key, delta_nanos as int, s0, *old(mode), *old(town), *old(travel), *old(inv), registry.events@, *old(history), *old(dialogue), *mode, *town, *travel, *inv, *history, *dialogue, r));
            r
        },
    }
}

// ---------------------------------------------------------------------------
// Keys every mode shares.
// ---------------------------------------------------------------------------

/// What a key every mode shares does.
pub open spec fn common_key_outcome(k: Key, op: PartyState, ot: TownState, np: PartyState, nt: TownState, r: Option<String>) -> bool {
    if k == Key::F1 {
        &&& np == PartyState { debug_mode: !op.debug_mode, ..op }
        &&& nt.wf() && nt.debug_see_all == !op.debug_mode && nt.fov_current() && nt.dirty
        &&& nt.current_area == ot.current_area && nt.map == ot.map && nt.player_pos == ot.player_pos
        &&& nt.player_facing == ot.player_facing && nt.followers == ot.followers
        &&& nt.torch_active == ot.torch_active && nt.last_encounter_pos == ot.last_encounter_pos
        &&& r is None
    } else if k == Key::Tab {
        let i = (op.selected_index + 1) % (op.members@.len() as int);
        &&& np == PartyState { selected_index: i as usize, ..op }
        &&& nt == ot
        &&& says(r, op.members@[i].name@ + "に　ちゅうもくした。"@)
    } else {
        np == op && nt == ot && r is None
    }
}

/// Keys every mode shares: F1 flips the debug display (and seeing
/// everything on the map), Tab moves the status window to the next member.
pub fn handle_common_input(key: Key, party: &mut PartyState, town: &mut TownState) -> (r: Option<String>)
    requires
        old(town).wf(),
        old(party).members@.len() >= 1,
        old(party).selected_index < usize::MAX,
    ensures
        common_key_outcome(key, *old(party), *old(town), *final(party), *final(town), r),
{
    if key == Key::F1 {
        party.debug_mode = !party.debug_mode;
        town.debug_see_all = party.debug_mode;
        town.recompute_fov();
        None
    } else if key == Key::Tab {
        party.selected_index = (party.selected_index + 1) % party.members.len();
        let mut msg = party.members[party.selected_index].name.clone();
        msg.append("に　ちゅうもくした。");
        Some(msg)
    } else {
        None
    }
}

} // verus!
