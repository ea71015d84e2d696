//! Moving parts of the message window and the monster panel: the
//! typewriter that reveals a message one character at a time, the overlays
//! that underline and highlight words that can be remembered, and the red
//! flash of a hit monster.

use super::AppMode;
use crate::battle::BattleState;
use crate::text::{chars_of, push_char, string_from_chars, string_of};
use crate::timer::SimpleTimer;
use crate::town::dialogue::{DialogueLearnStage, DialogueSession, LearnableSpan};
use vstd::prelude::*;

verus! {

/// A character is revealed every 20 milliseconds.
pub const TYPEWRITER_STEP_MILLIS: u64 = 20;

/// The message window's text and how much of it is shown.
pub struct TypewriterMessage {
    pub full_text: String,
    pub shown_chars: usize,
    pub timer: SimpleTimer,
}

impl TypewriterMessage {
    /// The timer repeats with a positive period.
    pub open spec fn wf(&self) -> bool {
        &&& self.timer.wf()
        &&& self.timer.spec_duration() > 0
        &&& !self.timer.spec_finished()
    }

    /// An empty message window.
    pub fn new() -> (r: Self)
        ensures
            r.wf(),
            r.full_text@.len() == 0,
            r.shown_chars == 0,
            r.timer.spec_duration() == TYPEWRITER_STEP_MILLIS * 1_000_000,
            r.timer.spec_elapsed() == 0,
    {
        Self { full_text: String::new(), shown_chars: 0, timer: SimpleTimer::from_millis(TYPEWRITER_STEP_MILLIS) }
    }

    /// Whether every character of the message is shown.
    pub fn is_fully_shown(&self) -> (r: bool)
        ensures
            r == (self.shown_chars >= self.full_text@.len()),
    {
        self.shown_chars >= self.full_text.as_str().unicode_len()
    }
}

/// Starts showing `text` from its first character, with the timer restarted
/// (the window itself then shows nothing).
pub fn update_message_window(msg: &mut TypewriterMessage, text: &str)
    requires
        old(msg).wf(),
    ensures
        final(msg).wf(),
        final(msg).full_text@ == text@,
        final(msg).shown_chars == 0,
        final(msg).timer.spec_duration() == old(msg).timer.spec_duration(),
        final(msg).timer.spec_elapsed() == 0,
{
    msg.full_text = string_of(text);
    msg.shown_chars = 0;
    msg.timer.reset();
}

/// Shows the whole message at once and returns it.
pub fn skip_typewriter(msg: &mut TypewriterMessage) -> (shown: String)
    ensures
        final(msg).full_text == old(msg).full_text,
        final(msg).timer == old(msg).timer,
        final(msg).shown_chars == old(msg).full_text@.len(),
        shown@ == old(msg).full_text@,
{
    msg.shown_chars = msg.full_text.as_str().unicode_len();
    msg.full_text.clone()
}

/// Advances the typewriter by `delta_nanos`: unless the whole message is
/// already shown, each time the timer wraps around one more character
/// appears, and the shown part is returned.
pub fn typewriter_tick(msg: &mut TypewriterMessage, delta_nanos: u64) -> (shown: Option<String>)
    requires
        old(msg).wf(),
        old(msg).timer.spec_elapsed() + delta_nanos <= u64::MAX,
    ensures
        final(msg).wf(),
        final(msg).full_text == old(msg).full_text,
        final(msg).timer.spec_duration() == old(msg).timer.spec_duration(),
        old(msg).shown_chars <= old(msg).full_text@.len() ==> final(msg).shown_chars <= final(msg).full_text@.len(),
        old(msg).shown_chars >= old(msg).full_text@.len() ==> {
            &&& shown is None
            &&& final(msg).shown_chars == old(msg).shown_chars
            &&& final(msg).timer == old(msg).timer
        },
        old(msg).shown_chars < old(msg).full_text@.len() ==> {
            let total = old(msg).timer.spec_elapsed() + delta_nanos;
            let step = old(msg).timer.spec_duration();
            &&& final(msg).timer.spec_elapsed() == total % (step as int)
            &&& if total >= step {
                &&& final(msg).shown_chars == old(msg).shown_chars + 1
                &&& shown matches Some(s) && s@ == old(msg).full_text@.take(final(msg).shown_chars as int)
            } else {
                &&& final(msg).shown_chars == old(msg).shown_chars
                &&& shown is None
            }
        },
{
    let count = msg.full_text.as_str().unicode_len();
    if msg.shown_chars >= count {
        return None;
    }
    if msg.timer.tick_repeating(delta_nanos) {
        msg.shown_chars = msg.shown_chars + 1;
        let chars = chars_of(msg.full_text.as_str());
        let s = string_from_chars(&chars, 0, msg.shown_chars);
        assert(chars@.subrange(0, msg.shown_chars as int) =~= msg.full_text@.take(msg.shown_chars as int));
        Some(s)
    } else {
        None
    }
}

/// Whether some span covers character position `i`.
pub open spec fn covered(spans: Seq<LearnableSpan>, i: int) -> bool {
    exists|k: int| 0 <= k < spans.len() && spans[k].start <= i && i < spans[k].end
}

/// The underline overlay of `text`: `_` under every character inside a
/// span, a space elsewhere, line breaks kept in place.
pub open spec fn underline_text(text: Seq<char>, spans: Seq<LearnableSpan>) -> Seq<char> {
    Seq::new(text.len(), |i: int| if text[i] == '\n' { '\n' } else if covered(spans, i) { '_' } else { ' ' })
}

/// The highlight overlay of `text`: the characters inside `span`, a space
/// elsewhere, line breaks kept in place.
pub open spec fn highlight_text(text: Seq<char>, span: LearnableSpan) -> Seq<char> {
    Seq::new(
        text.len(),
        |i: int| if text[i] == '\n' { '\n' } else if span.start <= i && i < span.end { text[i] } else { ' ' },
    )
}

fn any_span_covers(spans: &[LearnableSpan], i: usize) -> (r: bool)
    ensures
        r == covered(spans@, i as int),
{
    let mut k: usize = 0;
    while k < spans.len()
        invariant
            k <= spans@.len(),
            forall|j: int| 0 <= j < k ==> !(spans@[j].start <= i && i < spans@[j].end),
        decreases spans@.len() - k,
    {
        if spans[k].start <= i && i < spans[k].end {
            return true;
        }
        k = k + 1;
    }
    false
}

/// The underline overlay: `_` under each character of a word that can be
/// remembered, so that drawn over the text it underlines exactly those words.
pub fn build_underline_text(text: &str, spans: &[LearnableSpan]) -> (r: String)
    ensures
        r@ == underline_text(text@, spans@),
{
    let chars = chars_of(text);
    let mut out = String::new();
    let mut i: usize = 0;
    while i < chars.len()
        invariant
            chars@ == text@,
            i <= chars@.len(),
            out@ == underline_text(text@, spans@).take(i as int),
        decreases chars@.len() - i,
    {
        let c = chars[i];
        let mark = if c == '\n' {
            '\n'
        } else if any_span_covers(spans, i) {
            '_'
        } else {
            ' '
        };
        push_char(&mut out, mark);
        assert(out@ =~= underline_text(text@, spans@).take(i + 1));
        i = i + 1;
    }
    assert(underline_text(text@, spans@).take(chars@.len() as int) =~= underline_text(text@, spans@));
    out
}

/// The highlight overlay: only the characters of `span` are kept, so that
/// drawn over the text in another colour it highlights that word.
pub fn build_highlight_text(text: &str, span: &LearnableSpan) -> (r: String)
    ensures
        r@ == highlight_text(text@, *span),
{
    let chars = chars_of(text);
    let mut out = String::new();
    let mut i: usize = 0;
    while i < chars.len()
        invariant
            chars@ == text@,
            i <= chars@.len(),
            out@ == highlight_text(text@, *span).take(i as int),
        decreases chars@.len() - i,
    {
        let c = chars[i];
        let shown = if c == '\n' {
            '\n'
        } else if span.start <= i && i < span.end {
            c
        } else {
            ' '
        };
        push_char(&mut out, shown);
        assert(out@ =~= highlight_text(text@, *span).take(i + 1));
        i = i + 1;
    }
    assert(highlight_text(text@, *span).take(chars@.len() as int) =~= highlight_text(text@, *span));
    out
}

/// The underline and highlight overlays of the message window. Outside a
/// conversation both are empty. While the reply is still being typed out
/// nothing is drawn; once it is fully shown the words that can be
/// remembered are underlined, and while one is being chosen the one at
/// the cursor is highlighted.
pub open spec fn overlays_text(
    mode: AppMode,
    dialogue: Option<DialogueSession>,
    fully_shown: bool,
) -> (Seq<char>, Seq<char>) {
    if mode != AppMode::Dialogue || dialogue is None {
        (Seq::empty(), Seq::empty())
    } else {
        let s = dialogue->0;
        let underline = if fully_shown && s.learnable_spans@.len() > 0 {
            underline_text(s.current_text@, s.learnable_spans@)
        } else {
            Seq::empty()
        };
        let highlight = match s.learn_stage {
            DialogueLearnStage::ChoosingLearnTarget { cursor } => if fully_shown && cursor < s.learnable_spans@.len() {
                highlight_text(s.current_text@, s.learnable_spans@[cursor as int])
            } else {
                Seq::empty()
            },
            DialogueLearnStage::Talking => Seq::empty(),
        };
        (underline, highlight)
    }
}

/// The two overlays of the message window (underline, highlight) for the
/// current mode, conversation and typewriter.
pub fn dialogue_underline_tick(
    mode: AppMode,
    dialogue: &Option<DialogueSession>,
    typewriter: &TypewriterMessage,
) -> (r: (String, String))
    ensures
        r.0@ == overlays_text(mode, *dialogue, typewriter.shown_chars >= typewriter.full_text@.len()).0,
        r.1@ == overlays_text(mode, *dialogue, typewriter.shown_chars >= typewriter.full_text@.len()).1,
{
    if mode != AppMode::Dialogue {
        return (String::new(), String::new());
    }
    let session = match dialogue {
        Some(s) => s,
        None => {
            return (String::new(), String::new());
        },
    };
    let fully_shown = typewriter.is_fully_shown();
    let underline = if fully_shown && session.learnable_spans.len() > 0 {
        build_underline_text(session.current_text.as_str(), session.learnable_spans.as_slice())
    } else {
        String::new()
    };
    let highlight = match session.learn_stage {
        DialogueLearnStage::ChoosingLearnTarget { cursor } => {
            if fully_shown && cursor < session.learnable_spans.len() {
                build_highlight_text(session.current_text.as_str(), &session.learnable_spans[cursor])
            } else {
                String::new()
            }
        },
        DialogueLearnStage::Talking => String::new(),
    };
    (underline, highlight)
}

/// Both overlays line up with the text they are drawn over: they are as
/// long as the text and hold a line break exactly where the text does, so
/// every line of an overlay is as long as the text's line below it.
pub proof fn lemma_overlays_keep_lines(text: Seq<char>, spans: Seq<LearnableSpan>, span: LearnableSpan)
    ensures
        underline_text(text, spans).len() == text.len(),
        highlight_text(text, span).len() == text.len(),
        forall|i: int| 0 <= i < text.len() ==> (#[trigger] underline_text(text, spans)[i] == '\n') == (text[i] == '\n'),
        forall|i: int| 0 <= i < text.len() ==> (#[trigger] highlight_text(text, span)[i] == '\n') == (text[i] == '\n'),
{
}

/// The colour the monster panel is drawn in.
#[derive(Clone, Copy, Debug, PartialEq, Eq, Structural)]
pub enum MonsterTint {
    /// Red, right after a hit.
    Damage,
    /// The usual text colour.
    Normal,
}

/// Advances the flash of a hit monster by `delta_nanos`. While a battle
/// shows a flashing monster the panel is red; once the flash timer has
/// run out the flash stops, the timer is rewound and the panel is drawn
/// normally again. Returns the colour to draw with, if it is to change.
pub fn monster_flash_tick(mode: AppMode, battle: &mut BattleState, delta_nanos: u64) -> (tint: Option<MonsterTint>)
    requires
        !old(battle).flash_timer.spec_finished() ==> old(battle).flash_timer.spec_elapsed() + delta_nanos <= u64::MAX,
    ensures
        final(battle).monsters == old(battle).monsters,
        final(battle).current_index == old(battle).current_index,
        final(battle).phase == old(battle).phase,
        final(battle).turn_steps == old(battle).turn_steps,
        final(battle).flash_timer.spec_duration() == old(battle).flash_timer.spec_duration(),
        !(mode == AppMode::Battle && old(battle).is_flashing) ==> {
            &&& tint is None
            &&& final(battle).is_flashing == old(battle).is_flashing
            &&& final(battle).flash_timer == old(battle).flash_timer
        },
        mode == AppMode::Battle && old(battle).is_flashing ==> {
            let done = old(battle).flash_timer.spec_finished()
                || old(battle).flash_timer.spec_elapsed() + delta_nanos >= old(battle).flash_timer.spec_duration();
            &&& done ==> tint == Some(MonsterTint::Normal) && !final(battle).is_flashing
                && final(battle).flash_timer.spec_elapsed() == 0 && !final(battle).flash_timer.spec_finished()
            &&& !done ==> tint == Some(MonsterTint::Damage) && final(battle).is_flashing
                && final(battle).flash_timer.spec_elapsed() == old(battle).flash_timer.spec_elapsed() + delta_nanos
        },
{
    if mode == AppMode::Battle && battle.is_flashing {
        battle.flash_timer.tick(delta_nanos);
        if battle.flash_timer.finished() {
            battle.is_flashing = false;
            battle.flash_timer.reset();
            Some(MonsterTint::Normal)
        } else {
            Some(MonsterTint::Damage)
        }
    } else {
        None
    }
}

} // verus!
