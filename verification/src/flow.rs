//! The start-up flow: title screen, world and character naming, origin,
//! motive and partner selection, then world generation before play.
//!
//! Each screen's reaction to one input is a function from the current
//! state to the next; the host draws the screens and feeds the inputs.

use crate::party::diagnosis::PlayerSkills;
use crate::party::influence::PartyMember;
use crate::party::inventory::PlayerInventory;
use crate::party::origin::{
    candidate_backstory, candidate_hp, candidate_job, candidate_mp, candidate_name,
    candidate_personality, CharacterBuild, EloperPartnerCandidate, MotiveKind, OriginKind,
};
use crate::party::{PartyState, PlayerResource, ReserveRoster};
use crate::text::{append_int, append_str, chars_of, concat2, int_decimal, push_char, string_from_chars, string_of};
use crate::timer::SimpleTimer;
use crate::town::TownState;
use vstd::prelude::*;

verus! {

/// Longest name, in characters, that can be typed.
pub const MAX_NAME_LEN: usize = 20;

/// World name used when none was typed.
pub const DEFAULT_WORLD_NAME: &'static str = "名もなき世界";

/// Character name used when none was typed.
pub const DEFAULT_CHARACTER_NAME: &'static str = "あなた";

/// Shortest time the generating screen stays up, in milliseconds.
pub const GENERATING_MIN_MILLIS: u64 = 800;

/// The screens of the start-up flow, ending in play.
#[derive(Clone, Copy, Debug, PartialEq, Eq, Hash, Structural)]
pub enum AppScreen {
    Title,
    WorldCreation,
    CharacterCreation,
    OriginSelection,
    MotiveSelection,
    PartnerSelection,
    Generating,
    Playing,
}

impl Default for AppScreen {
    fn default() -> (r: Self)
        ensures
            r == AppScreen::Title,
    {
        AppScreen::Title
    }
}

/// What the naming and selection screens decided.
pub struct NewGameConfig {
    pub world_name: String,
    pub character_name: String,
    pub build: CharacterBuild,
}

impl Default for NewGameConfig {
    fn default() -> (r: Self)
        ensures
            r.world_name@.len() == 0,
            r.character_name@.len() == 0,
            r.build.origin == OriginKind::FarmerThirdSon,
            r.build.motive == MotiveKind::AspiringAdventurer,
            r.build.partner is None,
    {
        Self { world_name: String::new(), character_name: String::new(), build: CharacterBuild::default() }
    }
}

/// The name being typed on a naming screen.
pub struct NameEntryState {
    pub buffer: String,
}

impl Default for NameEntryState {
    fn default() -> (r: Self)
        ensures
            r.buffer@.len() == 0,
    {
        Self { buffer: String::new() }
    }
}

/// Which entry a selection screen points at.
#[derive(Clone, Copy, Debug, Default)]
pub struct SelectionState {
    pub cursor: usize,
}

/// A key of the start-up screens. `Digit(n)` and `Numpad(n)` are the keys
/// for the number `n` on the main row and on the number pad.
#[derive(Clone, Copy, Debug, PartialEq, Eq, Structural)]
pub enum FlowKey {
    Enter,
    NumpadEnter,
    Space,
    ArrowUp,
    ArrowDown,
    KeyW,
    KeyS,
    Digit(u8),
    Numpad(u8),
    Other,
}

/// A key that types on a naming screen.
pub enum NameKey {
    /// Printed characters, as the keyboard layout produced them.
    Text(String),
    Space,
    Backspace,
}

/// A pointer event on a selection screen.
#[derive(Clone, Copy, Debug, PartialEq, Eq, Structural)]
pub enum SelectionPointer {
    /// The pointer rests on the entry with this index.
    Hover(usize),
    /// The entry with this index was clicked.
    Click(usize),
    /// The confirm button was clicked.
    Confirm,
}

// ---------------------------------------------------------------------
// Characters and names
// ---------------------------------------------------------------------

/// A control character (general category Cc: C0 and C1 codes, and DEL).
pub open spec fn is_control_spec(c: char) -> bool {
    let u = c as u32;
    u <= 0x1f || (0x7f <= u && u <= 0x9f)
}

/// A character with the Unicode `White_Space` property.
pub open spec fn is_white_space_spec(c: char) -> bool {
    let u = c as u32;
    ||| 0x09 <= u && u <= 0x0d
    ||| u == 0x20
    ||| u == 0x85
    ||| u == 0xa0
    ||| u == 0x1680
    ||| 0x2000 <= u && u <= 0x200a
    ||| u == 0x2028
    ||| u == 0x2029
    ||| u == 0x202f
    ||| u == 0x205f
    ||| u == 0x3000
}

/// Whether `c` is a control character.
pub fn is_control(c: char) -> (r: bool)
    ensures
        r == is_control_spec(c),
{
    let u = c as u32;
    u <= 0x1f || (0x7f <= u && u <= 0x9f)
}

/// Whether `c` is white space.
pub fn is_white_space(c: char) -> (r: bool)
    ensures
        r == is_white_space_spec(c),
{
    let u = c as u32;
    (0x09 <= u && u <= 0x0d) || u == 0x20 || u == 0x85 || u == 0xa0 || u == 0x1680
        || (0x2000 <= u && u <= 0x200a) || u == 0x2028 || u == 0x2029 || u == 0x202f
        || u == 0x205f || u == 0x3000
}

/// The characters of `s` that are not control characters, in order.
pub open spec fn printable(s: Seq<char>) -> Seq<char>
    decreases s.len(),
{
    if s.len() == 0 {
        s
    } else if is_control_spec(s.last()) {
        printable(s.drop_last())
    } else {
        printable(s.drop_last()).push(s.last())
    }
}

/// `s`, or its first `n` characters when it is longer (nothing when `n`
/// is not positive).
pub open spec fn at_most(s: Seq<char>, n: int) -> Seq<char> {
    if n <= 0 { Seq::empty() } else if s.len() <= n { s } else { s.take(n) }
}

/// `s` without leading white space.
pub open spec fn trim_start(s: Seq<char>) -> Seq<char>
    decreases s.len(),
{
    if s.len() > 0 && is_white_space_spec(s[0]) { trim_start(s.drop_first()) } else { s }
}

/// `s` without trailing white space.
pub open spec fn trim_end(s: Seq<char>) -> Seq<char>
    decreases s.len(),
{
    if s.len() > 0 && is_white_space_spec(s.last()) { trim_end(s.drop_last()) } else { s }
}

/// `s` without leading and trailing white space.
pub open spec fn trim(s: Seq<char>) -> Seq<char> {
    trim_end(trim_start(s))
}

/// The characters of `s` without leading and trailing white space.
pub fn trimmed(s: &str) -> (r: String)
    ensures
        r@ == trim(s@),
{
    let v = chars_of(s);
    let n = v.len();
    let mut i: usize = 0;
    assert(s@.subrange(0, n as int) =~= s@);
    while i < n && is_white_space(v[i])
        invariant
            v@ == s@,
            n == v@.len(),
            i <= n,
            trim_start(s@) == trim_start(s@.subrange(i as int, n as int)),
        decreases n - i,
    {
        assert(s@.subrange(i as int, n as int).drop_first() =~= s@.subrange(i + 1, n as int));
        i = i + 1;
    }
    assert(trim_start(s@) == s@.subrange(i as int, n as int));
    let mut j: usize = n;
    while j > i && is_white_space(v[j - 1])
        invariant
            v@ == s@,
            n == v@.len(),
            i <= j <= n,
            trim(s@) == trim_end(s@.subrange(i as int, j as int)),
        decreases j - i,
    {
        assert(s@.subrange(i as int, j as int).drop_last() =~= s@.subrange(i as int, j - 1));
        j = j - 1;
    }
    string_from_chars(&v, i, j)
}

impl NameEntryState {
    /// Appends the characters of `text` that are not control characters,
    /// as many as fit within `MAX_NAME_LEN`.
    pub fn type_text(&mut self, text: &str)
        ensures
            final(self).buffer@ == old(self).buffer@ + at_most(
                printable(text@),
                MAX_NAME_LEN - old(self).buffer@.len(),
            ),
    {
        append_name_text(&mut self.buffer, text);
    }

    /// Appends a space unless the name is already `MAX_NAME_LEN` long.
    pub fn type_space(&mut self)
        ensures
            final(self).buffer@ == if old(self).buffer@.len() < MAX_NAME_LEN {
                old(self).buffer@.push(' ')
            } else {
                old(self).buffer@
            },
    {
        if self.buffer.as_str().unicode_len() < MAX_NAME_LEN {
            push_char(&mut self.buffer, ' ');
        }
    }

    /// Deletes the last character, if any.
    pub fn backspace(&mut self)
        ensures
            final(self).buffer@ == if old(self).buffer@.len() > 0 {
                old(self).buffer@.drop_last()
            } else {
                old(self).buffer@
            },
    {
        let v = chars_of(self.buffer.as_str());
        let n = v.len();
        if n > 0 {
            self.buffer = string_from_chars(&v, 0, n - 1);
        }
    }

    /// What one typing key does to the name.
    pub fn apply(&mut self, key: &NameKey)
        ensures
            match key {
                NameKey::Text(t) => final(self).buffer@ == old(self).buffer@ + at_most(
                    printable(t@),
                    MAX_NAME_LEN - old(self).buffer@.len(),
                ),
                NameKey::Space => final(self).buffer@ == if old(self).buffer@.len() < MAX_NAME_LEN {
                    old(self).buffer@.push(' ')
                } else {
                    old(self).buffer@
                },
                NameKey::Backspace => final(self).buffer@ == if old(self).buffer@.len() > 0 {
                    old(self).buffer@.drop_last()
                } else {
                    old(self).buffer@
                },
            },
    {
        match key {
            NameKey::Text(t) => self.type_text(t.as_str()),
            NameKey::Space => self.type_space(),
            NameKey::Backspace => self.backspace(),
        }
    }
}

/// Appends to `buffer` the characters of `input` that are not control
/// characters, stopping once `buffer` is `MAX_NAME_LEN` characters long
/// (nothing is appended to a buffer that is already that long).
pub fn append_name_text(buffer: &mut String, input: &str)
    ensures
        final(buffer)@ == old(buffer)@ + at_most(printable(input@), MAX_NAME_LEN - old(buffer)@.len()),
{
    let len = buffer.as_str().unicode_len();
    let remaining: usize = if len < MAX_NAME_LEN { MAX_NAME_LEN - len } else { 0 };
    let ghost room: int = MAX_NAME_LEN - old(buffer)@.len();
    let ghost start = old(buffer)@;
    let chars = chars_of(input);
    let mut added: usize = 0;
    let mut k: usize = 0;
    assert(input@.subrange(0, 0) =~= Seq::<char>::empty());
    assert(buffer@ =~= start + at_most(printable(input@.subrange(0, 0)), room));
    while k < chars.len()
        invariant
            chars@ == input@,
            k <= chars@.len(),
            remaining == if room > 0 { room } else { 0 },
            added <= remaining,
            buffer@.len() == start.len() + added,
            added == at_most(printable(input@.subrange(0, k as int)), room).len(),
            buffer@ == start + at_most(printable(input@.subrange(0, k as int)), room),
        decreases chars@.len() - k,
    {
        let c = chars[k];
        let ghost before = printable(input@.subrange(0, k as int));
        assert(input@.subrange(0, k + 1).drop_last() =~= input@.subrange(0, k as int));
        assert(input@.subrange(0, k + 1).last() == c);
        if !is_control(c) && added < remaining {
            push_char(buffer, c);
            added = added + 1;
            assert(before.len() < room);
            assert(buffer@ =~= start + at_most(printable(input@.subrange(0, k + 1)), room));
        } else if is_control(c) {
            assert(printable(input@.subrange(0, k + 1)) == before);
        } else {
            assert(printable(input@.subrange(0, k + 1)) == before.push(c));
            proof {
                if room > 0 {
                    assert(before.push(c).take(room) =~= before.take(room));
                }
            }
            assert(at_most(printable(input@.subrange(0, k + 1)), room) =~= at_most(before, room));
        }
        k = k + 1;
    }
    assert(input@.subrange(0, chars@.len() as int) =~= input@);
}

// ---------------------------------------------------------------------
// Title and naming screens
// ---------------------------------------------------------------------

/// Whether `screen` is one of the two naming screens.
pub fn in_name_entry_screen(screen: AppScreen) -> (r: bool)
    ensures
        r == (screen == AppScreen::WorldCreation || screen == AppScreen::CharacterCreation),
{
    matches!(screen, AppScreen::WorldCreation | AppScreen::CharacterCreation)
}

/// Whether `screen` is one of the three selection screens.
pub fn in_selection_screen(screen: AppScreen) -> (r: bool)
    ensures
        r == (item_count(screen) > 0),
{
    matches!(screen, AppScreen::OriginSelection | AppScreen::MotiveSelection | AppScreen::PartnerSelection)
}

/// Enter (either one) or Space.
pub open spec fn starts_game(key: FlowKey) -> bool {
    key == FlowKey::Enter || key == FlowKey::NumpadEnter || key == FlowKey::Space
}

/// Either Enter key.
pub open spec fn is_enter(key: FlowKey) -> bool {
    key == FlowKey::Enter || key == FlowKey::NumpadEnter
}

/// The title screen: Enter, Space or a click on the new-game button opens
/// world creation. `button_clicked` is a left click that went down on the
/// button in this frame.
pub fn title_input(key: Option<FlowKey>, button_clicked: bool) -> (next: Option<AppScreen>)
    ensures
        next == (if button_clicked || (key matches Some(k) && starts_game(k)) {
            Some(AppScreen::WorldCreation)
        } else {
            None::<AppScreen>
        }),
{
    let key_pressed = match key {
        Some(FlowKey::Enter) | Some(FlowKey::NumpadEnter) | Some(FlowKey::Space) => true,
        _ => false,
    };
    if button_clicked || key_pressed {
        Some(AppScreen::WorldCreation)
    } else {
        None
    }
}

/// The typed name, trimmed, or `default` when nothing but white space was typed.
pub open spec fn chosen_name(typed: Seq<char>, default: Seq<char>) -> Seq<char> {
    if trim(typed).len() == 0 { default } else { trim(typed) }
}

/// The naming screens: Enter or a click on the create button takes the
/// trimmed name (or the default when it is empty) as the world's name on
/// world creation, moving on to character creation, or as the
/// protagonist's on character creation, moving on to origin selection.
/// Other screens, and other keys, change nothing.
pub fn name_entry_confirm(
    screen: AppScreen,
    key: Option<FlowKey>,
    button_clicked: bool,
    buffer: &str,
    config: &mut NewGameConfig,
) -> (next: Option<AppScreen>)
    ensures
        ({
            let confirmed = button_clicked || (key matches Some(k) && is_enter(k));
            &&& final(config).build == old(config).build
            &&& if confirmed && screen == AppScreen::WorldCreation {
                &&& next == Some(AppScreen::CharacterCreation)
                &&& final(config).world_name@ == chosen_name(buffer@, DEFAULT_WORLD_NAME@)
                &&& final(config).character_name@ == old(config).character_name@
            } else if confirmed && screen == AppScreen::CharacterCreation {
                &&& next == Some(AppScreen::OriginSelection)
                &&& final(config).character_name@ == chosen_name(buffer@, DEFAULT_CHARACTER_NAME@)
                &&& final(config).world_name@ == old(config).world_name@
            } else {
                &&& next is None
                &&& final(config).world_name@ == old(config).world_name@
                &&& final(config).character_name@ == old(config).character_name@
            }
        }),
{
    let enter_pressed = match key {
        Some(FlowKey::Enter) | Some(FlowKey::NumpadEnter) => true,
        _ => false,
    };
    if !button_clicked && !enter_pressed {
        return None;
    }
    let name = trimmed(buffer);
    let empty = name.as_str().unicode_len() == 0;
    match screen {
        AppScreen::WorldCreation => {
            config.world_name = if empty { string_of(DEFAULT_WORLD_NAME) } else { name };
            Some(AppScreen::CharacterCreation)
        },
        AppScreen::CharacterCreation => {
            config.character_name = if empty { string_of(DEFAULT_CHARACTER_NAME) } else { name };
            Some(AppScreen::OriginSelection)
        },
        _ => None,
    }
}

// ---------------------------------------------------------------------
// Selection screens
// ---------------------------------------------------------------------

/// Number of entries on a selection screen (none on other screens).
pub open spec fn item_count(screen: AppScreen) -> int {
    match screen {
        AppScreen::OriginSelection => 4,
        AppScreen::MotiveSelection => 5,
        AppScreen::PartnerSelection => 3,
        _ => 0,
    }
}

/// The origin listed at index `i`.
pub open spec fn origin_at(i: int) -> OriginKind {
    if i == 0 {
        OriginKind::MerchantSon
    } else if i == 1 {
        OriginKind::FormerMercenary
    } else if i == 2 {
        OriginKind::FormerAcolyte
    } else {
        OriginKind::FarmerThirdSon
    }
}

/// The motive listed at index `i`.
pub open spec fn motive_at(i: int) -> MotiveKind {
    if i == 0 {
        MotiveKind::AspiringAdventurer
    } else if i == 1 {
        MotiveKind::Eloper
    } else if i == 2 {
        MotiveKind::Seeker
    } else if i == 3 {
        MotiveKind::Avenger
    } else {
        MotiveKind::Fugitive
    }
}

/// The entry a cursor picks out of `count` entries: the last one when the
/// cursor lies past the end.
pub open spec fn clamp_index(cursor: int, count: int) -> int {
    if cursor < count - 1 { cursor } else { count - 1 }
}

/// Number of entries on a selection screen.
pub fn get_item_count(screen: AppScreen) -> (r: usize)
    ensures
        r == item_count(screen),
{
    match screen {
        AppScreen::OriginSelection => 4,
        AppScreen::MotiveSelection => 5,
        AppScreen::PartnerSelection => 3,
        _ => 0,
    }
}

fn origin_from_index(i: usize) -> (r: OriginKind)
    requires
        i < 4,
    ensures
        r == origin_at(i as int),
{
    let all = OriginKind::ALL;
    assert(all@ == seq![OriginKind::MerchantSon, OriginKind::FormerMercenary, OriginKind::FormerAcolyte, OriginKind::FarmerThirdSon]);
    all[i]
}

fn motive_from_index(i: usize) -> (r: MotiveKind)
    requires
        i < 5,
    ensures
        r == motive_at(i as int),
{
    let all = MotiveKind::ALL;
    assert(all@ == seq![MotiveKind::AspiringAdventurer, MotiveKind::Eloper, MotiveKind::Seeker, MotiveKind::Avenger, MotiveKind::Fugitive]);
    all[i]
}

/// What confirming the entry at `cursor` on `screen` does to the
/// configuration `before`, giving `after` and the next screen `next`.
pub open spec fn selection_advanced(
    screen: AppScreen,
    cursor: usize,
    before: NewGameConfig,
    after: NewGameConfig,
    next: Option<AppScreen>,
) -> bool {
    let idx = clamp_index(cursor as int, item_count(screen));
    &&& after.world_name == before.world_name
    &&& after.character_name == before.character_name
    &&& match screen {
        AppScreen::OriginSelection => {
            &&& next == Some(AppScreen::MotiveSelection)
            &&& after.build.origin == origin_at(idx)
            &&& after.build.motive == before.build.motive
            &&& after.build.partner == before.build.partner
        },
        AppScreen::MotiveSelection => {
            &&& after.build.origin == before.build.origin
            &&& after.build.motive == motive_at(idx)
            &&& if motive_at(idx) == MotiveKind::Eloper {
                &&& next == Some(AppScreen::PartnerSelection)
                &&& after.build.partner == before.build.partner
            } else {
                &&& next == Some(AppScreen::Generating)
                &&& after.build.partner is None
            }
        },
        AppScreen::PartnerSelection => {
            &&& next == Some(AppScreen::Generating)
            &&& after.build.origin == before.build.origin
            &&& after.build.motive == before.build.motive
            &&& after.build.partner matches Some(p) && p.is_default_candidate(idx)
        },
        _ => {
            &&& next is None
            &&& after.build == before.build
        },
    }
}

/// What confirming a selection does: on origin selection the origin at the
/// cursor is taken and motive selection follows; on motive selection the
/// motive is taken, and an eloper goes on to partner selection while any
/// other motive clears the partner and starts generating; on partner
/// selection the candidate at the cursor becomes the partner and
/// generating starts. A cursor past the end picks the last entry. Other
/// screens change nothing.
pub fn advance_selection(screen: AppScreen, cursor: usize, config: &mut NewGameConfig) -> (next: Option<AppScreen>)
    ensures
        selection_advanced(screen, cursor, *old(config), *final(config), next),

{
    match screen {
        AppScreen::OriginSelection => {
            let idx = if cursor < 3 { cursor } else { 3 };
            config.build.origin = origin_from_index(idx);
            Some(AppScreen::MotiveSelection)
        },
        AppScreen::MotiveSelection => {
            let idx = if cursor < 4 { cursor } else { 4 };
            let motive = motive_from_index(idx);
            config.build.motive = motive;
            if motive == MotiveKind::Eloper {
                Some(AppScreen::PartnerSelection)
            } else {
                config.build.partner = None;
                Some(AppScreen::Generating)
            }
        },
        AppScreen::PartnerSelection => {
            let mut candidates = EloperPartnerCandidate::default_candidates();
            let idx = if cursor < 2 { cursor } else { 2 };
            assert(candidates@[idx as int].is_default_candidate(idx as int));
            let chosen = candidates.remove(idx);
            config.build.partner = Some(chosen);
            Some(AppScreen::Generating)
        },
        _ => None,
    }
}

/// The cursor after Up: one entry back, wrapping from the first to the last.
pub open spec fn cursor_up(cursor: int, count: int) -> int {
    (cursor + count - 1) % count
}

/// The cursor after Down: one entry on, wrapping from the last to the first.
pub open spec fn cursor_down(cursor: int, count: int) -> int {
    (cursor + 1) % count
}

/// The entry index a number key selects (`n` is the number on the key), if
/// it is one of `1..=5`.
pub open spec fn digit_index(n: u8) -> Option<int> {
    if 1 <= n && n <= 5 { Some(n - 1) } else { None }
}

/// Up arrow or `W`.
pub open spec fn is_flow_up(key: FlowKey) -> bool {
    key == FlowKey::ArrowUp || key == FlowKey::KeyW
}

/// Down arrow or `S`.
pub open spec fn is_flow_down(key: FlowKey) -> bool {
    key == FlowKey::ArrowDown || key == FlowKey::KeyS
}

/// The cursor after one key on a screen with `count > 0` entries.
pub open spec fn cursor_after_key(cursor: int, count: int, key: FlowKey) -> int {
    if is_flow_up(key) {
        cursor_up(cursor, count)
    } else if is_flow_down(key) {
        cursor_down(cursor, count)
    } else {
        match key {
            FlowKey::Digit(n) | FlowKey::Numpad(n) => match digit_index(n) {
                Some(i) => if i < count { i } else { cursor },
                None => cursor,
            },
            _ => cursor,
        }
    }
}

/// The selection screens' keys: Up/`W` and Down/`S` move the cursor with
/// wrap-around, the number keys `1`..`5` jump to an existing entry, and
/// Enter or Space confirms the entry at the cursor (see
/// `advance_selection`). Nothing happens on a screen without entries.
pub fn selection_input(
    screen: AppScreen,
    key: FlowKey,
    config: &mut NewGameConfig,
    selection: &mut SelectionState,
) -> (next: Option<AppScreen>)
    requires
        is_flow_up(key) ==> old(selection).cursor + item_count(screen) - 1 <= usize::MAX,
        is_flow_down(key) ==> old(selection).cursor + 1 <= usize::MAX,
    ensures
        item_count(screen) == 0 ==> next is None && *final(config) == *old(config)
            && *final(selection) == *old(selection),
        item_count(screen) > 0 ==> final(selection).cursor == cursor_after_key(
            old(selection).cursor as int,
            item_count(screen),
            key,
        ),
        item_count(screen) > 0 && !starts_game(key) ==> next is None && *final(config) == *old(config),
        item_count(screen) > 0 && starts_game(key) ==> selection_advanced(
            screen,
            old(selection).cursor,
            *old(config),
            *final(config),
            next,
        ),
{
    let count = get_item_count(screen);
    if count == 0 {
        return None;
    }
    match key {
        FlowKey::ArrowUp | FlowKey::KeyW => {
            selection.cursor = (selection.cursor + (count - 1)) % count;
        },
        FlowKey::ArrowDown | FlowKey::KeyS => {
            selection.cursor = (selection.cursor + 1) % count;
        },
        FlowKey::Digit(n) | FlowKey::Numpad(n) => {
            if 1 <= n && n <= 5 {
                let idx = (n - 1) as usize;
                if idx < count {
                    selection.cursor = idx;
                }
            }
        },
        _ => {},
    }
    match key {
        FlowKey::Enter | FlowKey::NumpadEnter | FlowKey::Space => {
            advance_selection(screen, selection.cursor, config)
        },
        _ => None,
    }
}

/// The selection screens' pointer: resting on an entry moves the cursor
/// there; clicking an entry moves the cursor there and confirms it; clicking
/// the confirm button confirms the entry at the cursor.
pub fn selection_pointer(
    screen: AppScreen,
    event: SelectionPointer,
    config: &mut NewGameConfig,
    selection: &mut SelectionState,
) -> (next: Option<AppScreen>)
    ensures
        match event {
            SelectionPointer::Hover(i) => {
                &&& final(selection).cursor == i
                &&& next is None
                &&& *final(config) == *old(config)
            },
            SelectionPointer::Click(i) => {
                &&& final(selection).cursor == i
                &&& selection_advanced(screen, i, *old(config), *final(config), next)
            },
            SelectionPointer::Confirm => {
                &&& *final(selection) == *old(selection)
                &&& selection_advanced(screen, old(selection).cursor, *old(config), *final(config), next)
            },
        },
{
    match event {
        SelectionPointer::Hover(i) => {
            selection.cursor = i;
            None
        },
        SelectionPointer::Click(i) => {
            selection.cursor = i;
            advance_selection(screen, i, config)
        },
        SelectionPointer::Confirm => advance_selection(screen, selection.cursor, config),
    }
}

// ---------------------------------------------------------------------
// What a selection screen shows
// ---------------------------------------------------------------------

/// The texts of a selection screen: one label per entry, then the title,
/// description and bonus line of the entry at the cursor.
pub struct SelectionDisplayData {
    pub items: Vec<String>,
    pub detail_title: String,
    pub detail_desc: String,
    pub detail_bonus: String,
}

/// Label of an origin entry: `title [category]`.
pub open spec fn origin_item_label(o: OriginKind) -> Seq<char> {
    o.spec_title() + " ["@ + o.spec_category() + "]"@
}

/// Label of a partner entry: `name（job）`.
pub open spec fn partner_item_label(i: int) -> Seq<char> {
    candidate_name(i) + "（"@ + candidate_job(i) + "）"@
}

/// The texts each selection screen shows for the entry at index `idx`.
pub open spec fn display_matches(screen: AppScreen, idx: int, d: SelectionDisplayData) -> bool {
    match screen {
        AppScreen::OriginSelection => {
            let o = origin_at(idx);
            &&& d.items@.len() == 4
            &&& forall|i: int| 0 <= i < 4 ==> #[trigger] d.items@[i]@ == origin_item_label(origin_at(i))
            &&& d.detail_title@ == "【 "@ + o.spec_title() + " 】- "@ + o.spec_category()
            &&& d.detail_desc@ == o.spec_description()
            &&& d.detail_bonus@ == o.spec_bonus_summary()
        },
        AppScreen::MotiveSelection => {
            let m = motive_at(idx);
            &&& d.items@.len() == 5
            &&& forall|i: int| 0 <= i < 5 ==> #[trigger] d.items@[i]@ == motive_at(i).spec_title()
            &&& d.detail_title@ == "【 "@ + m.spec_title() + " 】"@
            &&& d.detail_desc@ == m.spec_description()
            &&& d.detail_bonus@ == m.spec_bonus_summary()
        },
        AppScreen::PartnerSelection => {
            &&& d.items@.len() == 3
            &&& forall|i: int| 0 <= i < 3 ==> #[trigger] d.items@[i]@ == partner_item_label(i)
            &&& d.detail_title@ == "【 "@ + candidate_name(idx) + " 】 職業: "@ + candidate_job(idx)
                + " / 性格: "@ + candidate_personality(idx).spec_label()
            &&& d.detail_desc@ == candidate_backstory(idx)
            &&& d.detail_bonus@ == "HP: "@ + int_decimal(candidate_hp(idx)) + " / MP: "@
                + int_decimal(candidate_mp(idx)) + " / 初期影響度: 88（自然上限寸前）"@
        },
        _ => {
            &&& d.items@.len() == 0
            &&& d.detail_title@.len() == 0
            &&& d.detail_desc@.len() == 0
            &&& d.detail_bonus@.len() == 0
        },
    }
}

/// The texts of `screen` with the cursor at `cursor` (past the end: the
/// last entry).
pub fn get_selection_display_data(screen: AppScreen, cursor: usize) -> (r: SelectionDisplayData)
    ensures
        display_matches(screen, clamp_index(cursor as int, item_count(screen)), r),
{
    match screen {
        AppScreen::OriginSelection => {
            let mut items: Vec<String> = Vec::new();
            let mut i: usize = 0;
            while i < 4
                invariant
                    i <= 4,
                    items@.len() == i,
                    forall|j: int| 0 <= j < i ==> #[trigger] items@[j]@ == origin_item_label(origin_at(j)),
                decreases 4 - i,
            {
                let o = origin_from_index(i);
                let mut label = concat2(o.title(), " [");
                append_str(&mut label, o.category());
                append_str(&mut label, "]");
                items.push(label);
                i = i + 1;
            }
            let idx = if cursor < 3 { cursor } else { 3 };
            let current = origin_from_index(idx);
            let mut title = concat2("【 ", current.title());
            append_str(&mut title, " 】- ");
            append_str(&mut title, current.category());
            SelectionDisplayData {
                items,
                detail_title: title,
                detail_desc: string_of(current.description()),
                detail_bonus: string_of(current.bonus_summary()),
            }
        },
        AppScreen::MotiveSelection => {
            let mut items: Vec<String> = Vec::new();
            let mut i: usize = 0;
            while i < 5
                invariant
                    i <= 5,
                    items@.len() == i,
                    forall|j: int| 0 <= j < i ==> #[trigger] items@[j]@ == motive_at(j).spec_title(),
                decreases 5 - i,
            {
                let m = motive_from_index(i);
                items.push(string_of(m.title()));
                i = i + 1;
            }
            let idx = if cursor < 4 { cursor } else { 4 };
            let current = motive_from_index(idx);
            let mut title = concat2("【 ", current.title());
            append_str(&mut title, " 】");
            SelectionDisplayData {
                items,
                detail_title: title,
                detail_desc: string_of(current.description()),
                detail_bonus: string_of(current.bonus_summary()),
            }
        },
        AppScreen::PartnerSelection => {
            let candidates = EloperPartnerCandidate::default_candidates();
            let mut items: Vec<String> = Vec::new();
            let mut i: usize = 0;
            while i < 3
                invariant
                    i <= 3,
                    candidates@.len() == 3,
                    forall|j: int| 0 <= j < 3 ==> #[trigger] candidates@[j].is_default_candidate(j),
                    items@.len() == i,
                    forall|j: int| 0 <= j < i ==> #[trigger] items@[j]@ == partner_item_label(j),
                decreases 3 - i,
            {
                let c = &candidates[i];
                assert(c.is_default_candidate(i as int));
                let mut label = concat2(c.name.as_str(), "（");
                append_str(&mut label, c.job.as_str());
                append_str(&mut label, "）");
                items.push(label);
                i = i + 1;
            }
            let idx = if cursor < 2 { cursor } else { 2 };
            let current = &candidates[idx];
            assert(current.is_default_candidate(idx as int));
            let mut title = concat2("【 ", current.name.as_str());
            append_str(&mut title, " 】 職業: ");
            append_str(&mut title, current.job.as_str());
            append_str(&mut title, " / 性格: ");
            append_str(&mut title, current.personality.label());
            let mut bonus = string_of("HP: ");
            append_int(&mut bonus, current.hp as i64);
            append_str(&mut bonus, " / MP: ");
            append_int(&mut bonus, current.mp as i64);
            append_str(&mut bonus, " / 初期影響度: 88（自然上限寸前）");
            SelectionDisplayData {
                items,
                detail_title: title,
                detail_desc: current.backstory.clone(),
                detail_bonus: bonus,
            }
        },
        _ => SelectionDisplayData {
            items: Vec::new(),
            detail_title: String::new(),
            detail_desc: String::new(),
            detail_bonus: String::new(),
        },
    }
}

// ---------------------------------------------------------------------
// World generation
// ---------------------------------------------------------------------

/// The banner of the generating screen: `『world』を生成しています…`.
pub open spec fn generating_banner(world_name: Seq<char>) -> Seq<char> {
    "『"@ + world_name + "』を生成しています…"@
}

/// Starts a new game from the configuration: the party is the build's
/// starting party with the first member selected; the protagonist's
/// skills, the inventory and the reserve roster are the build's; the town
/// is new. Returns the town, the timer that holds the generating screen
/// for `GENERATING_MIN_MILLIS`, and the banner naming the world.
pub fn setup_generating_screen(
    config: &NewGameConfig,
    party: &mut PartyState,
    player: &mut PlayerResource,
    inventory: &mut PlayerInventory,
    roster: &mut ReserveRoster,
) -> (r: (TownState, SimpleTimer, String))
    ensures
        final(party).selected_index == 0,
        final(party).debug_mode == old(party).debug_mode,
        config.build.party_members_ok(config.character_name@, final(party).members@),
        final(player).skills.magic_knowledge == config.build.origin.spec_base_skills().0,
        final(player).skills.keen_eye == config.build.origin.spec_base_skills().1,
        final(inventory).gold == crate::party::origin::spec_start_gold(config.build.origin, config.build.motive),
        crate::party::inventory::strings_view(final(inventory).items@) == config.build.origin.spec_base_items(),
        crate::party::inventory::strings_view(final(inventory).topics@)
            == crate::party::origin::spec_start_topics(config.build.motive),
        crate::party::origin::reserve_roster_ok(final(roster).members@),
        r.0.is_new_town(),
        r.1.wf(),
        r.1.spec_duration() == GENERATING_MIN_MILLIS * 1_000_000,
        r.1.spec_elapsed() == 0,
        r.2@ == generating_banner(config.world_name@),
{
    party.members = config.build.create_party_members(config.character_name.as_str());
    party.selected_index = 0;
    player.skills = config.build.calculate_player_skills();
    *inventory = config.build.create_inventory();
    *roster = config.build.create_reserve_roster();
    let town = TownState::new();
    let timer = SimpleTimer::from_millis(GENERATING_MIN_MILLIS);
    let mut banner = concat2("『", config.world_name.as_str());
    append_str(&mut banner, "』を生成しています…");
    (town, timer, banner)
}

/// Advances the generating screen's timer; play begins on the frame in
/// which the minimum time is first reached.
pub fn tick_generating(timer: &mut SimpleTimer, delta_nanos: u64) -> (next: Option<AppScreen>)
    requires
        !old(timer).spec_finished() ==> old(timer).spec_elapsed() + delta_nanos <= u64::MAX,
    ensures
        final(timer).spec_duration() == old(timer).spec_duration(),
        old(timer).spec_finished() ==> final(timer).spec_elapsed() == old(timer).spec_elapsed()
            && final(timer).spec_finished(),
        !old(timer).spec_finished() ==> final(timer).spec_elapsed() == old(timer).spec_elapsed() + delta_nanos
            && final(timer).spec_finished() == (final(timer).spec_elapsed() >= final(timer).spec_duration()),
        next == (if !old(timer).spec_finished() && final(timer).spec_finished() {
            Some(AppScreen::Playing)
        } else {
            None::<AppScreen>
        }),
{
    let was_finished = timer.finished();
    timer.tick(delta_nanos);
    if !was_finished && timer.finished() {
        Some(AppScreen::Playing)
    } else {
        None
    }
}

// ---------------------------------------------------------------------
// Laws of the start-up flow
// ---------------------------------------------------------------------

/// On a list of `count` entries, Down undoes Up and Up undoes Down.
pub proof fn lemma_cursor_up_down_inverse(cursor: int, count: int)
    requires
        0 <= cursor < count,
    ensures
        cursor_down(cursor_up(cursor, count), count) == cursor,
        cursor_up(cursor_down(cursor, count), count) == cursor,
{
    if cursor == 0 {
        assert((count - 1) % count == count - 1) by (nonlinear_arith)
            requires count > 0;
        assert(count % count == 0) by (nonlinear_arith)
            requires count > 0;
        assert((0int + 1) % count == if count == 1 { 0int } else { 1int }) by (nonlinear_arith)
            requires count > 0;
    } else {
        assert((cursor + count - 1) % count == cursor - 1) by (nonlinear_arith)
            requires 0 < cursor < count;
        assert((cursor - 1 + 1) % count == cursor) by (nonlinear_arith)
            requires 0 < cursor < count;
    }
    if cursor == count - 1 {
        assert((cursor + 1) % count == 0) by (nonlinear_arith)
            requires cursor == count - 1, count > 0;
        assert((0int + count - 1) % count == count - 1) by (nonlinear_arith)
            requires count > 0;
    } else {
        assert((cursor + 1) % count == cursor + 1) by (nonlinear_arith)
            requires 0 <= cursor, cursor + 1 < count;
        assert((cursor + 1 + count - 1) % count == cursor) by (nonlinear_arith)
            requires 0 <= cursor < count;
    }
}

/// A key on a selection screen keeps the cursor on an existing entry.
pub proof fn lemma_cursor_stays_in_range(cursor: int, count: int, key: FlowKey)
    requires
        0 <= cursor < count,
    ensures
        0 <= cursor_after_key(cursor, count, key) < count,
{
    assert(0 <= (cursor + count - 1) % count < count) by (nonlinear_arith)
        requires 0 <= cursor < count;
    assert(0 <= (cursor + 1) % count < count) by (nonlinear_arith)
        requires 0 <= cursor < count;
}

/// `printable` keeps no control character.
pub proof fn lemma_printable_has_no_control(s: Seq<char>)
    ensures
        forall|i: int| 0 <= i < printable(s).len() ==> !is_control_spec(#[trigger] printable(s)[i]),
        printable(s).len() <= s.len(),
    decreases s.len(),
{
    if s.len() > 0 {
        lemma_printable_has_no_control(s.drop_last());
    }
}

/// Typing never makes a name longer than `MAX_NAME_LEN`, and never adds a
/// control character.
pub proof fn lemma_typed_name_fits(before: Seq<char>, text: Seq<char>)
    requires
        before.len() <= MAX_NAME_LEN,
    ensures
        ({
            let after = before + at_most(printable(text), MAX_NAME_LEN - before.len());
            &&& after.len() <= MAX_NAME_LEN
            &&& after.subrange(0, before.len() as int) == before
            &&& forall|i: int| before.len() <= i < after.len() ==> !is_control_spec(#[trigger] after[i])
        }),
{
    lemma_printable_has_no_control(text);
    let added = at_most(printable(text), MAX_NAME_LEN - before.len());
    let after = before + added;
    assert(after.subrange(0, before.len() as int) =~= before);
    assert forall|i: int| before.len() <= i < after.len() implies !is_control_spec(#[trigger] after[i]) by {
        assert(after[i] == added[i - before.len()]);
        assert(added[i - before.len()] == printable(text)[i - before.len()]);
    }
}

proof fn lemma_trim_start_shape(s: Seq<char>)
    ensures
        trim_start(s).len() <= s.len(),
        trim_start(s) == s.subrange(s.len() - trim_start(s).len(), s.len() as int),
        trim_start(s).len() > 0 ==> !is_white_space_spec(trim_start(s)[0]),
    decreases s.len(),
{
    if s.len() > 0 && is_white_space_spec(s[0]) {
        lemma_trim_start_shape(s.drop_first());
        assert(s.drop_first().subrange(s.drop_first().len() - trim_start(s).len(), s.drop_first().len() as int)
            =~= s.subrange(s.len() - trim_start(s).len(), s.len() as int));
    } else {
        assert(s.subrange(0, s.len() as int) =~= s);
    }
}

proof fn lemma_trim_end_shape(s: Seq<char>)
    ensures
        trim_end(s).len() <= s.len(),
        trim_end(s) == s.subrange(0, trim_end(s).len() as int),
        trim_end(s).len() > 0 ==> !is_white_space_spec(trim_end(s).last()),
    decreases s.len(),
{
    if s.len() > 0 && is_white_space_spec(s.last()) {
        lemma_trim_end_shape(s.drop_last());
        assert(s.drop_last().subrange(0, trim_end(s).len() as int) =~= s.subrange(0, trim_end(s).len() as int));
    } else {
        assert(s.subrange(0, s.len() as int) =~= s);
    }
}

/// A confirmed name is never empty and neither starts nor ends with white
/// space, provided the default has the same properties.
pub proof fn lemma_chosen_name_trimmed(typed: Seq<char>, default: Seq<char>)
    requires
        default.len() > 0,
        !is_white_space_spec(default[0]),
        !is_white_space_spec(default.last()),
    ensures
        chosen_name(typed, default).len() > 0,
        !is_white_space_spec(chosen_name(typed, default)[0]),
        !is_white_space_spec(chosen_name(typed, default).last()),
{
    lemma_trim_start_shape(typed);
    lemma_trim_end_shape(trim_start(typed));
    let t = trim(typed);
    if t.len() > 0 {
        assert(t[0] == trim_start(typed)[0]);
    }
}

} // verus!
