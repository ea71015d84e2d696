//! Conversations: topics, remembering words from a reply, the inn and the shop.

use crate::party::inventory::strings_view;
use crate::party::{PartyMember, PlayerInventory, CURRENCY_NAME, CURRENCY_UNIT};
use crate::text::{append_int, chars_of, int_decimal, str_eq, string_from_chars, string_of};
use vstd::prelude::*;
use vstd::string::*;

verus! {

/// The price of one night at the inn.
pub const INN_COST: i32 = 50;

/// Who the protagonist talks to.
#[derive(Clone, Copy, Debug, PartialEq, Eq, Structural)]
pub enum DialoguePartner {
    Inn,
    Shop,
    Tavern,
    Guard,
    Villager,
    Suspicious,
}

impl DialoguePartner {
    pub open spec fn spec_name(self) -> Seq<char> {
        match self {
            DialoguePartner::Inn => "宿屋の主人"@,
            DialoguePartner::Shop => "道具屋の店主"@,
            DialoguePartner::Tavern => "呑兵衛の冒険者"@,
            DialoguePartner::Guard => "王都衛兵"@,
            DialoguePartner::Villager => "街の女性"@,
            DialoguePartner::Suspicious => "裏通りの怪しい男"@,
        }
    }

    /// The partner's display name.
    pub fn name(&self) -> (r: &'static str)
        ensures
            r@ == self.spec_name(),
    {
        match self {
            DialoguePartner::Inn => "宿屋の主人",
            DialoguePartner::Shop => "道具屋の店主",
            DialoguePartner::Tavern => "呑兵衛の冒険者",
            DialoguePartner::Guard => "王都衛兵",
            DialoguePartner::Villager => "街の女性",
            DialoguePartner::Suspicious => "裏通りの怪しい男",
        }
    }
}

/// An article for sale at the item shop.
#[derive(Clone, Debug)]
pub struct ShopItem {
    pub name: &'static str,
    pub price: i32,
    pub description: &'static str,
}

/// The number of articles the shop sells.
pub const SHOP_ITEM_COUNT: usize = 4;

pub open spec fn spec_shop_item(i: int) -> (Seq<char>, int) {
    if i == 0 {
        ("やくそう"@, 8)
    } else if i == 1 {
        ("特やくそう"@, 25)
    } else if i == 2 {
        ("松明"@, 15)
    } else {
        ("どくけし草"@, 12)
    }
}

/// The `index`-th article of the shop (herb, fine herb, torch, antidote).
pub fn shop_item(index: usize) -> (r: ShopItem)
    requires
        index < SHOP_ITEM_COUNT,
    ensures
        r.name@ == spec_shop_item(index as int).0,
        r.price == spec_shop_item(index as int).1,
        r.description@ == spec_shop_description(index as int),
{
    if index == 0 {
        ShopItem { name: "やくそう", price: 8, description: "傷を癒やす薬草。HPを約30回復。" }
    } else if index == 1 {
        ShopItem { name: "特やくそう", price: 25, description: "上質な薬草。HPを約70回復。" }
    } else if index == 2 {
        ShopItem { name: "松明", price: 15, description: "迷宮を照らす松明の油。視界確保用。" }
    } else {
        ShopItem { name: "どくけし草", price: 12, description: "体内の毒素を中和する薬草。" }
    }
}

/// All articles of the shop, in display order.
pub fn shop_items() -> (r: Vec<ShopItem>)
    ensures
        r@.len() == SHOP_ITEM_COUNT,
        forall|i: int| 0 <= i < SHOP_ITEM_COUNT ==> #[trigger] r@[i].name@ == spec_shop_item(i).0
            && r@[i].price == spec_shop_item(i).1,
{
    let mut v: Vec<ShopItem> = Vec::new();
    let mut i: usize = 0;
    while i < SHOP_ITEM_COUNT
        invariant
            i <= SHOP_ITEM_COUNT,
            v@.len() == i,
            forall|k: int| 0 <= k < i ==> #[trigger] v@[k].name@ == spec_shop_item(k).0
                && v@[k].price == spec_shop_item(k).1,
        decreases SHOP_ITEM_COUNT - i,
    {
        v.push(shop_item(i));
        i = i + 1;
    }
    v
}

/// The character range `start..end` of a word in a reply that can be remembered.
#[derive(Clone, Copy, Debug, PartialEq, Eq, Structural)]
pub struct LearnableSpan {
    pub start: usize,
    pub end: usize,
}

impl LearnableSpan {
    /// The characters `start..end` of `text` (clipped to its length).
    pub fn slice(&self, text: &str) -> (r: String)
        requires
            self.start <= self.end,
        ensures
            r@ == text@.subrange(
                if self.start <= text@.len() { self.start as int } else { text@.len() as int },
                if self.end <= text@.len() { self.end as int } else { text@.len() as int },
            ),
    {
        let chars = chars_of(text);
        let n = chars.len();
        let from = if self.start <= n { self.start } else { n };
        let to = if self.end <= n { self.end } else { n };
        string_from_chars(&chars, from, to)
    }
}

/// `w` occurs in `t` at character position `i`.
pub open spec fn occurs_at(t: Seq<char>, w: Seq<char>, i: int) -> bool {
    0 <= i && i + w.len() <= t.len() && t.subrange(i, i + w.len()) == w
}

/// Word number `wi` of `words` yields the span `s` of `t`.
pub open spec fn produces(t: Seq<char>, words: Seq<Seq<char>>, wi: int, s: LearnableSpan) -> bool {
    &&& 0 <= wi < words.len()
    &&& words[wi].len() > 0
    &&& occurs_at(t, words[wi], s.start as int)
    &&& s.end == s.start + words[wi].len()
}

/// Some word yields the span.
pub open spec fn is_learnable(t: Seq<char>, words: Seq<Seq<char>>, s: LearnableSpan) -> bool {
    exists|wi: int| produces(t, words, wi, s)
}

/// The first word (from index `from` on) that yields the span, or `words.len()`.
pub open spec fn first_producer(t: Seq<char>, words: Seq<Seq<char>>, s: LearnableSpan, from: int) -> int
    decreases words.len() - from,
{
    if from >= words.len() || from < 0 {
        words.len() as int
    } else if produces(t, words, from, s) {
        from
    } else {
        first_producer(t, words, s, from + 1)
    }
}

/// Span `a` comes before span `b`: by start, then by the first word yielding it.
pub open spec fn span_before(t: Seq<char>, words: Seq<Seq<char>>, a: LearnableSpan, b: LearnableSpan) -> bool {
    a.start < b.start || (a.start == b.start && first_producer(t, words, a, 0) < first_producer(t, words, b, 0))
}

/// `spans` lists every span some word yields in `t`, each once, in order of
/// position (spans starting at the same character: in the order of the words).
pub open spec fn spans_spec(t: Seq<char>, words: Seq<Seq<char>>, spans: Seq<LearnableSpan>) -> bool {
    &&& forall|k: int| 0 <= k < spans.len() ==> is_learnable(t, words, #[trigger] spans[k])
    &&& forall|s: LearnableSpan| is_learnable(t, words, s) ==> spans.contains(s)
    &&& forall|k: int, l: int| 0 <= k < l < spans.len() ==> span_before(t, words, #[trigger] spans[k], #[trigger] spans[l])
}

pub proof fn lemma_first_producer(t: Seq<char>, words: Seq<Seq<char>>, s: LearnableSpan, from: int)
    requires
        0 <= from,
    ensures
        from <= first_producer(t, words, s, from) <= words.len() || (from > words.len() && first_producer(t, words, s, from) == words.len()),
        first_producer(t, words, s, from) < words.len() ==> produces(t, words, first_producer(t, words, s, from), s),
        forall|wi: int| from <= wi < first_producer(t, words, s, from) ==> !produces(t, words, wi, s),
    decreases words.len() - from,
{
    if from < words.len() && !produces(t, words, from, s) {
        lemma_first_producer(t, words, s, from + 1);
    }
}

proof fn lemma_sorted_spans_equal(t: Seq<char>, words: Seq<Seq<char>>, a: Seq<LearnableSpan>, b: Seq<LearnableSpan>)
    requires
        forall|k: int, l: int| 0 <= k < l < a.len() ==> span_before(t, words, #[trigger] a[k], #[trigger] a[l]),
        forall|k: int, l: int| 0 <= k < l < b.len() ==> span_before(t, words, #[trigger] b[k], #[trigger] b[l]),
        forall|x: LearnableSpan| a.contains(x) <==> b.contains(x),
    ensures
        a == b,
    decreases a.len(),
{
    if a.len() == 0 {
        if b.len() > 0 {
            assert(b.contains(b[0]));
        }
        assert(a =~= b);
    } else {
        assert(a.contains(a[0]));
        assert(b.len() > 0);
        assert(b.contains(b[0]));
        let i = choose|i: int| 0 <= i < b.len() && b[i] == a[0];
        let j = choose|j: int| 0 <= j < a.len() && a[j] == b[0];
        if i > 0 && j > 0 {
            assert(span_before(t, words, a[0], a[j]));
            assert(span_before(t, words, b[0], b[i]));
            assert(false);
        }
        assert(a[0] == b[0]);
        let a1 = a.drop_first();
        let b1 = b.drop_first();
        assert forall|x: LearnableSpan| a1.contains(x) <==> b1.contains(x) by {
            if a1.contains(x) {
                let k = choose|k: int| 0 <= k < a1.len() && a1[k] == x;
                assert(a[k + 1] == x);
                assert(span_before(t, words, a[0], a[k + 1]));
                assert(x != a[0]);
                assert(a.contains(x));
                let m = choose|m: int| 0 <= m < b.len() && b[m] == x;
                assert(m != 0);
                assert(b1[m - 1] == x);
            }
            if b1.contains(x) {
                let k = choose|k: int| 0 <= k < b1.len() && b1[k] == x;
                assert(b[k + 1] == x);
                assert(span_before(t, words, b[0], b[k + 1]));
                assert(x != b[0]);
                assert(b.contains(x));
                let m = choose|m: int| 0 <= m < a.len() && a[m] == x;
                assert(m != 0);
                assert(a1[m - 1] == x);
            }
        }
        assert forall|k: int, l: int| 0 <= k < l < a1.len() implies span_before(t, words, #[trigger] a1[k], #[trigger] a1[l]) by {
            assert(a1[k] == a[k + 1] && a1[l] == a[l + 1]);
        }
        assert forall|k: int, l: int| 0 <= k < l < b1.len() implies span_before(t, words, #[trigger] b1[k], #[trigger] b1[l]) by {
            assert(b1[k] == b[k + 1] && b1[l] == b[l + 1]);
        }
        lemma_sorted_spans_equal(t, words, a1, b1);
        assert(a =~= seq![a[0]] + a1);
        assert(b =~= seq![b[0]] + b1);
    }
}

/// The marked spans of a text are determined by the text and the words:
/// two lists that both meet `spans_spec` are the same list. So what
/// `ask_topic` leaves depends only on the partner and the topic.
pub proof fn lemma_spans_unique(t: Seq<char>, words: Seq<Seq<char>>, a: Seq<LearnableSpan>, b: Seq<LearnableSpan>)
    requires
        spans_spec(t, words, a),
        spans_spec(t, words, b),
    ensures
        a == b,
{
    assert forall|x: LearnableSpan| a.contains(x) <==> b.contains(x) by {
        if a.contains(x) {
            let k = choose|k: int| 0 <= k < a.len() && a[k] == x;
            assert(is_learnable(t, words, a[k]));
        }
        if b.contains(x) {
            let k = choose|k: int| 0 <= k < b.len() && b[k] == x;
            assert(is_learnable(t, words, b[k]));
        }
    }
    lemma_sorted_spans_equal(t, words, a, b);
}

fn matches_at(t: &Vec<char>, w: &Vec<char>, i: usize) -> (r: bool)
    requires
        i + w@.len() <= t@.len(),
    ensures
        r == (t@.subrange(i as int, i + w@.len()) == w@),
{
    let tl = t.len();
    let mut k: usize = 0;
    while k < w.len()
        invariant
            tl == t@.len(),
            k <= w@.len(),
            i + w@.len() <= t@.len(),
            forall|j: int| 0 <= j < k ==> t@[i + j] == w@[j],
        decreases w@.len() - k,
    {
        if t[i + k] != w[k] {
            assert(t@.subrange(i as int, i + w@.len())[k as int] != w@[k as int]);
            return false;
        }
        k = k + 1;
    }
    assert(t@.subrange(i as int, i + w@.len()) =~= w@);
    true
}

fn contains_span(spans: &Vec<LearnableSpan>, s: LearnableSpan) -> (r: bool)
    ensures
        r == spans@.contains(s),
{
    let mut i: usize = 0;
    while i < spans.len()
        invariant
            i <= spans@.len(),
            forall|k: int| 0 <= k < i ==> spans@[k] != s,
        decreases spans@.len() - i,
    {
        if spans[i] == s {
            return true;
        }
        i = i + 1;
    }
    false
}

/// `sp` starts at `i`, is learnable, and its first word is one of the first `j`.
pub open spec fn found_at(t: Seq<char>, ws: Seq<Seq<char>>, i: int, j: int, sp: LearnableSpan) -> bool {
    &&& sp.start == i
    &&& is_learnable(t, ws, sp)
    &&& 0 <= first_producer(t, ws, sp, 0) < j
}

/// Every span in `text` at which one of `words` occurs (empty words ignored),
/// each once, ordered by position and, at the same position, by word order.
pub fn spans_for(text: &str, words: &[&str]) -> (r: Vec<LearnableSpan>)
    ensures
        spans_spec(text@, words@.map_values(|w: &str| w@), r@),
{
    let ghost ws = words@.map_values(|w: &str| w@);
    let chars = chars_of(text);
    let n = chars.len();
    let mut wchars: Vec<Vec<char>> = Vec::new();
    let mut wi: usize = 0;
    while wi < words.len()
        invariant
            wi <= words@.len(),
            ws == words@.map_values(|w: &str| w@),
            wchars@.len() == wi,
            forall|k: int| 0 <= k < wi ==> #[trigger] wchars@[k]@ == ws[k],
        decreases words@.len() - wi,
    {
        wchars.push(chars_of(words[wi]));
        wi = wi + 1;
    }
    let mut spans: Vec<LearnableSpan> = Vec::new();
    let mut i: usize = 0;
    while i < n
        invariant
            n == text@.len(),
            chars@ == text@,
            ws == words@.map_values(|w: &str| w@),
            wchars@.len() == ws.len(),
            forall|k: int| 0 <= k < ws.len() ==> #[trigger] wchars@[k]@ == ws[k],
            i <= n,
            forall|k: int| 0 <= k < spans@.len() ==> is_learnable(text@, ws, #[trigger] spans@[k]) && spans@[k].start < i,
            forall|s: LearnableSpan| #[trigger] is_learnable(text@, ws, s) && s.start < i ==> spans@.contains(s),
            forall|k: int, l: int| 0 <= k < l < spans@.len() ==> span_before(text@, ws, #[trigger] spans@[k], #[trigger] spans@[l]),
        decreases n - i,
    {
        let ghost before = spans@;
        let mut j: usize = 0;
        while j < wchars.len()
            invariant
                n == text@.len(),
                chars@ == text@,
                wchars@.len() == ws.len(),
                forall|k: int| 0 <= k < ws.len() ==> #[trigger] wchars@[k]@ == ws[k],
                i < n,
                j <= ws.len(),
                before.len() <= spans@.len(),
                forall|k: int| 0 <= k < before.len() ==> spans@[k] == before[k],
                forall|k: int| 0 <= k < before.len() ==> is_learnable(text@, ws, #[trigger] before[k]) && before[k].start < i,
                forall|k: int| before.len() <= k < spans@.len() ==> found_at(text@, ws, i as int, j as int, #[trigger] spans@[k]),
                forall|s: LearnableSpan| #[trigger] is_learnable(text@, ws, s) && s.start < i ==> before.contains(s),
                forall|s: LearnableSpan| #[trigger] is_learnable(text@, ws, s) && s.start == i && 0 <= first_producer(text@, ws, s, 0) < j ==> spans@.contains(s),
                forall|k: int, l: int| 0 <= k < l < spans@.len() ==> span_before(text@, ws, #[trigger] spans@[k], #[trigger] spans@[l]),
            decreases ws.len() - j,
        {
            let ghost old_spans = spans@;
            let wlen = wchars[j].len();
            let mut found = false;
            if wlen > 0 && wlen <= n && i <= n - wlen {
                found = matches_at(&chars, &wchars[j], i);
            }
            proof {
                assert(wchars@[j as int]@ == ws[j as int]);
                assert forall|t: LearnableSpan| produces(text@, ws, j as int, t) && t.start == i implies found && t.end == i + wlen by {
                }
            }
            if found {
                let sp = LearnableSpan { start: i, end: i + wlen };
                let ghost s = sp;
                proof {
                    assert(produces(text@, ws, j as int, s));
                    lemma_first_producer(text@, ws, s, 0);
                }
                if !contains_span(&spans, sp) {
                    proof {
                        assert(first_producer(text@, ws, s, 0) == j) by {
                            if first_producer(text@, ws, s, 0) < j {
                                assert(is_learnable(text@, ws, s));
                            }
                        }
                    }
                    spans.push(sp);
                    proof {
                        assert forall|k: int| before.len() <= k < spans@.len() implies found_at(text@, ws, i as int, j + 1, #[trigger] spans@[k]) by {
                            if k < spans@.len() - 1 {
                                assert(spans@[k] == old_spans[k]);
                                assert(found_at(text@, ws, i as int, j as int, old_spans[k]));
                            } else {
                                assert(spans@[k] == s);
                            }
                        }
                        assert forall|k: int| 0 <= k < before.len() implies spans@[k] == before[k] by {
                            assert(spans@[k] == old_spans[k]);
                        }
                        assert forall|k: int, l: int| 0 <= k < l < spans@.len() implies span_before(text@, ws, #[trigger] spans@[k], #[trigger] spans@[l]) by {
                            if l < spans@.len() - 1 {
                                assert(spans@[k] == old_spans[k] && spans@[l] == old_spans[l]);
                            } else if k < before.len() {
                                assert(spans@[k] == before[k]);
                            } else {
                                assert(spans@[k] == old_spans[k]);
                            }
                        }
                    }
                }
            }
            proof {
                assert forall|t: LearnableSpan| #[trigger] is_learnable(text@, ws, t) && t.start == i && 0 <= first_producer(text@, ws, t, 0) < j + 1 implies spans@.contains(t) by {
                    lemma_first_producer(text@, ws, t, 0);
                    if first_producer(text@, ws, t, 0) == j {
                        assert(produces(text@, ws, j as int, t));
                        assert(found);
                        assert(t == (LearnableSpan { start: i, end: (i + wlen) as usize }));
                        if !old_spans.contains(t) {
                            assert(spans@[spans@.len() - 1] == t);
                        } else {
                            let k = choose|k: int| 0 <= k < old_spans.len() && old_spans[k] == t;
                            assert(spans@[k] == t);
                        }
                    } else {
                        assert(old_spans.contains(t));
                        let k = choose|k: int| 0 <= k < old_spans.len() && old_spans[k] == t;
                        assert(spans@[k] == t);
                    }
                }
            }
            proof {
                assert forall|k: int| before.len() <= k < spans@.len() implies found_at(text@, ws, i as int, j + 1, #[trigger] spans@[k]) by {
                    if k < old_spans.len() {
                        assert(spans@[k] == old_spans[k]);
                        assert(found_at(text@, ws, i as int, j as int, old_spans[k]));
                    }
                }
            }
            j = j + 1;
        }
        proof {
            assert forall|k: int| 0 <= k < spans@.len() implies is_learnable(text@, ws, #[trigger] spans@[k]) && spans@[k].start < i + 1 by {
                if k < before.len() {
                    assert(spans@[k] == before[k]);
                    assert(is_learnable(text@, ws, before[k]) && before[k].start < i);
                } else {
                    assert(found_at(text@, ws, i as int, ws.len() as int, spans@[k]));
                }
            }
            assert forall|t: LearnableSpan| #[trigger] is_learnable(text@, ws, t) && t.start < i + 1 implies spans@.contains(t) by {
                if t.start < i {
                    assert(before.contains(t));
                    let k = choose|k: int| 0 <= k < before.len() && before[k] == t;
                    assert(spans@[k] == t);
                } else {
                    lemma_first_producer(text@, ws, t, 0);
                    let wi = choose|wi: int| produces(text@, ws, wi, t);
                    lemma_first_producer(text@, ws, t, 0);
                    assert(first_producer(text@, ws, t, 0) <= wi) by {
                        if first_producer(text@, ws, t, 0) > wi {
                            assert(!produces(text@, ws, wi, t));
                        }
                    }
                }
            }
        }
        i = i + 1;
    }
    proof {
        assert forall|s: LearnableSpan| #[trigger] is_learnable(text@, ws, s) implies spans@.contains(s) by {
            let wi = choose|wi: int| produces(text@, ws, wi, s);
            assert(s.start < n);
        }
    }
    spans
}

/// Progress of the "remember a word" command.
#[derive(Clone, Copy, Debug, PartialEq, Eq, Structural)]
pub enum DialogueLearnStage {
    Talking,
    ChoosingLearnTarget { cursor: usize },
}

impl Default for DialogueLearnStage {
    fn default() -> (r: Self)
        ensures
            r == DialogueLearnStage::Talking,
    {
        DialogueLearnStage::Talking
    }
}

/// An ongoing conversation.
#[derive(Clone, Debug)]
pub struct DialogueSession {
    pub partner: DialoguePartner,
    pub selected_topic_index: usize,
    pub selected_shop_index: usize,
    pub current_text: String,
    pub learnable_spans: Vec<LearnableSpan>,
    pub learn_stage: DialogueLearnStage,
}

/// The greeting of each partner.
pub open spec fn greeting_text(p: DialoguePartner) -> Seq<char> {
    match p {
        DialoguePartner::Inn => "宿屋の主人「旅の方かい？\n一泊"@ + int_decimal(INN_COST as int) + "フォリン"@
            + "で仲間全員の体力を全快できるよ。[1]で宿泊するかい？」"@,
        DialoguePartner::Shop => "道具屋「へいらっしゃい！何にするかい？\n[W/S]で選んで[1]で購入、[3]で店を出られるぜ」"@,
        DialoguePartner::Tavern => "呑兵衛「ヒック…王都の酒は最高だな！\n何か気になることでもあんのかい？話題を振ってくれな」"@,
        DialoguePartner::Guard => "王都衛兵「止まれ！この先は立ち入り禁止の封鎖迷宮だ！\n何か事件の手がかりでも掴んだのか？」"@,
        DialoguePartner::Villager => "街の女性「こんにちは、旅の冒険者さん。\n王都アルカンについて何かお知りになりたいですか？」"@,
        DialoguePartner::Suspicious => "怪しい男「ヒヒッ…あんた、裏の事情に首を突っ込みたいのかい？\nいい情報を持ってるぜ…」"@,
    }
}

/// The reply of `p` to `topic` and the words of it that can be remembered.
pub open spec fn topic_reply(p: DialoguePartner, topic: Seq<char>) -> (Seq<char>, Seq<Seq<char>>) {
    match p {
        DialoguePartner::Guard => if topic == "王都アルカン"@ {
            ("王都衛兵「王都アルカンは平和な街だ。だが南東の地下迷宮だけは絶対近寄るなよ」"@, seq![])
        } else if topic == "封魔の迷宮"@ {
            ("王都衛兵「かつて大魔王軍を封じた迷宮だ。奥深くには封印の祭壇があると言われている…」"@, seq!["封印の祭壇"@])
        } else if topic == "封印の祭壇"@ {
            ("王都衛兵「祭壇の封印を解くには、古の光のオーブが必要だと古文書に記されているらしい」"@, seq!["光のオーブ"@])
        } else {
            ("王都衛兵「『"@ + topic + "』だと？…すまんが俺の知るところではないな」"@, seq![])
        },
        DialoguePartner::Tavern => if topic == "封魔の迷宮"@ {
            ("呑兵衛「ヒック…夜になると地下から『魔物の咆哮』が聞こえてくるんだよ…不気味だぜ」"@, seq!["魔物の咆哮"@])
        } else if topic == "封印の祭壇"@ {
            ("呑兵衛「祭壇か！そういや爺さんが光のオーブを古物商に売っちまったとか言ってたな…」"@, seq!["光のオーブ"@])
        } else if topic == "光のオーブ"@ {
            ("呑兵衛「オーブなら、裏路地にいる怪しい男がヤバいルートを握ってるらしいぜ…」"@, seq!["裏の抜け道"@])
        } else {
            ("呑兵衛「『"@ + topic + "』かぁ？知らねえな！酒がうめえ！」"@, seq![])
        },
        DialoguePartner::Suspicious => if topic == "光のオーブ"@ {
            ("怪しい男「ヒヒッ…オーブの話かい？地下迷宮の宝箱に隠された銀の鍵があれば手に入るぜ…」"@, seq!["地下迷宮"@, "銀の鍵"@])
        } else if topic == "銀の鍵"@ {
            ("怪しい男「迷宮の北の宝物庫だ。鉄格子の奥の宝箱に入ってるはずだぜ…ヒヒッ」"@, seq![])
        } else if topic == "裏の抜け道"@ {
            ("怪しい男「裏壁の崩れかけのレンガを押せば、見張りを通らずに裏口へ行けるのさ」"@, seq![])
        } else {
            ("怪しい男「ヒヒッ…『"@ + topic + "』かい？あっしには関係ねえ話だな」"@, seq![])
        },
        DialoguePartner::Villager => if topic == "王都アルカン"@ {
            ("街の女性「中央の噴水広場は憩いの場なんです。夜は少し冷えますから気をつけて」"@, seq![])
        } else if topic == "封魔の迷宮"@ {
            ("街の女性「きゃあっ！そんな恐ろしい迷宮、お願いですから近づかないでください！」"@, seq![])
        } else {
            ("街の女性「『"@ + topic + "』ですか？私にはよくわかりませんね…」"@, seq![])
        },
        _ => ("「『"@ + topic + "』についてですね。よく覚えておきましょう」"@, seq![]),
    }
}

pub open spec fn inn_rest_text(paid: bool) -> Seq<char> {
    if paid {
        "宿屋の主人「まいど！ぐっすり休んでいきなよ」\n宿をとった。朝の光が差し込み、仲間全員のHPとMPが全快した！"@
    } else {
        "宿屋の主人「おや、"@ + "フォリン"@ + "が足りないようだね。一泊"@ + int_decimal(INN_COST as int) + "フォリン"@ + "だよ」"@
    }
}

pub open spec fn shop_text(paid: bool, item: Seq<char>, price: int, gold: int) -> Seq<char> {
    if paid {
        "道具屋「まいど！【"@ + item + "】をお買い上げだ。\n大切に使いなよ！」(所持金: "@ + int_decimal(gold) + "G"@ + ")"@
    } else {
        "道具屋「おいおい、"@ + "フォリン"@ + "が足りねえぜ！【"@ + item + "】は "@ + int_decimal(price) + "G"@
            + " だ」(所持金: "@ + int_decimal(gold) + "G"@ + ")"@
    }
}

fn reply_with_topic(prefix: &str, topic: &str, suffix: &str) -> (r: String)
    ensures
        r@ == prefix@ + topic@ + suffix@,
{
    let mut s = string_of(prefix);
    s.append(topic);
    s.append(suffix);
    s
}

impl DialogueSession {
    /// A conversation with `partner`, opened by the partner's greeting.
    pub fn start(partner: DialoguePartner) -> (r: Self)
        ensures
            r.partner == partner,
            r.selected_topic_index == 0,
            r.selected_shop_index == 0,
            r.current_text@ == greeting_text(partner),
            r.learnable_spans@.len() == 0,
            r.learn_stage == DialogueLearnStage::Talking,
    {
        let text = match partner {
            DialoguePartner::Inn => {
                let mut s = string_of("宿屋の主人「旅の方かい？\n一泊");
                append_int(&mut s, INN_COST as i64);
                s.append(CURRENCY_NAME);
                s.append("で仲間全員の体力を全快できるよ。[1]で宿泊するかい？」");
                proof { reveal_strlit("フォリン"); }
                assert(CURRENCY_NAME@ == "フォリン"@);
                s
            },
            DialoguePartner::Shop => string_of("道具屋「へいらっしゃい！何にするかい？\n[W/S]で選んで[1]で購入、[3]で店を出られるぜ」"),
            DialoguePartner::Tavern => string_of("呑兵衛「ヒック…王都の酒は最高だな！\n何か気になることでもあんのかい？話題を振ってくれな」"),
            DialoguePartner::Guard => string_of("王都衛兵「止まれ！この先は立ち入り禁止の封鎖迷宮だ！\n何か事件の手がかりでも掴んだのか？」"),
            DialoguePartner::Villager => string_of("街の女性「こんにちは、旅の冒険者さん。\n王都アルカンについて何かお知りになりたいですか？」"),
            DialoguePartner::Suspicious => string_of("怪しい男「ヒヒッ…あんた、裏の事情に首を突っ込みたいのかい？\nいい情報を持ってるぜ…」"),
        };
        Self {
            partner,
            selected_topic_index: 0,
            selected_shop_index: 0,
            current_text: text,
            learnable_spans: Vec::new(),
            learn_stage: DialogueLearnStage::Talking,
        }
    }

    fn set_plain_reply(&mut self, text: String)
        ensures
            final(self).current_text@ == text@,
            final(self).learnable_spans@.len() == 0,
            spans_spec(text@, seq![], final(self).learnable_spans@),
            final(self).partner == old(self).partner,
            final(self).selected_topic_index == old(self).selected_topic_index,
            final(self).selected_shop_index == old(self).selected_shop_index,
            final(self).learn_stage == old(self).learn_stage,
    {
        self.current_text = text;
        self.learnable_spans = Vec::new();
    }

    fn set_reply(&mut self, text: String, words: &[&str])
        ensures
            final(self).current_text@ == text@,
            spans_spec(text@, words@.map_values(|w: &str| w@), final(self).learnable_spans@),
            final(self).partner == old(self).partner,
            final(self).selected_topic_index == old(self).selected_topic_index,
            final(self).selected_shop_index == old(self).selected_shop_index,
            final(self).learn_stage == old(self).learn_stage,
    {
        let spans = spans_for(text.as_str(), words);
        self.current_text = text;
        self.learnable_spans = spans;
    }

    /// Asks the partner about `topic`: the reply replaces the text, the
    /// learnable words of the reply are marked, and any pending choice of a
    /// word to remember is cancelled.
    pub fn ask_topic(&mut self, topic: &str)
        ensures
            final(self).current_text@ == topic_reply(old(self).partner, topic@).0,
            spans_spec(
                final(self).current_text@,
                topic_reply(old(self).partner, topic@).1,
                final(self).learnable_spans@,
            ),
            final(self).learn_stage == DialogueLearnStage::Talking,
            final(self).partner == old(self).partner,
            final(self).selected_topic_index == old(self).selected_topic_index,
            final(self).selected_shop_index == old(self).selected_shop_index,
    {
        self.learn_stage = DialogueLearnStage::Talking;
        match self.partner {
            DialoguePartner::Guard => {
                if str_eq(topic, "王都アルカン") {
                    self.set_plain_reply(string_of("王都衛兵「王都アルカンは平和な街だ。だが南東の地下迷宮だけは絶対近寄るなよ」"));
                } else if str_eq(topic, "封魔の迷宮") {
                    let words: [&str; 1] = ["封印の祭壇"];
                    self.set_reply(string_of("王都衛兵「かつて大魔王軍を封じた迷宮だ。奥深くには封印の祭壇があると言われている…」"), &words);
                    assert(seq!["封印の祭壇"@] =~= words@.map_values(|w: &str| w@));
                } else if str_eq(topic, "封印の祭壇") {
                    let words: [&str; 1] = ["光のオーブ"];
                    self.set_reply(string_of("王都衛兵「祭壇の封印を解くには、古の光のオーブが必要だと古文書に記されているらしい」"), &words);
                    assert(seq!["光のオーブ"@] =~= words@.map_values(|w: &str| w@));
                } else {
                    self.set_plain_reply(reply_with_topic("王都衛兵「『", topic, "』だと？…すまんが俺の知るところではないな」"));
                }
            },
            DialoguePartner::Tavern => {
                if str_eq(topic, "封魔の迷宮") {
                    let words: [&str; 1] = ["魔物の咆哮"];
                    self.set_reply(string_of("呑兵衛「ヒック…夜になると地下から『魔物の咆哮』が聞こえてくるんだよ…不気味だぜ」"), &words);
                    assert(seq!["魔物の咆哮"@] =~= words@.map_values(|w: &str| w@));
                } else if str_eq(topic, "封印の祭壇") {
                    let words: [&str; 1] = ["光のオーブ"];
                    self.set_reply(string_of("呑兵衛「祭壇か！そういや爺さんが光のオーブを古物商に売っちまったとか言ってたな…」"), &words);
                    assert(seq!["光のオーブ"@] =~= words@.map_values(|w: &str| w@));
                } else if str_eq(topic, "光のオーブ") {
                    let words: [&str; 1] = ["裏の抜け道"];
                    self.set_reply(string_of("呑兵衛「オーブなら、裏路地にいる怪しい男がヤバいルートを握ってるらしいぜ…」"), &words);
                    assert(seq!["裏の抜け道"@] =~= words@.map_values(|w: &str| w@));
                } else {
                    self.set_plain_reply(reply_with_topic("呑兵衛「『", topic, "』かぁ？知らねえな！酒がうめえ！」"));
                }
            },
            DialoguePartner::Suspicious => {
                if str_eq(topic, "光のオーブ") {
                    let words: [&str; 2] = ["地下迷宮", "銀の鍵"];
                    self.set_reply(string_of("怪しい男「ヒヒッ…オーブの話かい？地下迷宮の宝箱に隠された銀の鍵があれば手に入るぜ…」"), &words);
                    assert(seq!["地下迷宮"@, "銀の鍵"@] =~= words@.map_values(|w: &str| w@));
                } else if str_eq(topic, "銀の鍵") {
                    self.set_plain_reply(string_of("怪しい男「迷宮の北の宝物庫だ。鉄格子の奥の宝箱に入ってるはずだぜ…ヒヒッ」"));
                } else if str_eq(topic, "裏の抜け道") {
                    self.set_plain_reply(string_of("怪しい男「裏壁の崩れかけのレンガを押せば、見張りを通らずに裏口へ行けるのさ」"));
                } else {
                    self.set_plain_reply(reply_with_topic("怪しい男「ヒヒッ…『", topic, "』かい？あっしには関係ねえ話だな」"));
                }
            },
            DialoguePartner::Villager => {
                if str_eq(topic, "王都アルカン") {
                    self.set_plain_reply(string_of("街の女性「中央の噴水広場は憩いの場なんです。夜は少し冷えますから気をつけて」"));
                } else if str_eq(topic, "封魔の迷宮") {
                    self.set_plain_reply(string_of("街の女性「きゃあっ！そんな恐ろしい迷宮、お願いですから近づかないでください！」"));
                } else {
                    self.set_plain_reply(reply_with_topic("街の女性「『", topic, "』ですか？私にはよくわかりませんね…」"));
                }
            },
            _ => {
                self.set_plain_reply(reply_with_topic("「『", topic, "』についてですね。よく覚えておきましょう」"));
            },
        }
    }

    /// Stays the night: when the purse holds the inn's price, it is paid and
    /// every member's HP and MP are restored to their maxima; otherwise
    /// nothing changes but the innkeeper's line. Returns whether it was paid.
    pub fn rest_at_inn(&mut self, inv: &mut PlayerInventory, members: &mut Vec<PartyMember>) -> (r: bool)
        requires
            old(inv).gold >= INN_COST ==> old(inv).gold - INN_COST <= i32::MAX,
        ensures
            r == (old(inv).gold >= INN_COST),
            final(inv).gold == if r { old(inv).gold - INN_COST } else { old(inv).gold as int },
            final(inv).items@ == old(inv).items@,
            final(inv).topics@ == old(inv).topics@,
            final(self).current_text@ == inn_rest_text(r),
            final(self).partner == old(self).partner,
            final(self).selected_topic_index == old(self).selected_topic_index,
            final(self).selected_shop_index == old(self).selected_shop_index,
            final(self).learnable_spans@ == old(self).learnable_spans@,
            final(self).learn_stage == old(self).learn_stage,
            final(members)@.len() == old(members)@.len(),
            forall|i: int| 0 <= i < old(members)@.len() ==> {
                let m = #[trigger] final(members)@[i];
                let o = old(members)@[i];
                &&& m.name == o.name && m.job == o.job && m.influence == o.influence
                &&& m.mental_state == o.mental_state && m.personality == o.personality
                &&& m.is_player == o.is_player
                &&& m.max_hp == o.max_hp && m.max_mp == o.max_mp
                &&& m.hp == if r { o.max_hp } else { o.hp }
                &&& m.mp == if r { o.max_mp } else { o.mp }
            },
    {
        if inv.spend_gold(INN_COST) {
            let mut i: usize = 0;
            while i < members.len()
                invariant
                    i <= members@.len(),
                    members@.len() == old(members)@.len(),
                    forall|k: int| 0 <= k < old(members)@.len() ==> {
                        let m = #[trigger] members@[k];
                        let o = old(members)@[k];
                        &&& m.name == o.name && m.job == o.job && m.influence == o.influence
                        &&& m.mental_state == o.mental_state && m.personality == o.personality
                        &&& m.is_player == o.is_player
                        &&& m.max_hp == o.max_hp && m.max_mp == o.max_mp
                        &&& m.hp == if k < i { o.max_hp } else { o.hp }
                        &&& m.mp == if k < i { o.max_mp } else { o.mp }
                    },
                decreases members@.len() - i,
            {
                let max_hp = members[i].max_hp;
                let max_mp = members[i].max_mp;
                members[i].hp = max_hp;
                members[i].mp = max_mp;
                i = i + 1;
            }
            self.current_text = string_of("宿屋の主人「まいど！ぐっすり休んでいきなよ」\n宿をとった。朝の光が差し込み、仲間全員のHPとMPが全快した！");
            true
        } else {
            let mut s = string_of("宿屋の主人「おや、");
            s.append(CURRENCY_NAME);
            s.append("が足りないようだね。一泊");
            append_int(&mut s, INN_COST as i64);
            s.append(CURRENCY_NAME);
            s.append("だよ」");
            proof { reveal_strlit("フォリン"); }
            assert(CURRENCY_NAME@ == "フォリン"@);
            self.current_text = s;
            false
        }
    }

    /// Buys the selected article: when the purse holds its price, it is paid
    /// and the article is added to the items. Returns whether it was bought.
    pub fn buy_item(&mut self, inv: &mut PlayerInventory) -> (r: bool)
        requires
            old(self).selected_shop_index < SHOP_ITEM_COUNT,
        ensures
            ({
                let (name, price) = spec_shop_item(old(self).selected_shop_index as int);
                &&& r == (old(inv).gold >= price)
                &&& final(inv).gold == if r { old(inv).gold - price } else { old(inv).gold as int }
                &&& strings_view(final(inv).items@) == if r {
                    strings_view(old(inv).items@).push(name)
                } else {
                    strings_view(old(inv).items@)
                }
                &&& final(inv).topics@ == old(inv).topics@
                &&& final(self).current_text@ == shop_text(r, name, price, final(inv).gold as int)
            }),
            final(self).partner == old(self).partner,
            final(self).selected_topic_index == old(self).selected_topic_index,
            final(self).selected_shop_index == old(self).selected_shop_index,
            final(self).learnable_spans@ == old(self).learnable_spans@,
            final(self).learn_stage == old(self).learn_stage,
    {
        let item = shop_item(self.selected_shop_index);
        proof { reveal_strlit("フォリン"); reveal_strlit("G"); }
        assert(CURRENCY_NAME@ == "フォリン"@);
        assert(CURRENCY_UNIT@ == "G"@);
        if inv.gold >= item.price {
            let ok = inv.spend_gold(item.price);
            inv.add_item(item.name);
            let mut s = string_of("道具屋「まいど！【");
            s.append(item.name);
            s.append("】をお買い上げだ。\n大切に使いなよ！」(所持金: ");
            append_int(&mut s, inv.gold as i64);
            s.append(CURRENCY_UNIT);
            s.append(")");
            self.current_text = s;
            ok
        } else {
            let mut s = string_of("道具屋「おいおい、");
            s.append(CURRENCY_NAME);
            s.append("が足りねえぜ！【");
            s.append(item.name);
            s.append("】は ");
            append_int(&mut s, item.price as i64);
            s.append(CURRENCY_UNIT);
            s.append(" だ」(所持金: ");
            append_int(&mut s, inv.gold as i64);
            s.append(CURRENCY_UNIT);
            s.append(")");
            self.current_text = s;
            false
        }
    }
}

/// The shop's explanation of the `i`-th article.
pub open spec fn spec_shop_description(i: int) -> Seq<char> {
    if i == 0 {
        "傷を癒やす薬草。HPを約30回復。"@
    } else if i == 1 {
        "上質な薬草。HPを約70回復。"@
    } else if i == 2 {
        "迷宮を照らす松明の油。視界確保用。"@
    } else {
        "体内の毒素を中和する薬草。"@
    }
}

} // verus!
