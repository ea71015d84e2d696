//! Character creation: where the protagonist comes from (origin) and why
//! they set out (motive).

use super::diagnosis::PlayerSkills;
use super::influence::{Influence, MentalState, PartyMember, Personality};
use super::inventory::{strings_view, PlayerInventory};
use super::ReserveRoster;
use crate::text::{contains_seq, int_decimal, lemma_small_decimal, string_of};
use vstd::prelude::*;
use vstd::string::*;

verus! {

/// The protagonist's social background.
#[derive(Debug, Clone, Copy, PartialEq, Eq, Hash, Structural)]
pub enum OriginKind {
    /// A rich merchant's son: plenty of money and goods, no fighting skill.
    MerchantSon,
    /// A veteran mercenary: high HP and a keen eye, little money.
    FormerMercenary,
    /// A former temple acolyte: magic knowledge, keen eye, plenty of MP.
    FormerAcolyte,
    /// A farmer's third son: nothing but a sturdy body.
    FarmerThirdSon,
}

impl Default for OriginKind {
    fn default() -> (r: Self)
        ensures
            r == OriginKind::FarmerThirdSon,
    {
        OriginKind::FarmerThirdSon
    }
}

impl OriginKind {
    pub const ALL: [OriginKind; 4] = [
        OriginKind::MerchantSon,
        OriginKind::FormerMercenary,
        OriginKind::FormerAcolyte,
        OriginKind::FarmerThirdSon,
    ];

    pub open spec fn spec_title(self) -> Seq<char> {
        match self {
            OriginKind::MerchantSon => "商人の息子"@,
            OriginKind::FormerMercenary => "傭兵崩れ"@,
            OriginKind::FormerAcolyte => "元神官見習い"@,
            OriginKind::FarmerThirdSon => "農家の三男坊"@,
        }
    }

    pub fn title(&self) -> (r: &'static str)
        ensures
            r@ == self.spec_title(),
    {
        match self {
            OriginKind::MerchantSon => "商人の息子",
            OriginKind::FormerMercenary => "傭兵崩れ",
            OriginKind::FormerAcolyte => "元神官見習い",
            OriginKind::FarmerThirdSon => "農家の三男坊",
        }
    }

    pub open spec fn spec_category(self) -> Seq<char> {
        match self {
            OriginKind::MerchantSon => "経済系"@,
            OriginKind::FormerMercenary => "武力系"@,
            OriginKind::FormerAcolyte => "知識系"@,
            OriginKind::FarmerThirdSon => "没落／底辺系"@,
        }
    }

    pub fn category(&self) -> (r: &'static str)
        ensures
            r@ == self.spec_category(),
    {
        match self {
            OriginKind::MerchantSon => "経済系",
            OriginKind::FormerMercenary => "武力系",
            OriginKind::FormerAcolyte => "知識系",
            OriginKind::FarmerThirdSon => "没落／底辺系",
        }
    }

    pub open spec fn spec_description(self) -> Seq<char> {
        match self {
            OriginKind::MerchantSon => "豪商の家に生まれ、計算と交渉に長けた青年。\n路銀と備蓄は潤沢だが、腕っぷしは素人並み。"@,
            OriginKind::FormerMercenary => "戦場を渡り歩いてきた歴戦の傭兵。\nタフな肉体と観察眼を持つが、財布は常に寂しい。"@,
            OriginKind::FormerAcolyte => "神殿で祈りと学問に捧げた元修道士。\n魔術や超常現象の知識に明るく、豊富なMPを持つ。"@,
            OriginKind::FarmerThirdSon => "家督を継げず村を出たパンピー（非英雄）。\n頑丈で粘り強いが、特別な知識も金もない。"@,
        }
    }

    pub fn description(&self) -> (r: &'static str)
        ensures
            r@ == self.spec_description(),
    {
        match self {
            OriginKind::MerchantSon => "豪商の家に生まれ、計算と交渉に長けた青年。\n路銀と備蓄は潤沢だが、腕っぷしは素人並み。",
            OriginKind::FormerMercenary => "戦場を渡り歩いてきた歴戦の傭兵。\nタフな肉体と観察眼を持つが、財布は常に寂しい。",
            OriginKind::FormerAcolyte => "神殿で祈りと学問に捧げた元修道士。\n魔術や超常現象の知識に明るく、豊富なMPを持つ。",
            OriginKind::FarmerThirdSon => "家督を継げず村を出たパンピー（非英雄）。\n頑丈で粘り強いが、特別な知識も金もない。",
        }
    }

    pub open spec fn spec_bonus_summary(self) -> Seq<char> {
        match self {
            OriginKind::MerchantSon => "初期資金: 350G / HP: 20 / MP: 5 / 特やくそう・松明多数"@,
            OriginKind::FormerMercenary => "初期資金: 80G / HP: 32 / MP: 0 / やくそう・松明"@,
            OriginKind::FormerAcolyte => "初期資金: 120G / HP: 18 / MP: 20 / 魔術知識・目星高 / どくけし草"@,
            OriginKind::FarmerThirdSon => "初期資金: 40G / HP: 24 / MP: 0 / 頑丈なパンピースタート"@,
        }
    }

    pub fn bonus_summary(&self) -> (r: &'static str)
        ensures
            r@ == self.spec_bonus_summary(),
    {
        match self {
            OriginKind::MerchantSon => "初期資金: 350G / HP: 20 / MP: 5 / 特やくそう・松明多数",
            OriginKind::FormerMercenary => "初期資金: 80G / HP: 32 / MP: 0 / やくそう・松明",
            OriginKind::FormerAcolyte => "初期資金: 120G / HP: 18 / MP: 20 / 魔術知識・目星高 / どくけし草",
            OriginKind::FarmerThirdSon => "初期資金: 40G / HP: 24 / MP: 0 / 頑丈なパンピースタート",
        }
    }

    pub open spec fn spec_base_stats(self) -> (int, int) {
        match self {
            OriginKind::MerchantSon => (20, 5),
            OriginKind::FormerMercenary => (32, 0),
            OriginKind::FormerAcolyte => (18, 20),
            OriginKind::FarmerThirdSon => (24, 0),
        }
    }

    /// Starting HP and MP.
    pub fn base_stats(&self) -> (r: (i32, i32))
        ensures
            r.0 == self.spec_base_stats().0,
            r.1 == self.spec_base_stats().1,
    {
        match self {
            OriginKind::MerchantSon => (20, 5),
            OriginKind::FormerMercenary => (32, 0),
            OriginKind::FormerAcolyte => (18, 20),
            OriginKind::FarmerThirdSon => (24, 0),
        }
    }

    pub open spec fn spec_base_skills(self) -> (int, int) {
        match self {
            OriginKind::MerchantSon => (20, 40),
            OriginKind::FormerMercenary => (10, 50),
            OriginKind::FormerAcolyte => (65, 60),
            OriginKind::FarmerThirdSon => (15, 30),
        }
    }

    /// Starting skills (magic knowledge, keen eye).
    pub fn base_skills(&self) -> (r: PlayerSkills)
        ensures
            r.magic_knowledge == self.spec_base_skills().0,
            r.keen_eye == self.spec_base_skills().1,
    {
        match self {
            OriginKind::MerchantSon => PlayerSkills { magic_knowledge: 20, keen_eye: 40 },
            OriginKind::FormerMercenary => PlayerSkills { magic_knowledge: 10, keen_eye: 50 },
            OriginKind::FormerAcolyte => PlayerSkills { magic_knowledge: 65, keen_eye: 60 },
            OriginKind::FarmerThirdSon => PlayerSkills { magic_knowledge: 15, keen_eye: 30 },
        }
    }

    pub open spec fn spec_base_gold(self) -> int {
        match self {
            OriginKind::MerchantSon => 350,
            OriginKind::FormerMercenary => 80,
            OriginKind::FormerAcolyte => 120,
            OriginKind::FarmerThirdSon => 40,
        }
    }

    /// Starting money.
    pub fn base_gold(&self) -> (r: i32)
        ensures
            r == self.spec_base_gold(),
    {
        match self {
            OriginKind::MerchantSon => 350,
            OriginKind::FormerMercenary => 80,
            OriginKind::FormerAcolyte => 120,
            OriginKind::FarmerThirdSon => 40,
        }
    }

    pub open spec fn spec_base_items(self) -> Seq<Seq<char>> {
        match self {
            OriginKind::MerchantSon => seq!["やくそう"@, "やくそう"@, "やくそう"@, "特やくそう"@, "松明"@, "松明"@],
            OriginKind::FormerMercenary => seq!["やくそう"@, "やくそう"@, "松明"@],
            OriginKind::FormerAcolyte => seq!["やくそう"@, "どくけし草"@, "どくけし草"@, "松明"@],
            OriginKind::FarmerThirdSon => seq!["やくそう"@, "やくそう"@, "松明"@],
        }
    }

    /// Starting items.
    pub fn base_items(&self) -> (r: Vec<String>)
        ensures
            strings_view(r@) == self.spec_base_items(),
    {
        let mut v: Vec<String> = Vec::new();
        match self {
            OriginKind::MerchantSon => {
                v.push(string_of("やくそう"));
                v.push(string_of("やくそう"));
                v.push(string_of("やくそう"));
                v.push(string_of("特やくそう"));
                v.push(string_of("松明"));
                v.push(string_of("松明"));
            },
            OriginKind::FormerMercenary => {
                v.push(string_of("やくそう"));
                v.push(string_of("やくそう"));
                v.push(string_of("松明"));
            },
            OriginKind::FormerAcolyte => {
                v.push(string_of("やくそう"));
                v.push(string_of("どくけし草"));
                v.push(string_of("どくけし草"));
                v.push(string_of("松明"));
            },
            OriginKind::FarmerThirdSon => {
                v.push(string_of("やくそう"));
                v.push(string_of("やくそう"));
                v.push(string_of("松明"));
            },
        }
        assert(strings_view(v@) =~= self.spec_base_items());
        v
    }
}

/// Why the protagonist set out.
#[derive(Debug, Clone, Copy, PartialEq, Eq, Hash, Structural)]
pub enum MotiveKind {
    /// Dreams of lands and glory: the standard start.
    AspiringAdventurer,
    /// Eloped with a lover: starts as a pair.
    Eloper,
    /// Looks for someone who vanished.
    Seeker,
    /// Seeks revenge for a past tragedy.
    Avenger,
    /// Flees pursuers.
    Fugitive,
}

impl Default for MotiveKind {
    fn default() -> (r: Self)
        ensures
            r == MotiveKind::AspiringAdventurer,
    {
        MotiveKind::AspiringAdventurer
    }
}

impl MotiveKind {
    pub const ALL: [MotiveKind; 5] = [
        MotiveKind::AspiringAdventurer,
        MotiveKind::Eloper,
        MotiveKind::Seeker,
        MotiveKind::Avenger,
        MotiveKind::Fugitive,
    ];

    pub open spec fn spec_title(self) -> Seq<char> {
        match self {
            MotiveKind::AspiringAdventurer => "冒険者志望"@,
            MotiveKind::Eloper => "駆け落ち者"@,
            MotiveKind::Seeker => "探し人"@,
            MotiveKind::Avenger => "復讐者"@,
            MotiveKind::Fugitive => "お尋ね者"@,
        }
    }

    pub fn title(&self) -> (r: &'static str)
        ensures
            r@ == self.spec_title(),
    {
        match self {
            MotiveKind::AspiringAdventurer => "冒険者志望",
            MotiveKind::Eloper => "駆け落ち者",
            MotiveKind::Seeker => "探し人",
            MotiveKind::Avenger => "復讐者",
            MotiveKind::Fugitive => "お尋ね者",
        }
    }

    pub open spec fn spec_description(self) -> Seq<char> {
        match self {
            MotiveKind::AspiringAdventurer => "見果てぬ大地と栄誉を夢見て旅立った若者。\n誰からも警戒されず、自由に行動できる。"@,
            MotiveKind::Eloper => "身分違いの恋人と手に手を取って故郷を出奔した。\n最初から信頼度の高い相棒（2人旅）で始まる。"@,
            MotiveKind::Seeker => "忽然と姿を消した大切な誰かを探して旅を続ける。\n街の住人への聞き込みで手がかりを手繰り寄せる。"@,
            MotiveKind::Avenger => "過去の悲劇に報いを受けさせるため刃を研ぎ続ける。\n復讐の執念により生命力が底上げされている。"@,
            MotiveKind::Fugitive => "とある事件で追われる身となり、逃げ延びてきた。\n隠し金を持つが、衛兵や役人の視線に晒される。"@,
        }
    }

    pub fn description(&self) -> (r: &'static str)
        ensures
            r@ == self.spec_description(),
    {
        match self {
            MotiveKind::AspiringAdventurer => "見果てぬ大地と栄誉を夢見て旅立った若者。\n誰からも警戒されず、自由に行動できる。",
            MotiveKind::Eloper => "身分違いの恋人と手に手を取って故郷を出奔した。\n最初から信頼度の高い相棒（2人旅）で始まる。",
            MotiveKind::Seeker => "忽然と姿を消した大切な誰かを探して旅を続ける。\n街の住人への聞き込みで手がかりを手繰り寄せる。",
            MotiveKind::Avenger => "過去の悲劇に報いを受けさせるため刃を研ぎ続ける。\n復讐の執念により生命力が底上げされている。",
            MotiveKind::Fugitive => "とある事件で追われる身となり、逃げ延びてきた。\n隠し金を持つが、衛兵や役人の視線に晒される。",
        }
    }

    pub open spec fn spec_bonus_summary(self) -> Seq<char> {
        match self {
            MotiveKind::AspiringAdventurer => "同行者: なし（単独） / 標準的な旅立ち"@,
            MotiveKind::Eloper => "同行者: 相棒1名（初期影響度88） / 話題「駆け落ちの道行」"@,
            MotiveKind::Seeker => "同行者: なし / 固定話題「人を探している」を獲得"@,
            MotiveKind::Avenger => "同行者: なし / HP+4 ボーナス / 固定話題「復讐の誓い」"@,
            MotiveKind::Fugitive => "同行者: なし / 逃亡資金+100G / 固定話題「追手からの逃亡」"@,
        }
    }

    pub fn bonus_summary(&self) -> (r: &'static str)
        ensures
            r@ == self.spec_bonus_summary(),
    {
        match self {
            MotiveKind::AspiringAdventurer => "同行者: なし（単独） / 標準的な旅立ち",
            MotiveKind::Eloper => "同行者: 相棒1名（初期影響度88） / 話題「駆け落ちの道行」",
            MotiveKind::Seeker => "同行者: なし / 固定話題「人を探している」を獲得",
            MotiveKind::Avenger => "同行者: なし / HP+4 ボーナス / 固定話題「復讐の誓い」",
            MotiveKind::Fugitive => "同行者: なし / 逃亡資金+100G / 固定話題「追手からの逃亡」",
        }
    }

    pub open spec fn spec_fixed_topic(self) -> Option<Seq<char>> {
        match self {
            MotiveKind::AspiringAdventurer => None,
            MotiveKind::Eloper => Some("駆け落ちの道行"@),
            MotiveKind::Seeker => Some("人を探している"@),
            MotiveKind::Avenger => Some("復讐の誓い"@),
            MotiveKind::Fugitive => Some("追手からの逃亡"@),
        }
    }

    /// The topic the motive adds to the notebook, if any.
    pub fn fixed_topic(&self) -> (r: Option<&'static str>)
        ensures
            r is Some == self.spec_fixed_topic() is Some,
            r matches Some(t) ==> t@ == self.spec_fixed_topic()->0,
    {
        match self {
            MotiveKind::AspiringAdventurer => None,
            MotiveKind::Eloper => Some("駆け落ちの道行"),
            MotiveKind::Seeker => Some("人を探している"),
            MotiveKind::Avenger => Some("復讐の誓い"),
            MotiveKind::Fugitive => Some("追手からの逃亡"),
        }
    }
}

/// Name of the `i`-th default partner candidate.
pub open spec fn candidate_name(i: int) -> Seq<char> {
    if i == 0 { "エレナ"@ } else if i == 1 { "クラリス"@ } else { "コレット"@ }
}

/// Job of the `i`-th default partner candidate.
pub open spec fn candidate_job(i: int) -> Seq<char> {
    if i == 0 { "村娘"@ } else if i == 1 { "元修道女"@ } else { "町娘"@ }
}

/// Personality of the `i`-th default partner candidate.
pub open spec fn candidate_personality(i: int) -> Personality {
    if i == 1 { Personality::Yandere } else { Personality::Loyal }
}

/// HP of the `i`-th default partner candidate.
pub open spec fn candidate_hp(i: int) -> int {
    if i == 0 { 20 } else if i == 1 { 18 } else { 22 }
}

/// MP of the `i`-th default partner candidate.
pub open spec fn candidate_mp(i: int) -> int {
    if i == 0 { 10 } else if i == 1 { 16 } else { 8 }
}

/// Backstory of the `i`-th default partner candidate.
pub open spec fn candidate_backstory(i: int) -> Seq<char> {
    if i == 0 {
        "共に育った幼馴染。身分違いの恋のため、家を捨ててあなたと共に旅立った心優しい少女。"@
    } else if i == 1 {
        "没落貴族の令嬢。修道院に入れられそうになったところをあなたと駆け落ちした。あなたに強い執着を持つ。"@
    } else {
        "豪商の末娘。親が決めた政略結婚から逃れ、自由と愛を信じてあなたの手を取った気丈な女性。"@
    }
}

/// A candidate partner for an eloping protagonist.
#[derive(Debug, Clone, PartialEq, Eq)]
pub struct EloperPartnerCandidate {
    pub name: String,
    pub job: String,
    pub personality: Personality,
    pub hp: i32,
    pub mp: i32,
    pub backstory: String,
}

impl EloperPartnerCandidate {
    /// A copy of this candidate.
    pub fn duplicate(&self) -> (r: Self)
        ensures
            r.name@ == self.name@,
            r.job@ == self.job@,
            r.personality == self.personality,
            r.hp == self.hp,
            r.mp == self.mp,
            r.backstory@ == self.backstory@,
    {
        Self {
            name: self.name.clone(),
            job: self.job.clone(),
            personality: self.personality,
            hp: self.hp,
            mp: self.mp,
            backstory: self.backstory.clone(),
        }
    }

    /// Whether this is the `i`-th default candidate, field by field.
    pub open spec fn is_default_candidate(self, i: int) -> bool {
        &&& self.name@ == candidate_name(i)
        &&& self.job@ == candidate_job(i)
        &&& self.personality == candidate_personality(i)
        &&& self.hp == candidate_hp(i)
        &&& self.mp == candidate_mp(i)
        &&& self.backstory@ == candidate_backstory(i)
    }

    /// The three candidates offered at character creation: Elena, Clarisse and Colette.
    pub fn default_candidates() -> (r: Vec<Self>)
        ensures
            r@.len() == 3,
            forall|i: int| 0 <= i < 3 ==> #[trigger] r@[i].is_default_candidate(i),
            r@[0].name@ == "エレナ"@ && r@[0].job@ == "村娘"@,
            r@[0].personality == Personality::Loyal && r@[0].hp == 20 && r@[0].mp == 10,
            r@[1].name@ == "クラリス"@ && r@[1].job@ == "元修道女"@,
            r@[1].personality == Personality::Yandere && r@[1].hp == 18 && r@[1].mp == 16,
            r@[2].name@ == "コレット"@ && r@[2].job@ == "町娘"@,
            r@[2].personality == Personality::Loyal && r@[2].hp == 22 && r@[2].mp == 8,
    {
        let mut v = Vec::new();
        v.push(Self {
            name: string_of("エレナ"),
            job: string_of("村娘"),
            personality: Personality::Loyal,
            hp: 20,
            mp: 10,
            backstory: string_of("共に育った幼馴染。身分違いの恋のため、家を捨ててあなたと共に旅立った心優しい少女。"),
        });
        v.push(Self {
            name: string_of("クラリス"),
            job: string_of("元修道女"),
            personality: Personality::Yandere,
            hp: 18,
            mp: 16,
            backstory: string_of("没落貴族の令嬢。修道院に入れられそうになったところをあなたと駆け落ちした。あなたに強い執着を持つ。"),
        });
        v.push(Self {
            name: string_of("コレット"),
            job: string_of("町娘"),
            personality: Personality::Loyal,
            hp: 22,
            mp: 8,
            backstory: string_of("豪商の末娘。親が決めた政略結婚から逃れ、自由と愛を信じてあなたの手を取った気丈な女性。"),
        });
        v
    }
}

/// The choices made at character creation.
#[derive(Debug, Clone, PartialEq, Eq)]
pub struct CharacterBuild {
    pub origin: OriginKind,
    pub motive: MotiveKind,
    pub partner: Option<EloperPartnerCandidate>,
}

impl Default for CharacterBuild {
    fn default() -> (r: Self)
        ensures
            r.origin == OriginKind::FarmerThirdSon,
            r.motive == MotiveKind::AspiringAdventurer,
            r.partner is None,
    {
        Self { origin: OriginKind::FarmerThirdSon, motive: MotiveKind::AspiringAdventurer, partner: None }
    }
}

/// Starting HP: the origin's plus 4 for an avenger.
pub open spec fn spec_player_hp(origin: OriginKind, motive: MotiveKind) -> int {
    origin.spec_base_stats().0 + if motive == MotiveKind::Avenger { 4int } else { 0int }
}

/// Starting money: the origin's plus 100 for a fugitive.
pub open spec fn spec_start_gold(origin: OriginKind, motive: MotiveKind) -> int {
    origin.spec_base_gold() + if motive == MotiveKind::Fugitive { 100int } else { 0int }
}

/// Starting topics: the two common ones plus the motive's own, if any.
pub open spec fn spec_start_topics(motive: MotiveKind) -> Seq<Seq<char>> {
    let common = seq!["王都アルカン"@, "封魔の迷宮"@];
    match motive.spec_fixed_topic() {
        Some(t) => common.push(t),
        None => common,
    }
}

impl CharacterBuild {
    /// A build; an eloper gets the first default candidate (Elena) as partner.
    pub fn new(origin: OriginKind, motive: MotiveKind) -> (r: Self)
        ensures
            r.origin == origin,
            r.motive == motive,
            r.partner is Some <==> motive == MotiveKind::Eloper,
            r.partner matches Some(p) ==> p.name@ == "エレナ"@ && p.job@ == "村娘"@
                && p.personality == Personality::Loyal && p.hp == 20 && p.mp == 10,
    {
        let partner = if motive == MotiveKind::Eloper {
            let mut candidates = EloperPartnerCandidate::default_candidates();
            Some(candidates.remove(0))
        } else {
            None
        };
        Self { origin, motive, partner }
    }

    /// The protagonist's starting (HP, MP).
    pub fn calculate_player_stats(&self) -> (r: (i32, i32))
        ensures
            r.0 == spec_player_hp(self.origin, self.motive),
            r.1 == self.origin.spec_base_stats().1,
    {
        let (hp, mp) = self.origin.base_stats();
        let hp = if self.motive == MotiveKind::Avenger { hp + 4 } else { hp };
        (hp, mp)
    }

    /// The protagonist's starting skills (those of the origin).
    pub fn calculate_player_skills(&self) -> (r: PlayerSkills)
        ensures
            r.magic_knowledge == self.origin.spec_base_skills().0,
            r.keen_eye == self.origin.spec_base_skills().1,
    {
        self.origin.base_skills()
    }

    /// The starting inventory: money, the origin's items and the topics.
    pub fn create_inventory(&self) -> (r: PlayerInventory)
        ensures
            r.gold == spec_start_gold(self.origin, self.motive),
            strings_view(r.items@) == self.origin.spec_base_items(),
            strings_view(r.topics@) == spec_start_topics(self.motive),
    {
        let base = self.origin.base_gold();
        let gold = if self.motive == MotiveKind::Fugitive { base + 100 } else { base };
        let items = self.origin.base_items();
        let mut topics: Vec<String> = Vec::new();
        topics.push(string_of("王都アルカン"));
        topics.push(string_of("封魔の迷宮"));
        match self.motive.fixed_topic() {
            Some(fixed) => {
                topics.push(string_of(fixed));
            },
            None => {},
        }
        assert(strings_view(topics@) =~= spec_start_topics(self.motive));
        PlayerInventory { gold, items, topics }
    }

    /// The starting party of this build led by `player_name`: the
    /// protagonist, and the chosen partner for an eloper who has one.
    pub open spec fn party_members_ok(&self, player_name: Seq<char>, r: Seq<PartyMember>) -> bool {
        &&& r.len() == if self.motive == MotiveKind::Eloper && self.partner is Some { 2int } else { 1int }
        &&& r[0].name@ == player_name
        &&& r[0].is_player
        &&& r[0].personality == Personality::Player
        &&& r[0].hp == spec_player_hp(self.origin, self.motive)
        &&& r[0].max_hp == spec_player_hp(self.origin, self.motive)
        &&& r[0].mp == self.origin.spec_base_stats().1
        &&& r[0].max_mp == self.origin.spec_base_stats().1
        &&& r.len() == 2 ==> ({
            let p = self.partner->0;
            &&& r[1].name@ == p.name@
            &&& r[1].job@ == p.job@
            &&& r[1].influence.raw_value == 88
            &&& r[1].mental_state == MentalState::Normal
            &&& r[1].personality == p.personality
            &&& r[1].hp == p.hp && r[1].max_hp == p.hp
            &&& r[1].mp == p.mp && r[1].max_mp == p.mp
            &&& !r[1].is_player
        })
    }

    /// The starting party: the protagonist with the starting stats, plus the
    /// partner (influence 88, sound mind) for an eloper who has one.
    pub fn create_party_members(&self, player_name: &str) -> (r: Vec<PartyMember>)
        ensures
            self.party_members_ok(player_name@, r@),
    {
        let (hp, mp) = self.calculate_player_stats();
        let player = PartyMember::new_player(player_name).with_stats(hp, mp);
        let mut members = Vec::new();
        members.push(player);
        if self.motive == MotiveKind::Eloper {
            match &self.partner {
                Some(partner) => {
                    let m = PartyMember::new(
                        partner.name.as_str(),
                        partner.job.as_str(),
                        Influence::new_natural(88),
                        MentalState::Normal,
                        partner.personality,
                    ).with_stats(partner.hp, partner.mp);
                    members.push(m);
                },
                None => {},
            }
        }
        members
    }

    /// The reserve roster kept at the tavern: Garz, Lolo, Mirei and the
    /// charmed knight Alvin.
    pub fn create_reserve_roster(&self) -> (r: ReserveRoster)
        ensures
            reserve_roster_ok(r.members@),
    {
        let mut v = Vec::new();
        v.push(PartyMember::new("戦士ガルツ", "せんし", Influence::new_natural(82), MentalState::Normal, Personality::Loyal).with_stats(35, 10));
        v.push(PartyMember::new("遊び人ロロ", "あそびにん", Influence::new_natural(45), MentalState::Normal, Personality::Slacker).with_stats(25, 10));
        v.push(PartyMember::new("魔法使いミレイ", "まほうつかい", Influence::new_natural(88), MentalState::Normal, Personality::Yandere).with_stats(22, 25));
        v.push(PartyMember::new("騎士アルヴィン", "きし", Influence::new_supernatural(115), MentalState::Charmed, Personality::Loyal).with_stats(40, 15));
        ReserveRoster::new(v)
    }
}

/// The four companions waiting in reserve at the start.
pub open spec fn reserve_roster_ok(m: Seq<PartyMember>) -> bool {
    &&& m.len() == 4
    &&& m[0].name@ == "戦士ガルツ"@ && m[0].influence.raw_value == 82
    &&& m[0].personality == Personality::Loyal && m[0].max_hp == 35
    &&& m[1].name@ == "遊び人ロロ"@ && m[1].influence.raw_value == 45
    &&& m[1].personality == Personality::Slacker && m[1].max_hp == 25
    &&& m[2].name@ == "魔法使いミレイ"@ && m[2].influence.raw_value == 88
    &&& m[2].personality == Personality::Yandere && m[2].max_hp == 22
    &&& m[3].name@ == "騎士アルヴィン"@ && m[3].influence.raw_value == 115
    &&& m[3].mental_state == MentalState::Charmed && m[3].max_hp == 40
}

/// What the summary of an origin opens with: its money, HP and MP.
pub open spec fn origin_summary_head(o: OriginKind) -> Seq<char> {
    "初期資金: "@ + int_decimal(o.spec_base_gold()) + "G / HP: "@ + int_decimal(o.spec_base_stats().0) + " / MP: "@
        + int_decimal(o.spec_base_stats().1) + " /"@
}

/// The summary shown for an origin opens with the money, HP and MP that the
/// origin actually gives.
pub proof fn lemma_origin_summary_matches_numbers(o: OriginKind)
    ensures
        origin_summary_head(o).len() <= o.spec_bonus_summary().len(),
        o.spec_bonus_summary().subrange(0, origin_summary_head(o).len() as int) == origin_summary_head(o),
{
    reveal_strlit("初期資金: ");
    reveal_strlit("G / HP: ");
    reveal_strlit(" / MP: ");
    reveal_strlit(" /");
    let (hp, mp) = o.spec_base_stats();
    lemma_small_decimal(o.spec_base_gold() as nat);
    lemma_small_decimal(hp as nat);
    lemma_small_decimal(mp as nat);
    let head = origin_summary_head(o);
    let s = o.spec_bonus_summary();
    match o {
        OriginKind::MerchantSon => {
            reveal_strlit("初期資金: 350G / HP: 20 / MP: 5 / 特やくそう・松明多数");
            assert(s.subrange(0, head.len() as int) =~= head);
        },
        OriginKind::FormerMercenary => {
            reveal_strlit("初期資金: 80G / HP: 32 / MP: 0 / やくそう・松明");
            assert(s.subrange(0, head.len() as int) =~= head);
        },
        OriginKind::FormerAcolyte => {
            reveal_strlit("初期資金: 120G / HP: 18 / MP: 20 / 魔術知識・目星高 / どくけし草");
            assert(s.subrange(0, head.len() as int) =~= head);
        },
        OriginKind::FarmerThirdSon => {
            reveal_strlit("初期資金: 40G / HP: 24 / MP: 0 / 頑丈なパンピースタート");
            assert(s.subrange(0, head.len() as int) =~= head);
        },
    }
}

/// The summary of a motive names its fixed topic in 「」 brackets, and
/// mentions a partner ("相棒1名") exactly for the eloper.
pub proof fn lemma_motive_summary_names_topic_and_partner(m: MotiveKind)
    ensures
        m.spec_fixed_topic() matches Some(t) ==> contains_seq(m.spec_bonus_summary(), "「"@ + t + "」"@),
        contains_seq(m.spec_bonus_summary(), "相棒1名"@) <==> m == MotiveKind::Eloper,
{
    reveal_strlit("「");
    reveal_strlit("」");
    reveal_strlit("相棒1名");
    let s = m.spec_bonus_summary();
    let partner = "相棒1名"@;
    match m {
        MotiveKind::AspiringAdventurer => {
            reveal_strlit("同行者: なし（単独） / 標準的な旅立ち");
        },
        MotiveKind::Eloper => {
            reveal_strlit("同行者: 相棒1名（初期影響度88） / 話題「駆け落ちの道行」");
            reveal_strlit("駆け落ちの道行");
            let quoted = "「"@ + "駆け落ちの道行"@ + "」"@;
            assert(s.subrange(23, 23 + quoted.len() as int) =~= quoted);
            assert(s.subrange(5, 5 + partner.len() as int) =~= partner);
        },
        MotiveKind::Seeker => {
            reveal_strlit("同行者: なし / 固定話題「人を探している」を獲得");
            reveal_strlit("人を探している");
            let quoted = "「"@ + "人を探している"@ + "」"@;
            assert(s.subrange(14, 14 + quoted.len() as int) =~= quoted);
        },
        MotiveKind::Avenger => {
            reveal_strlit("同行者: なし / HP+4 ボーナス / 固定話題「復讐の誓い」");
            reveal_strlit("復讐の誓い");
            let quoted = "「"@ + "復讐の誓い"@ + "」"@;
            assert(s.subrange(26, 26 + quoted.len() as int) =~= quoted);
        },
        MotiveKind::Fugitive => {
            reveal_strlit("同行者: なし / 逃亡資金+100G / 固定話題「追手からの逃亡」");
            reveal_strlit("追手からの逃亡");
            let quoted = "「"@ + "追手からの逃亡"@ + "」"@;
            assert(s.subrange(26, 26 + quoted.len() as int) =~= quoted);
        },
    }
    if m != MotiveKind::Eloper && contains_seq(s, partner) {
        let i = choose|i: int| 0 <= i && i + partner.len() <= s.len() && #[trigger] s.subrange(i, i + partner.len()) == partner;
        assert(s.subrange(i, i + partner.len())[0] == s[i]);
        assert(s[i] == '相');
    }
}

} // verus!
