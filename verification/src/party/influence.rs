//! The hidden "influence" parameter and the party member record.

use vstd::prelude::*;
use vstd::string::*;

verus! {

/// The natural upper bound of influence an ordinary person can reach.
pub const MAX_NATURAL_INFLUENCE: u8 = 89;

/// Influence at or above this value only comes from outside (magical) interference.
pub const ABNORMAL_INFLUENCE_THRESHOLD: u8 = 100;

/// The hidden obedience parameter of a party member.
#[derive(Debug, Clone, Copy)]
pub struct Influence {
    /// Raw influence value (0..=255).
    pub raw_value: u8,
}

pub open spec fn min_u8(a: int, b: int) -> int {
    if a <= b { a } else { b }
}

impl Influence {
    /// Influence of natural origin, capped at `MAX_NATURAL_INFLUENCE`.
    pub fn new_natural(val: u8) -> (r: Self)
        ensures
            r.raw_value == min_u8(val as int, MAX_NATURAL_INFLUENCE as int),
            r.raw_value <= MAX_NATURAL_INFLUENCE,
    {
        Self { raw_value: if val < MAX_NATURAL_INFLUENCE { val } else { MAX_NATURAL_INFLUENCE } }
    }

    /// Influence imposed by magic; any value is accepted.
    pub fn new_supernatural(val: u8) -> (r: Self)
        ensures
            r.raw_value == val,
    {
        Self { raw_value: val }
    }

    /// Raises influence the way an ordinary person would: it stops at
    /// `MAX_NATURAL_INFLUENCE`, and a value already above that bound (which
    /// only magic can give) is left as it is.
    pub fn add_natural(&mut self, amount: u8)
        ensures
            final(self).raw_value == if old(self).raw_value <= MAX_NATURAL_INFLUENCE {
                min_u8(old(self).raw_value + amount, MAX_NATURAL_INFLUENCE as int)
            } else {
                old(self).raw_value as int
            },
            final(self).raw_value >= old(self).raw_value,
            old(self).raw_value <= MAX_NATURAL_INFLUENCE ==> final(self).raw_value
                <= MAX_NATURAL_INFLUENCE,
    {
        if self.raw_value <= MAX_NATURAL_INFLUENCE {
            let sum: u8 = self.raw_value.saturating_add(amount);
            self.raw_value = if sum < MAX_NATURAL_INFLUENCE { sum } else { MAX_NATURAL_INFLUENCE };
        }
    }

    /// Whether influence has reached the abnormal (magically induced) range.
    pub fn is_abnormal(&self) -> (r: bool)
        ensures
            r == (self.raw_value >= ABNORMAL_INFLUENCE_THRESHOLD),
    {
        self.raw_value >= ABNORMAL_INFLUENCE_THRESHOLD
    }
}

/// Influence reached the natural way is never abnormal: a natural value,
/// and a value within the natural bound raised naturally, stay at or below
/// the natural bound, under the abnormal range.
pub proof fn lemma_natural_influence_never_abnormal(raw: u8, amount: u8)
    ensures
        min_u8(raw as int, MAX_NATURAL_INFLUENCE as int) < ABNORMAL_INFLUENCE_THRESHOLD,
        raw <= MAX_NATURAL_INFLUENCE ==> min_u8(raw + amount, MAX_NATURAL_INFLUENCE as int)
            < ABNORMAL_INFLUENCE_THRESHOLD,
{
}

/// Mental state: whether something from outside acts on the member.
#[derive(Debug, Clone, Copy, PartialEq, Eq, Structural)]
pub enum MentalState {
    /// Sound mind.
    Normal,
    /// Charmed by a spell.
    Charmed,
    /// Bound by a curse.
    Cursed,
}

/// Character trait of a member.
#[derive(Debug, Clone, Copy, PartialEq, Eq, Structural)]
pub enum Personality {
    /// The protagonist ("you").
    Player,
    /// Loyal: follows orders readily.
    Loyal,
    /// Slacker: fools around often.
    Slacker,
    /// Coward: refuses dangerous orders.
    Coward,
    /// Obsessively devoted to the protagonist.
    Yandere,
}

impl Personality {
    pub open spec fn spec_label(self) -> Seq<char> {
        match self {
            Personality::Player => "主人公"@,
            Personality::Loyal => "忠実"@,
            Personality::Slacker => "遊び人"@,
            Personality::Coward => "臆病"@,
            Personality::Yandere => "ヤンデレ"@,
        }
    }

    /// The short name of the trait shown at character creation.
    pub fn label(&self) -> (r: &'static str)
        ensures
            r@ == self.spec_label(),
    {
        match self {
            Personality::Player => "主人公",
            Personality::Loyal => "忠実",
            Personality::Slacker => "遊び人",
            Personality::Coward => "臆病",
            Personality::Yandere => "ヤンデレ",
        }
    }
}

/// A member of the party.
#[derive(Debug)]
pub struct PartyMember {
    pub name: String,
    pub job: String,
    pub influence: Influence,
    pub mental_state: MentalState,
    pub personality: Personality,
    pub hp: i32,
    pub max_hp: i32,
    pub mp: i32,
    pub max_mp: i32,
    /// Whether this member is the protagonist.
    pub is_player: bool,
}

impl PartyMember {
    /// A companion with the default stats (HP 30/30, MP 10/10).
    pub fn new(
        name: &str,
        job: &str,
        influence: Influence,
        mental_state: MentalState,
        personality: Personality,
    ) -> (r: Self)
        ensures
            r.name@ == name@,
            r.job@ == job@,
            r.influence == influence,
            r.mental_state == mental_state,
            r.personality == personality,
            r.hp == 30 && r.max_hp == 30,
            r.mp == 10 && r.max_mp == 10,
            !r.is_player,
    {
        Self {
            name: String::from_str(name),
            job: String::from_str(job),
            influence,
            mental_state,
            personality,
            hp: 30,
            max_hp: 30,
            mp: 10,
            max_mp: 10,
            is_player: false,
        }
    }

    /// The protagonist: an ordinary person ("一般人") who always follows
    /// their own orders.
    pub fn new_player(name: &str) -> (r: Self)
        ensures
            r.name@ == name@,
            r.job@ == "一般人"@,
            r.influence.raw_value == 0,
            r.mental_state == MentalState::Normal,
            r.personality == Personality::Player,
            r.hp == 30 && r.max_hp == 30,
            r.mp == 10 && r.max_mp == 10,
            r.is_player,
    {
        Self {
            name: String::from_str(name),
            job: String::from_str("一般人"),
            influence: Influence { raw_value: 0 },
            mental_state: MentalState::Normal,
            personality: Personality::Player,
            hp: 30,
            max_hp: 30,
            mp: 10,
            max_mp: 10,
            is_player: true,
        }
    }

    /// Sets current and maximum HP and MP.
    pub fn with_stats(self, hp: i32, mp: i32) -> (r: Self)
        ensures
            r.name@ == self.name@,
            r.job@ == self.job@,
            r.influence == self.influence,
            r.mental_state == self.mental_state,
            r.personality == self.personality,
            r.is_player == self.is_player,
            r.hp == hp && r.max_hp == hp,
            r.mp == mp && r.max_mp == mp,
    {
        let mut m = self;
        m.hp = hp;
        m.max_hp = hp;
        m.mp = mp;
        m.max_mp = mp;
        m
    }

    /// A copy of this member.
    pub fn duplicate(&self) -> (r: Self)
        ensures
            r.name@ == self.name@,
            r.job@ == self.job@,
            r.influence == self.influence,
            r.mental_state == self.mental_state,
            r.personality == self.personality,
            r.is_player == self.is_player,
            r.hp == self.hp && r.max_hp == self.max_hp,
            r.mp == self.mp && r.max_mp == self.max_mp,
    {
        Self {
            name: self.name.clone(),
            job: self.job.clone(),
            influence: self.influence,
            mental_state: self.mental_state,
            personality: self.personality,
            hp: self.hp,
            max_hp: self.max_hp,
            mp: self.mp,
            max_mp: self.max_mp,
            is_player: self.is_player,
        }
    }
}

} // verus!
