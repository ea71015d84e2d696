//! Party members, their obedience and the protagonist's belongings.

pub mod action;
pub mod diagnosis;
pub mod influence;
pub mod inventory;
pub mod origin;

pub use action::{evaluate_command, ActionOutcome, PartyCommand, PlayerBattleAction};
pub use diagnosis::{diagnose_member, DiagnosisReport, PlayerSkills};
pub use influence::{
    Influence, MentalState, PartyMember, Personality, ABNORMAL_INFLUENCE_THRESHOLD,
    MAX_NATURAL_INFLUENCE,
};
pub use inventory::{PlayerInventory, CURRENCY_NAME, CURRENCY_UNIT};
pub use origin::{CharacterBuild, EloperPartnerCandidate, MotiveKind, OriginKind};

use vstd::prelude::*;

verus! {

/// The current party and which member the status window focuses on.
pub struct PartyState {
    pub members: Vec<PartyMember>,
    pub selected_index: usize,
    pub debug_mode: bool,
}

/// The protagonist's own skills.
pub struct PlayerResource {
    pub skills: PlayerSkills,
}

/// Companions waiting at the tavern, not in the active party.
pub struct ReserveRoster {
    pub members: Vec<PartyMember>,
}

impl ReserveRoster {
    pub fn new(members: Vec<PartyMember>) -> (r: Self)
        ensures
            r.members == members,
    {
        Self { members }
    }
}

impl Default for ReserveRoster {
    fn default() -> (r: Self)
        ensures
            r.members@.len() == 0,
    {
        Self { members: Vec::new() }
    }
}

} // verus!
