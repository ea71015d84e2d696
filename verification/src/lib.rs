//! Game logic of Glyphfall: party, battle, town exploration, travel and
//! sudden events, with contracts checked by Verus.

pub mod battle;
pub mod event;
pub mod flow;
pub mod party;
pub mod play;
pub mod rng;
pub mod text;
pub mod timer;
pub mod town;
