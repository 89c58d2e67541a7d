//! Reconstructs the live state of a multiplayer match from the game client's
//! append-only log: a tailer hands over complete new lines, a classifier turns
//! each line into an event, and a reconstructor applies the events in order.
pub mod board;
pub mod event;
pub mod grammar;
pub mod laws;
pub mod parser;
pub mod player;
pub mod reconstruct;
pub mod report;
pub mod state;
pub mod tailer;
pub mod text;

pub use event::{ParseLineResult, UNASSIGNED_SQUAD};
pub use parser::parse_line;
pub use player::Player;
pub use reconstruct::{Reconstruct, Team};
pub use state::ApplyError;
pub use tailer::Tailer;

use vstd::prelude::*;

verus! {

} // verus!
