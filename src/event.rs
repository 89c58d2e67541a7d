//! The closed vocabulary of events that one log line can carry.
use vstd::prelude::*;

verus! {

/// Squad id of a spawn announced before its squad is known.
pub const UNASSIGNED_SQUAD: usize = usize::MAX;

/// One classified log line.
#[derive(Debug, Clone, PartialEq, Eq)]
pub enum ParseLineResult {
    /// name, platform, playerid, squadid (`UNASSIGNED_SQUAD` when not yet known)
    Spawned(String, String, usize, usize),
    /// playernum, playerid, squadid of a remote player
    SpawnMatch(usize, usize, usize),
    /// playernum, playerid, squadid of the local player
    SpawnMatchMe(usize, usize, usize),
    /// playernum
    Unspawn(usize),
    /// playerid, finished
    Success(usize, bool),
    /// number of players that reached the objective
    NumPlayersAchievingObjective(usize),
    /// stage name
    LoadedStage(String),
    /// a session line that is not the start of play
    UnhandledGameSession(String),
    /// a line of a known category whose fields could not be read
    Unhandled(String),
    /// playernum, score
    Score(usize, usize),
    Start,
    Shutdown,
    Misc,
}

/// What a `ParseLineResult` says, with its texts as character sequences.
pub enum LineEvent {
    Spawned(Seq<char>, Seq<char>, usize, usize),
    SpawnMatch(usize, usize, usize),
    SpawnMatchMe(usize, usize, usize),
    Unspawn(usize),
    Success(usize, bool),
    NumPlayersAchievingObjective(usize),
    LoadedStage(Seq<char>),
    UnhandledGameSession(Seq<char>),
    Unhandled(Seq<char>),
    Score(usize, usize),
    Start,
    Shutdown,
    Misc,
}

impl View for ParseLineResult {
    type V = LineEvent;

    open spec fn view(&self) -> LineEvent {
        match self {
            ParseLineResult::Spawned(n, p, id, sq) => LineEvent::Spawned(n@, p@, *id, *sq),
            ParseLineResult::SpawnMatch(a, b, c) => LineEvent::SpawnMatch(*a, *b, *c),
            ParseLineResult::SpawnMatchMe(a, b, c) => LineEvent::SpawnMatchMe(*a, *b, *c),
            ParseLineResult::Unspawn(a) => LineEvent::Unspawn(*a),
            ParseLineResult::Success(a, f) => LineEvent::Success(*a, *f),
            ParseLineResult::NumPlayersAchievingObjective(n) => {
                LineEvent::NumPlayersAchievingObjective(*n)
            },
            ParseLineResult::LoadedStage(s) => LineEvent::LoadedStage(s@),
            ParseLineResult::UnhandledGameSession(s) => LineEvent::UnhandledGameSession(s@),
            ParseLineResult::Unhandled(s) => LineEvent::Unhandled(s@),
            ParseLineResult::Score(a, b) => LineEvent::Score(*a, *b),
            ParseLineResult::Start => LineEvent::Start,
            ParseLineResult::Shutdown => LineEvent::Shutdown,
            ParseLineResult::Misc => LineEvent::Misc,
        }
    }
}

} // verus!
