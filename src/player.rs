//! A player of the current stage.
use vstd::prelude::*;

verus! {

/// One player on the roster. `lifetime` is in milliseconds.
#[derive(Debug, Clone, PartialEq, Eq)]
pub struct Player {
    pub name: String,
    pub platform: String,
    pub squadid: usize,
    pub score: usize,
    pub finished: bool,
    pub died: bool,
    pub lifetime: u64,
}

/// What a `Player` holds, with its texts as character sequences.
pub struct PlayerView {
    pub name: Seq<char>,
    pub platform: Seq<char>,
    pub squadid: usize,
    pub score: usize,
    pub finished: bool,
    pub died: bool,
    pub lifetime: u64,
}

impl View for Player {
    type V = PlayerView;

    open spec fn view(&self) -> PlayerView {
        PlayerView {
            name: self.name@,
            platform: self.platform@,
            squadid: self.squadid,
            score: self.score,
            finished: self.finished,
            died: self.died,
            lifetime: self.lifetime,
        }
    }
}

/// A freshly spawned player: no score, neither finished nor dead.
pub open spec fn fresh_player(name: Seq<char>, platform: Seq<char>, squadid: usize) -> PlayerView {
    PlayerView {
        name,
        platform,
        squadid,
        score: 0,
        finished: false,
        died: false,
        lifetime: 0,
    }
}

impl Player {
    pub fn new(name: String, platform: String, squadid: usize) -> (p: Player)
        ensures
            p@ == fresh_player(name@, platform@, squadid),
    {
        Player { name, platform, squadid, score: 0, finished: false, died: false, lifetime: 0 }
    }
}

impl Default for Player {
    fn default() -> (p: Player)
        ensures
            p@ == fresh_player(Seq::empty(), Seq::empty(), 0),
    {
        Player::new(String::new(), String::new(), 0)
    }
}

} // verus!
