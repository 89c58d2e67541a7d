//! The match state as a mathematical value, and what each event does to it.
use vstd::prelude::*;
use crate::event::{LineEvent, UNASSIGNED_SQUAD};
use crate::player::{fresh_player, PlayerView};

verus! {

/// Number of slots of the translation table (playernum to playerid).
pub const PLAYERNUM_CAPACITY: usize = 4000;

/// Number of roster slots (playerids).
pub const PLAYER_CAPACITY: usize = 100;

/// Number of team slots (squadids).
pub const TEAM_CAPACITY: usize = 60;

/// An id of an event that lies beyond its table's capacity; the event is
/// refused and the state left as it was.
#[derive(Debug, Clone, Copy, PartialEq, Eq, Structural)]
pub enum ApplyError {
    /// a playernum of at least `PLAYERNUM_CAPACITY`
    PlayerNumOutOfRange(usize),
    /// a playerid of at least `PLAYER_CAPACITY`
    PlayerIdOutOfRange(usize),
    /// a squadid of at least `TEAM_CAPACITY` other than `UNASSIGNED_SQUAD`
    SquadIdOutOfRange(usize),
}

/// What a `Team` holds.
pub struct TeamView {
    pub players: Seq<usize>,
    pub score: usize,
    pub num: usize,
}

/// What a `Reconstruct` holds. Times are in milliseconds.
pub struct MatchState {
    pub playermap: Seq<Option<usize>>,
    pub players: Seq<Option<PlayerView>>,
    pub stage: Seq<char>,
    pub running: bool,
    pub finishedplayers: usize,
    pub totalplayers: usize,
    pub teams: Seq<Option<TeamView>>,
    pub myid: Option<usize>,
    pub myscore: usize,
    pub starttime: u64,
}

/// Score of the roster slot `id`; an empty or missing slot counts nothing.
pub open spec fn score_of(players: Seq<Option<PlayerView>>, id: int) -> int {
    if 0 <= id < players.len() {
        match players[id] {
            Some(p) => p.score as int,
            None => 0,
        }
    } else {
        0
    }
}

/// Sum of the scores of the listed members.
pub open spec fn members_sum(members: Seq<usize>, players: Seq<Option<PlayerView>>) -> int
    decreases members.len(),
{
    if members.len() == 0 {
        0
    } else {
        members_sum(members.drop_last(), players) + score_of(players, members.last() as int)
    }
}

/// `x`, or `usize::MAX` where `x` is larger.
pub open spec fn clamp(x: int) -> usize {
    if x > usize::MAX {
        usize::MAX
    } else if x < 0 {
        0
    } else {
        x as usize
    }
}

/// The team score: the sum of its members' scores (held at `usize::MAX`).
pub open spec fn team_total(members: Seq<usize>, players: Seq<Option<PlayerView>>) -> usize {
    clamp(members_sum(members, players))
}

pub open spec fn rescored(t: Option<TeamView>, players: Seq<Option<PlayerView>>) -> Option<TeamView> {
    match t {
        Some(t) => Some(TeamView { score: team_total(t.players, players), ..t }),
        None => None,
    }
}

/// Every team with its score recomputed from the roster.
pub open spec fn recalc(teams: Seq<Option<TeamView>>, players: Seq<Option<PlayerView>>) -> Seq<
    Option<TeamView>,
> {
    Seq::new(teams.len(), |q: int| rescored(teams[q], players))
}

pub open spec fn sat_inc(x: usize) -> usize {
    if x < usize::MAX {
        (x + 1) as usize
    } else {
        x
    }
}

pub open spec fn sat_sub(a: usize, b: usize) -> usize {
    if a >= b {
        (a - b) as usize
    } else {
        0
    }
}

/// Milliseconds from `start` to `now`, zero where `now` is earlier.
pub open spec fn elapsed(start: u64, now: u64) -> u64 {
    if now >= start {
        (now - start) as u64
    } else {
        0
    }
}

/// The player that `playernum` stands for, where both are known.
pub open spec fn translate(s: MatchState, playernum: usize) -> Option<usize> {
    if playernum < s.playermap.len() {
        match s.playermap[playernum as int] {
            Some(id) => if id < s.players.len() && s.players[id as int] is Some {
                Some(id)
            } else {
                None
            },
            None => None,
        }
    } else {
        None
    }
}

/// The id of the event that lies beyond its table, if any.
pub open spec fn apply_error(ev: LineEvent) -> Option<ApplyError> {
    match ev {
        LineEvent::Spawned(_, _, id, sq) => if id >= PLAYER_CAPACITY {
            Some(ApplyError::PlayerIdOutOfRange(id))
        } else if sq != UNASSIGNED_SQUAD && sq >= TEAM_CAPACITY {
            Some(ApplyError::SquadIdOutOfRange(sq))
        } else {
            None
        },
        LineEvent::SpawnMatch(pn, id, _) | LineEvent::SpawnMatchMe(pn, id, _) => {
            if pn >= PLAYERNUM_CAPACITY {
                Some(ApplyError::PlayerNumOutOfRange(pn))
            } else if id >= PLAYER_CAPACITY {
                Some(ApplyError::PlayerIdOutOfRange(id))
            } else {
                None
            }
        },
        LineEvent::Unspawn(pn) | LineEvent::Score(pn, _) => if pn >= PLAYERNUM_CAPACITY {
            Some(ApplyError::PlayerNumOutOfRange(pn))
        } else {
            None
        },
        LineEvent::Success(id, _) => if id >= PLAYER_CAPACITY {
            Some(ApplyError::PlayerIdOutOfRange(id))
        } else {
            None
        },
        _ => None,
    }
}

/// The teams after `id` joined squad `sq` (none for the unassigned squad).
pub open spec fn join_team(teams: Seq<Option<TeamView>>, sq: usize, id: usize) -> Seq<
    Option<TeamView>,
> {
    if sq == UNASSIGNED_SQUAD {
        teams
    } else {
        match teams[sq as int] {
            Some(t) => teams.update(sq as int, Some(TeamView { players: t.players.push(id), ..t })),
            None => teams.update(sq as int, Some(TeamView { players: seq![id], score: 0, num: sq })),
        }
    }
}

/// The state after an event whose ids are all within capacity, at time `now`.
pub open spec fn apply(s: MatchState, ev: LineEvent, now: u64) -> MatchState {
    match ev {
        LineEvent::Spawned(name, platform, id, sq) => {
            let players = s.players.update(id as int, Some(fresh_player(name, platform, sq)));
            MatchState {
                totalplayers: sat_inc(s.totalplayers),
                players,
                teams: recalc(join_team(s.teams, sq, id), players),
                ..s
            }
        },
        LineEvent::SpawnMatch(pn, id, _) => MatchState {
            playermap: s.playermap.update(pn as int, Some(id)),
            ..s
        },
        LineEvent::SpawnMatchMe(pn, id, _) => MatchState {
            playermap: s.playermap.update(pn as int, Some(id)),
            myid: Some(id),
            ..s
        },
        LineEvent::Unspawn(pn) => match translate(s, pn) {
            Some(id) => {
                let p = s.players[id as int].unwrap();
                MatchState {
                    players: s.players.update(
                        id as int,
                        Some(PlayerView { died: true, lifetime: elapsed(s.starttime, now), ..p }),
                    ),
                    ..s
                }
            },
            None => s,
        },
        LineEvent::Success(id, finished) => match s.players[id as int] {
            Some(p) => if finished && p.score == 0 {
                let players = s.players.update(
                    id as int,
                    Some(
                        PlayerView {
                            finished: true,
                            score: sat_sub(s.totalplayers, s.finishedplayers),
                            ..p
                        },
                    ),
                );
                let fin = sat_inc(s.finishedplayers);
                MatchState {
                    players,
                    finishedplayers: fin,
                    myscore: if s.myid == Some(id) {
                        fin
                    } else {
                        s.myscore
                    },
                    teams: recalc(s.teams, players),
                    ..s
                }
            } else {
                MatchState {
                    players: s.players.update(id as int, Some(PlayerView { finished, ..p })),
                    ..s
                }
            },
            None => s,
        },
        LineEvent::NumPlayersAchievingObjective(n) => MatchState { finishedplayers: n, ..s },
        LineEvent::LoadedStage(name) => MatchState {
            playermap: Seq::new(PLAYERNUM_CAPACITY as nat, |i: int| None),
            players: Seq::new(PLAYER_CAPACITY as nat, |i: int| None),
            teams: Seq::new(TEAM_CAPACITY as nat, |i: int| None),
            finishedplayers: 0,
            totalplayers: 0,
            stage: name,
            ..s
        },
        LineEvent::Score(pn, score) => {
            let players = match translate(s, pn) {
                Some(id) => s.players.update(
                    id as int,
                    Some(PlayerView { score, ..s.players[id as int].unwrap() }),
                ),
                None => s.players,
            };
            MatchState { players, teams: recalc(s.teams, players), ..s }
        },
        LineEvent::Start => MatchState { running: true, starttime: now, ..s },
        LineEvent::Shutdown => MatchState { running: false, ..s },
        _ => s,
    }
}

/// The state after any event: an event with an id beyond capacity changes nothing.
pub open spec fn next(s: MatchState, ev: LineEvent, now: u64) -> MatchState {
    if apply_error(ev) is Some {
        s
    } else {
        apply(s, ev, now)
    }
}

/// Every team's score is the sum of its members' scores.
pub open spec fn team_scores_consistent(s: MatchState) -> bool {
    forall|q: int|
        0 <= q < s.teams.len() && #[trigger] s.teams[q] is Some ==> s.teams[q].unwrap().score
            == team_total(s.teams[q].unwrap().players, s.players)
}

/// The tables have their capacities, every stored id lies within its table,
/// every team sits in the slot of its squad id, and team scores are consistent.
pub open spec fn state_wf(s: MatchState) -> bool {
    &&& s.playermap.len() == PLAYERNUM_CAPACITY
    &&& s.players.len() == PLAYER_CAPACITY
    &&& s.teams.len() == TEAM_CAPACITY
    &&& forall|n: int|
        0 <= n < s.playermap.len() && #[trigger] s.playermap[n] is Some ==> s.playermap[n].unwrap()
            < PLAYER_CAPACITY
    &&& forall|q: int|
        0 <= q < s.teams.len() && #[trigger] s.teams[q] is Some ==> s.teams[q].unwrap().num == q
    &&& s.myid matches Some(id) ==> id < PLAYER_CAPACITY
    &&& team_scores_consistent(s)
}

/// The state after the events `evs`, applied in order at time `now`.
pub open spec fn replay(s: MatchState, evs: Seq<LineEvent>, now: u64) -> MatchState
    decreases evs.len(),
{
    if evs.len() == 0 {
        s
    } else {
        next(replay(s, evs.drop_last(), now), evs.last(), now)
    }
}

/// The errors of the events in `evs` that are refused, in order.
pub open spec fn refusals(evs: Seq<LineEvent>) -> Seq<ApplyError>
    decreases evs.len(),
{
    if evs.len() == 0 {
        Seq::empty()
    } else {
        refusals(evs.drop_last()) + match apply_error(evs.last()) {
            Some(e) => seq![e],
            None => Seq::empty(),
        }
    }
}

} // verus!
