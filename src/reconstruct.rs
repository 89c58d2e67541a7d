//! The state reconstructor: applies classified events, in log order, to the
//! state of the current match.
use vstd::prelude::*;
use crate::event::{LineEvent, ParseLineResult, UNASSIGNED_SQUAD};
use crate::parser::{classify, parse_line};
use crate::player::{Player, PlayerView};
use crate::state::{
    apply, apply_error, join_team, recalc, refusals, replay, rescored, score_of, state_wf, team_total,
    translate, ApplyError, MatchState, TeamView, PLAYERNUM_CAPACITY, PLAYER_CAPACITY,
    TEAM_CAPACITY,
};
use crate::laws::{lemma_members_sum_nonneg, lemma_next_preserves_wf};

verus! {

/// A squad: its id, its members' playerids, and its score.
#[derive(Debug, Clone)]
pub struct Team {
    pub players: Vec<usize>,
    pub score: usize,
    pub num: usize,
}

impl View for Team {
    type V = TeamView;

    open spec fn view(&self) -> TeamView {
        TeamView { players: self.players@, score: self.score, num: self.num }
    }
}

pub open spec fn player_slot(p: Option<Player>) -> Option<PlayerView> {
    match p {
        Some(p) => Some(p@),
        None => None,
    }
}

pub open spec fn team_slot(t: Option<Team>) -> Option<TeamView> {
    match t {
        Some(t) => Some(t@),
        None => None,
    }
}

/// The state of the current match. Time stamps are milliseconds on the
/// caller's clock.
pub struct Reconstruct {
    /// playernum to playerid
    pub playermap: Vec<Option<usize>>,
    /// roster, by playerid
    pub players: Vec<Option<Player>>,
    pub stage: String,
    pub running: bool,
    pub finishedplayers: usize,
    pub totalplayers: usize,
    /// teams, by squadid
    pub teams: Vec<Option<Team>>,
    /// the local player's playerid, once known
    pub myid: Option<usize>,
    /// the local player's placement
    pub myscore: usize,
    pub starttime: u64,
}

impl View for Reconstruct {
    type V = MatchState;

    open spec fn view(&self) -> MatchState {
        MatchState {
            playermap: self.playermap@,
            players: Seq::new(self.players@.len(), |i: int| player_slot(self.players@[i])),
            stage: self.stage@,
            running: self.running,
            finishedplayers: self.finishedplayers,
            totalplayers: self.totalplayers,
            teams: Seq::new(self.teams@.len(), |i: int| team_slot(self.teams@[i])),
            myid: self.myid,
            myscore: self.myscore,
            starttime: self.starttime,
        }
    }
}

fn empty_map() -> (v: Vec<Option<usize>>)
    ensures
        v@ == Seq::new(PLAYERNUM_CAPACITY as nat, |i: int| None::<usize>),
{
    let mut v: Vec<Option<usize>> = Vec::new();
    let mut i: usize = 0;
    while i < PLAYERNUM_CAPACITY
        invariant
            i <= PLAYERNUM_CAPACITY,
            v@ == Seq::new(i as nat, |k: int| None::<usize>),
        decreases PLAYERNUM_CAPACITY - i,
    {
        v.push(None);
        i = i + 1;
        assert(v@ =~= Seq::new(i as nat, |k: int| None::<usize>));
    }
    v
}

fn empty_roster() -> (v: Vec<Option<Player>>)
    ensures
        v@.len() == PLAYER_CAPACITY,
        forall|i: int| 0 <= i < v@.len() ==> v@[i] is None,
{
    let mut v: Vec<Option<Player>> = Vec::new();
    let mut i: usize = 0;
    while i < PLAYER_CAPACITY
        invariant
            i <= PLAYER_CAPACITY,
            v@.len() == i,
            forall|k: int| 0 <= k < v@.len() ==> v@[k] is None,
        decreases PLAYER_CAPACITY - i,
    {
        v.push(None);
        i = i + 1;
    }
    v
}

fn empty_teams() -> (v: Vec<Option<Team>>)
    ensures
        v@.len() == TEAM_CAPACITY,
        forall|i: int| 0 <= i < v@.len() ==> v@[i] is None,
{
    let mut v: Vec<Option<Team>> = Vec::new();
    let mut i: usize = 0;
    while i < TEAM_CAPACITY
        invariant
            i <= TEAM_CAPACITY,
            v@.len() == i,
            forall|k: int| 0 <= k < v@.len() ==> v@[k] is None,
        decreases TEAM_CAPACITY - i,
    {
        v.push(None);
        i = i + 1;
    }
    v
}

impl Reconstruct {
    /// The tables have their capacities, ids stay within them, and every
    /// team's score is the sum of its members' scores.
    pub open spec fn wf(&self) -> bool {
        state_wf(self@)
    }

    /// An empty match: no stage, no players, not running.
    pub fn new() -> (r: Reconstruct)
        ensures
            r.wf(),
            r@.playermap == Seq::new(PLAYERNUM_CAPACITY as nat, |i: int| None::<usize>),
            r@.players == Seq::new(PLAYER_CAPACITY as nat, |i: int| None::<PlayerView>),
            r@.teams == Seq::new(TEAM_CAPACITY as nat, |i: int| None::<TeamView>),
            r@.stage == Seq::<char>::empty(),
            !r@.running,
            r@.finishedplayers == 0,
            r@.totalplayers == 0,
            r@.myid is None,
            r@.myscore == 0,
            r@.starttime == 0,
    {
        let r = Reconstruct {
            playermap: empty_map(),
            players: empty_roster(),
            teams: empty_teams(),
            stage: String::new(),
            running: false,
            finishedplayers: 0,
            totalplayers: 0,
            myid: None,
            myscore: 0,
            starttime: 0,
        };
        assert(r@.players =~= Seq::new(PLAYER_CAPACITY as nat, |i: int| None::<PlayerView>));
        assert(r@.teams =~= Seq::new(TEAM_CAPACITY as nat, |i: int| None::<TeamView>));
        r
    }

    /// Score of the roster slot `id`, zero where it is empty or missing.
    fn slot_score(&self, id: usize) -> (r: usize)
        ensures
            r as int == score_of(self@.players, id as int),
    {
        if id < self.players.len() {
            match &self.players[id] {
                Some(p) => p.score,
                None => 0,
            }
        } else {
            0
        }
    }

    /// Sum of the members' scores, held at `usize::MAX`.
    fn members_total(&self, members: &Vec<usize>) -> (r: usize)
        ensures
            r == team_total(members@, self@.players),
    {
        let mut acc: usize = 0;
        let mut k: usize = 0;
        assert(members@.subrange(0, 0) =~= Seq::<usize>::empty());
        while k < members.len()
            invariant
                k <= members@.len(),
                acc == team_total(members@.subrange(0, k as int), self@.players),
            decreases members@.len() - k,
        {
            let sc = self.slot_score(members[k]);
            proof {
                assert(members@.subrange(0, k + 1).drop_last() =~= members@.subrange(0, k as int));
                lemma_members_sum_nonneg(members@.subrange(0, k as int), self@.players);
            }
            if acc > usize::MAX - sc {
                acc = usize::MAX;
            } else {
                acc = acc + sc;
            }
            k = k + 1;
        }
        assert(members@.subrange(0, members@.len() as int) =~= members@);
        acc
    }

    /// Sets every team's score to the sum of its members' current scores.
    fn recalc_team_score(&mut self)
        ensures
            final(self)@ == (MatchState {
                teams: recalc(old(self)@.teams, old(self)@.players),
                ..old(self)@
            }),
    {
        let ghost s0 = self@;
        let n = self.teams.len();
        let mut q: usize = 0;
        while q < n
            invariant
                n == self.teams@.len(),
                q <= n,
                self@ == (MatchState { teams: self@.teams, ..s0 }),
                self@.teams.len() == s0.teams.len(),
                forall|k: int| 0 <= k < q ==> self@.teams[k] == rescored(s0.teams[k], s0.players),
                forall|k: int| q <= k < n ==> self@.teams[k] == s0.teams[k],
            decreases n - q,
        {
            let ghost tv = self.teams@;
            let ghost before = self@;
            let total = match &self.teams[q] {
                Some(t) => self.members_total(&t.players),
                None => 0,
            };
            match &mut self.teams[q] {
                Some(t) => {
                    t.score = total;
                },
                None => {},
            }
            proof {
                assert(self@.teams[q as int] == rescored(s0.teams[q as int], s0.players));
                assert forall|k: int| 0 <= k < q implies self@.teams[k] == rescored(
                    s0.teams[k],
                    s0.players,
                ) by {
                    assert(self.teams@[k] == tv[k]);
                    assert(before.teams[k] == team_slot(tv[k]));
                }
            }
            q = q + 1;
            assert forall|k: int| q <= k < n implies self@.teams[k] == s0.teams[k] by {
                assert(self.teams@[k] == tv[k]);
                assert(before.teams[k] == team_slot(tv[k]));
            }
        }
        assert(self@.teams =~= recalc(s0.teams, s0.players));
    }

    /// The playerid that `playernum` stands for, where both are known.
    fn translate_num(&self, playernum: usize) -> (r: Option<usize>)
        requires
            self.wf(),
        ensures
            r == translate(self@, playernum),
            r matches Some(id) ==> id < self.players@.len(),
    {
        if playernum < self.playermap.len() {
            match self.playermap[playernum] {
                Some(id) => {
                    if id < self.players.len() && self.players[id].is_some() {
                        Some(id)
                    } else {
                        None
                    }
                },
                None => None,
            }
        } else {
            None
        }
    }

    /// Adds `id` to the members of squad `sq`, creating the team if needed.
    fn join(&mut self, sq: usize, id: usize)
        requires
            sq < old(self).teams@.len(),
            sq != UNASSIGNED_SQUAD,
        ensures
            final(self)@ == (MatchState {
                teams: join_team(old(self)@.teams, sq, id),
                ..old(self)@
            }),
    {
        let ghost tv = self.teams@;
        if self.teams[sq].is_some() {
            match &mut self.teams[sq] {
                Some(t) => {
                    t.players.push(id);
                },
                None => {},
            }
        } else {
            let mut members: Vec<usize> = Vec::new();
            members.push(id);
            assert(members@ =~= seq![id]);
            self.teams[sq] = Some(Team { players: members, score: 0, num: sq });
        }
        proof {
            assert forall|k: int| 0 <= k < tv.len() && k != sq implies self.teams@[k] == tv[k] by {}
            assert(self@.teams[sq as int] == join_team(old(self)@.teams, sq, id)[sq as int]);
            assert(self@.teams =~= join_team(old(self)@.teams, sq, id));
        }
    }

    /// Applies one event at time `now` (milliseconds).
    ///
    /// An event that names a playernum, playerid or squadid beyond its
    /// table's capacity is refused with the offending id and changes nothing.
    /// Any other event is applied: ids that are not known are no-ops.
    pub fn push(&mut self, line: ParseLineResult, now: u64) -> (r: Result<(), ApplyError>)
        requires
            old(self).wf(),
        ensures
            final(self).wf(),
            match apply_error(line@) {
                Some(e) => r == Err::<(), ApplyError>(e) && final(self)@ == old(self)@,
                None => r is Ok && final(self)@ == apply(old(self)@, line@, now),
            },
    {
        let ghost s0 = self@;
        let ghost ev = line@;
        proof {
            lemma_next_preserves_wf(s0, ev, now);
        }
        match line {
            ParseLineResult::Spawned(name, platform, id, sq) => {
                if id >= PLAYER_CAPACITY {
                    return Err(ApplyError::PlayerIdOutOfRange(id));
                }
                if sq != UNASSIGNED_SQUAD && sq >= TEAM_CAPACITY {
                    return Err(ApplyError::SquadIdOutOfRange(sq));
                }
                if self.totalplayers < usize::MAX {
                    self.totalplayers = self.totalplayers + 1;
                }
                self.players[id] = Some(Player::new(name, platform, sq));
                assert(self@.players =~= s0.players.update(
                    id as int,
                    Some(crate::player::fresh_player(ev->Spawned_0, ev->Spawned_1, sq)),
                ));
                if sq != UNASSIGNED_SQUAD {
                    self.join(sq, id);
                }
                self.recalc_team_score();
                Ok(())
            },
            ParseLineResult::SpawnMatch(playernum, id, _) => {
                if playernum >= PLAYERNUM_CAPACITY {
                    return Err(ApplyError::PlayerNumOutOfRange(playernum));
                }
                if id >= PLAYER_CAPACITY {
                    return Err(ApplyError::PlayerIdOutOfRange(id));
                }
                self.playermap[playernum] = Some(id);
                Ok(())
            },
            ParseLineResult::SpawnMatchMe(playernum, id, _) => {
                if playernum >= PLAYERNUM_CAPACITY {
                    return Err(ApplyError::PlayerNumOutOfRange(playernum));
                }
                if id >= PLAYER_CAPACITY {
                    return Err(ApplyError::PlayerIdOutOfRange(id));
                }
                self.playermap[playernum] = Some(id);
                self.myid = Some(id);
                Ok(())
            },
            ParseLineResult::Unspawn(playernum) => {
                if playernum >= PLAYERNUM_CAPACITY {
                    return Err(ApplyError::PlayerNumOutOfRange(playernum));
                }
                let lifetime = if now >= self.starttime {
                    now - self.starttime
                } else {
                    0
                };
                match self.translate_num(playernum) {
                    Some(id) => {
                        match &mut self.players[id] {
                            Some(p) => {
                                p.died = true;
                                p.lifetime = lifetime;
                            },
                            None => {},
                        }
                        assert(self@.players =~= s0.players.update(
                            id as int,
                            Some(PlayerView { died: true, lifetime, ..s0.players[id as int].unwrap() }),
                        ));
                    },
                    None => {},
                }
                Ok(())
            },
            ParseLineResult::Success(id, finished) => {
                if id >= PLAYER_CAPACITY {
                    return Err(ApplyError::PlayerIdOutOfRange(id));
                }
                let current = match &self.players[id] {
                    Some(p) => Some(p.score),
                    None => None,
                };
                match current {
                    Some(score) => {
                        if finished && score == 0 {
                            let placed = if self.totalplayers >= self.finishedplayers {
                                self.totalplayers - self.finishedplayers
                            } else {
                                0
                            };
                            match &mut self.players[id] {
                                Some(p) => {
                                    p.finished = true;
                                    p.score = placed;
                                },
                                None => {},
                            }
                            assert(self@.players =~= s0.players.update(
                                id as int,
                                Some(PlayerView { finished: true, score: placed, ..s0.players[id as int].unwrap() }),
                            ));
                            if self.finishedplayers < usize::MAX {
                                self.finishedplayers = self.finishedplayers + 1;
                            }
                            if self.myid == Some(id) {
                                self.myscore = self.finishedplayers;
                            }
                            self.recalc_team_score();
                        } else {
                            match &mut self.players[id] {
                                Some(p) => {
                                    p.finished = finished;
                                },
                                None => {},
                            }
                            assert(self@.players =~= s0.players.update(
                                id as int,
                                Some(PlayerView { finished, ..s0.players[id as int].unwrap() }),
                            ));
                        }
                    },
                    None => {},
                }
                Ok(())
            },
            ParseLineResult::NumPlayersAchievingObjective(n) => {
                self.finishedplayers = n;
                Ok(())
            },
            ParseLineResult::LoadedStage(stage) => {
                self.playermap = empty_map();
                self.players = empty_roster();
                self.teams = empty_teams();
                self.finishedplayers = 0;
                self.totalplayers = 0;
                self.stage = stage;
                assert(self@.players =~= Seq::new(PLAYER_CAPACITY as nat, |i: int| None::<PlayerView>));
                assert(self@.teams =~= Seq::new(TEAM_CAPACITY as nat, |i: int| None::<TeamView>));
                Ok(())
            },
            ParseLineResult::Score(playernum, score) => {
                if playernum >= PLAYERNUM_CAPACITY {
                    return Err(ApplyError::PlayerNumOutOfRange(playernum));
                }
                match self.translate_num(playernum) {
                    Some(id) => {
                        match &mut self.players[id] {
                            Some(p) => {
                                p.score = score;
                            },
                            None => {},
                        }
                        assert(self@.players =~= s0.players.update(
                            id as int,
                            Some(PlayerView { score, ..s0.players[id as int].unwrap() }),
                        ));
                    },
                    None => {
                        assert(self@.players =~= s0.players);
                    },
                }
                self.recalc_team_score();
                Ok(())
            },
            ParseLineResult::Start => {
                self.running = true;
                self.starttime = now;
                Ok(())
            },
            ParseLineResult::Shutdown => {
                self.running = false;
                Ok(())
            },
            ParseLineResult::UnhandledGameSession(_) => Ok(()),
            ParseLineResult::Unhandled(_) => Ok(()),
            ParseLineResult::Misc => Ok(()),
        }
    }
}

/// The events that the lines carry, in order.
pub open spec fn classify_all(lines: Seq<String>) -> Seq<LineEvent> {
    Seq::new(lines.len(), |i: int| classify(lines[i]@))
}

impl Reconstruct {
    /// Classifies the lines of one poll and applies their events in file
    /// order at time `now`. Returns the errors of the events that were
    /// refused, in order.
    pub fn push_lines(&mut self, lines: &Vec<String>, now: u64) -> (refused: Vec<ApplyError>)
        requires
            old(self).wf(),
        ensures
            final(self).wf(),
            final(self)@ == replay(old(self)@, classify_all(lines@), now),
            refused@ == refusals(classify_all(lines@)),
    {
        let ghost evs = classify_all(lines@);
        let mut refused: Vec<ApplyError> = Vec::new();
        let mut k: usize = 0;
        assert(evs.subrange(0, 0) =~= Seq::<LineEvent>::empty());
        while k < lines.len()
            invariant
                self.wf(),
                k <= lines@.len(),
                evs == classify_all(lines@),
                self@ == replay(old(self)@, evs.subrange(0, k as int), now),
                refused@ == refusals(evs.subrange(0, k as int)),
            decreases lines@.len() - k,
        {
            let ev = parse_line(lines[k].as_str());
            let ghost before = self@;
            let r = self.push(ev, now);
            proof {
                assert(evs.subrange(0, k + 1).drop_last() =~= evs.subrange(0, k as int));
                assert(evs.subrange(0, k + 1).last() == evs[k as int]);
            }
            match r {
                Ok(()) => {
                    assert(refused@ =~= refusals(evs.subrange(0, k + 1)));
                },
                Err(e) => {
                    refused.push(e);
                    assert(refused@ =~= refusals(evs.subrange(0, k + 1)));
                },
            }
            k = k + 1;
        }
        assert(evs.subrange(0, lines@.len() as int) =~= evs);
        refused
    }
}

impl Default for Reconstruct {
    fn default() -> (r: Reconstruct)
        ensures
            r.wf(),
            r@.stage == Seq::<char>::empty(),
            !r@.running,
            r@.finishedplayers == 0,
            r@.totalplayers == 0,
            r@.myid is None,
            forall|i: int| 0 <= i < r@.players.len() ==> r@.players[i] is None,
            forall|i: int| 0 <= i < r@.teams.len() ==> r@.teams[i] is None,
    {
        Reconstruct::new()
    }
}

} // verus!
