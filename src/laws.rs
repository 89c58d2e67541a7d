//! Properties of the match state that hold across events.
use vstd::prelude::*;
use crate::event::LineEvent;
use crate::player::PlayerView;
use crate::state::{
    apply, apply_error, join_team, members_sum, next, recalc, score_of, state_wf, team_total,
    team_scores_consistent, translate, MatchState, TeamView, PLAYERNUM_CAPACITY, PLAYER_CAPACITY,
    TEAM_CAPACITY,
};

verus! {

/// A sum of scores is never negative.
pub proof fn lemma_members_sum_nonneg(members: Seq<usize>, players: Seq<Option<PlayerView>>)
    ensures
        members_sum(members, players) >= 0,
    decreases members.len(),
{
    if members.len() > 0 {
        lemma_members_sum_nonneg(members.drop_last(), players);
    }
}

/// Team sums depend on the members' scores alone.
pub proof fn lemma_members_sum_same_scores(
    members: Seq<usize>,
    p1: Seq<Option<PlayerView>>,
    p2: Seq<Option<PlayerView>>,
)
    requires
        forall|i: int| score_of(p1, i) == score_of(p2, i),
    ensures
        members_sum(members, p1) == members_sum(members, p2),
    decreases members.len(),
{
    if members.len() > 0 {
        lemma_members_sum_same_scores(members.drop_last(), p1, p2);
    }
}

/// Team scores stay consistent when the roster changes without any score
/// changing.
proof fn lemma_consistent_same_scores(s: MatchState, players: Seq<Option<PlayerView>>)
    requires
        team_scores_consistent(s),
        forall|i: int| score_of(s.players, i) == score_of(players, i),
    ensures
        team_scores_consistent(MatchState { players, ..s }),
{
    assert forall|q: int| 0 <= q < s.teams.len() && #[trigger] s.teams[q] is Some implies s.teams[
        q
    ].unwrap().score == team_total(s.teams[q].unwrap().players, players) by {
        lemma_members_sum_same_scores(s.teams[q].unwrap().players, s.players, players);
    }
}

/// Recomputed team scores are consistent with the roster they were computed from.
proof fn lemma_recalc_consistent(s: MatchState, teams: Seq<Option<TeamView>>)
    requires
        s.teams == recalc(teams, s.players),
    ensures
        team_scores_consistent(s),
{
}

/// Every event keeps the state well formed: tables keep their capacities,
/// stored ids stay within them, and after every event each team's score is
/// the sum of its members' current scores.
pub proof fn lemma_next_preserves_wf(s: MatchState, ev: LineEvent, now: u64)
    requires
        state_wf(s),
    ensures
        state_wf(next(s, ev, now)),
{
    if apply_error(ev) is None {
        let t = apply(s, ev, now);
        match ev {
            LineEvent::Spawned(name, platform, id, sq) => {
                let joined = join_team(s.teams, sq, id);
                assert(joined.len() == s.teams.len());
                assert forall|q: int| 0 <= q < joined.len() && #[trigger] joined[q] is Some implies joined[
                    q
                ].unwrap().num == q by {
                    if q != sq {
                        assert(joined[q] == s.teams[q]);
                    }
                }
                lemma_recalc_consistent(t, joined);
                assert forall|q: int| 0 <= q < t.teams.len() && #[trigger] t.teams[q] is Some implies t.teams[
                    q
                ].unwrap().num == q by {
                    assert(joined[q] is Some);
                }
            },
            LineEvent::Unspawn(pn) => {
                lemma_consistent_same_scores(s, t.players);
            },
            LineEvent::Success(id, finished) => {
                match s.players[id as int] {
                    Some(p) => if finished && p.score == 0 {
                        lemma_recalc_consistent(t, s.teams);
                        assert forall|q: int| 0 <= q < t.teams.len() && #[trigger] t.teams[q] is Some implies t.teams[
                            q
                        ].unwrap().num == q by {
                            assert(s.teams[q] is Some);
                        }
                    } else {
                        lemma_consistent_same_scores(s, t.players);
                    },
                    None => {},
                }
            },
            LineEvent::Score(pn, score) => {
                lemma_recalc_consistent(t, s.teams);
                assert forall|q: int| 0 <= q < t.teams.len() && #[trigger] t.teams[q] is Some implies t.teams[
                    q
                ].unwrap().num == q by {
                    assert(s.teams[q] is Some);
                }
            },
            _ => {},
        }
    }
}

/// Loading a stage empties the translation table, the roster and the teams,
/// zeroes both player counters and sets the stage name, whatever came before.
pub proof fn law_loaded_stage_resets(s: MatchState, name: Seq<char>, now: u64)
    ensures
        ({
            let t = next(s, LineEvent::LoadedStage(name), now);
            &&& t.totalplayers == 0
            &&& t.finishedplayers == 0
            &&& t.stage == name
            &&& t.playermap.len() == PLAYERNUM_CAPACITY
            &&& t.players.len() == PLAYER_CAPACITY
            &&& t.teams.len() == TEAM_CAPACITY
            &&& forall|i: int| 0 <= i < t.playermap.len() ==> t.playermap[i] is None
            &&& forall|i: int| 0 <= i < t.players.len() ==> t.players[i] is None
            &&& forall|i: int| 0 <= i < t.teams.len() ==> t.teams[i] is None
        }),
{
}

/// Loading the same stage twice is the same as loading it once.
pub proof fn law_loaded_stage_idempotent(s: MatchState, name: Seq<char>, now1: u64, now2: u64)
    ensures
        next(next(s, LineEvent::LoadedStage(name), now1), LineEvent::LoadedStage(name), now2)
            == next(s, LineEvent::LoadedStage(name), now1),
{
}

proof fn lemma_recalc_twice(teams: Seq<Option<TeamView>>, players: Seq<Option<PlayerView>>)
    ensures
        recalc(recalc(teams, players), players) == recalc(teams, players),
{
    assert(recalc(recalc(teams, players), players) =~= recalc(teams, players));
}

/// A score line applied twice gives the same state as applied once: the
/// last write wins.
pub proof fn law_score_idempotent(
    s: MatchState,
    playernum: usize,
    score: usize,
    now1: u64,
    now2: u64,
)
    ensures
        next(next(s, LineEvent::Score(playernum, score), now1), LineEvent::Score(playernum, score), now2)
            == next(s, LineEvent::Score(playernum, score), now1),
{
    let ev = LineEvent::Score(playernum, score);
    if apply_error(ev) is None {
        let t = next(s, ev, now1);
        let u = next(t, ev, now2);
        match translate(s, playernum) {
            Some(id) => {
                assert(translate(t, playernum) == Some(id));
                assert(u.players =~= t.players);
            },
            None => {
                assert(translate(t, playernum) is None);
            },
        }
        lemma_recalc_twice(s.teams, t.players);
    }
}

/// The objective count sets the finished counter to exactly the count
/// given, above or below its former value.
pub proof fn law_objective_overrides(s: MatchState, n: usize, now: u64)
    ensures
        next(s, LineEvent::NumPlayersAchievingObjective(n), now).finishedplayers == n,
{
}

/// A success line never lowers the finished counter.
pub proof fn law_success_never_decreases(s: MatchState, id: usize, finished: bool, now: u64)
    ensures
        next(s, LineEvent::Success(id, finished), now).finishedplayers >= s.finishedplayers,
{
}

/// A success line for a player who has already finished with a score changes
/// nothing.
pub proof fn law_success_repeat_is_noop(s: MatchState, id: usize, now: u64)
    requires
        id < s.players.len(),
        s.players[id as int] matches Some(p) && p.finished && p.score > 0,
    ensures
        next(s, LineEvent::Success(id, true), now) == s,
{
    let t = next(s, LineEvent::Success(id, true), now);
    assert(t.players =~= s.players);
}

/// After any event, a team whose members' scores sum to at most `usize::MAX`
/// has exactly that sum as its score.
pub proof fn law_team_score_is_member_sum(s: MatchState, ev: LineEvent, now: u64, q: int)
    requires
        state_wf(s),
        0 <= q < next(s, ev, now).teams.len(),
        next(s, ev, now).teams[q] is Some,
        members_sum(next(s, ev, now).teams[q].unwrap().players, next(s, ev, now).players)
            <= usize::MAX,
    ensures
        next(s, ev, now).teams[q].unwrap().score as int == members_sum(
            next(s, ev, now).teams[q].unwrap().players,
            next(s, ev, now).players,
        ),
{
    lemma_next_preserves_wf(s, ev, now);
    let t = next(s, ev, now);
    lemma_members_sum_nonneg(t.teams[q].unwrap().players, t.players);
    assert(t.teams[q] is Some);
}

} // verus!
