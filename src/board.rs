//! Read-only views of the match: team ranking and player display order.
use vstd::prelude::*;
use crate::reconstruct::Reconstruct;
use crate::state::{MatchState, PLAYER_CAPACITY, TEAM_CAPACITY};

verus! {

pub open spec fn team_score(s: MatchState, q: int) -> int {
    s.teams[q].unwrap().score as int
}

/// Team `a` ranks above team `b`: a higher score, or an equal score and a
/// higher squad id.
pub open spec fn team_before(s: MatchState, a: int, b: int) -> bool {
    team_score(s, a) > team_score(s, b) || (team_score(s, a) == team_score(s, b) && a > b)
}

/// `o` lists every team exactly once, best first.
pub open spec fn ranked(s: MatchState, o: Seq<usize>) -> bool {
    &&& forall|i: int| 0 <= i < o.len() ==> #[trigger] o[i] < s.teams.len() && s.teams[o[i] as int] is Some
    &&& forall|q: int| 0 <= q < s.teams.len() && #[trigger] s.teams[q] is Some ==> o.contains(q as usize)
    &&& forall|i: int, j: int| 0 <= i < j < o.len() ==> team_before(s, #[trigger] o[i] as int, #[trigger] o[j] as int)
}

pub open spec fn player_of(s: MatchState, id: int) -> crate::player::PlayerView {
    s.players[id].unwrap()
}

/// Player `a` is shown before player `b`: a lower squad id, or the same squad
/// and a higher score, or both equal and a lower player id.
pub open spec fn player_before(s: MatchState, a: int, b: int) -> bool {
    let pa = player_of(s, a);
    let pb = player_of(s, b);
    pa.squadid < pb.squadid || (pa.squadid == pb.squadid && (pa.score > pb.score || (pa.score
        == pb.score && a < b)))
}

/// Player `p` is on the roster and, where `only` names a squad, in it.
pub open spec fn selected(s: MatchState, p: int, only: Option<usize>) -> bool {
    0 <= p < s.players.len() && s.players[p] is Some && (only matches Some(q) ==> player_of(
        s,
        p,
    ).squadid == q)
}

/// `o` lists exactly the selected players, in display order.
pub open spec fn displayed(s: MatchState, o: Seq<usize>, only: Option<usize>) -> bool {
    &&& forall|i: int| 0 <= i < o.len() ==> selected(s, #[trigger] o[i] as int, only)
    &&& forall|p: int| selected(s, p, only) ==> #[trigger] o.contains(p as usize)
    &&& forall|i: int, j: int|
        0 <= i < j < o.len() ==> player_before(s, #[trigger] o[i] as int, #[trigger] o[j] as int)
}

/// The local player's squad, where the local player is on the roster.
pub open spec fn my_squad(s: MatchState) -> Option<usize> {
    match s.myid {
        Some(id) => if id < s.players.len() && s.players[id as int] is Some {
            Some(s.players[id as int].unwrap().squadid)
        } else {
            None
        },
        None => None,
    }
}

/// Two sequences sorted strictly by the same asymmetric relation and holding
/// the same elements are equal.
pub proof fn lemma_sorted_unique(o1: Seq<usize>, o2: Seq<usize>, before: spec_fn(int, int) -> bool)
    requires
        forall|a: int, b: int| #[trigger] before(a, b) ==> !before(b, a),
        forall|i: int, j: int| 0 <= i < j < o1.len() ==> before(#[trigger] o1[i] as int, #[trigger] o1[j] as int),
        forall|i: int, j: int| 0 <= i < j < o2.len() ==> before(#[trigger] o2[i] as int, #[trigger] o2[j] as int),
        forall|x: usize| o1.contains(x) <==> o2.contains(x),
    ensures
        o1 == o2,
    decreases o1.len(),
{
    if o1.len() == 0 {
        if o2.len() > 0 {
            assert(o2.contains(o2[0]));
        }
        assert(o1 =~= o2);
    } else {
        assert(o1.contains(o1[0]));
        assert(o2.contains(o2[0]));
        let k = choose|k: int| 0 <= k < o2.len() && o2[k] == o1[0];
        let j = choose|j: int| 0 <= j < o1.len() && o1[j] == o2[0];
        if k > 0 {
            assert(before(o2[0] as int, o2[k] as int));
            if j > 0 {
                assert(before(o1[0] as int, o1[j] as int));
            }
        }
        assert(o1[0] == o2[0]);
        let t1 = o1.drop_first();
        let t2 = o2.drop_first();
        assert forall|x: usize| t1.contains(x) <==> t2.contains(x) by {
            if t1.contains(x) {
                let a = choose|a: int| 0 <= a < t1.len() && t1[a] == x;
                assert(o1[a + 1] == x);
                assert(before(o1[0] as int, o1[a + 1] as int));
                assert(o2.contains(x));
                let b = choose|b: int| 0 <= b < o2.len() && o2[b] == x;
                if b == 0 {
                    assert(before(x as int, x as int));
                }
                assert(t2[b - 1] == x);
            }
            if t2.contains(x) {
                let a = choose|a: int| 0 <= a < t2.len() && t2[a] == x;
                assert(o2[a + 1] == x);
                assert(before(o2[0] as int, o2[a + 1] as int));
                assert(o1.contains(x));
                let b = choose|b: int| 0 <= b < o1.len() && o1[b] == x;
                if b == 0 {
                    assert(before(x as int, x as int));
                }
                assert(t1[b - 1] == x);
            }
        }
        assert forall|i: int, j: int| 0 <= i < j < t1.len() implies before(#[trigger] t1[i] as int, #[trigger] t1[j] as int) by {
            assert(before(o1[i + 1] as int, o1[j + 1] as int));
        }
        assert forall|i: int, j: int| 0 <= i < j < t2.len() implies before(#[trigger] t2[i] as int, #[trigger] t2[j] as int) by {
            assert(before(o2[i + 1] as int, o2[j + 1] as int));
        }
        lemma_sorted_unique(t1, t2, before);
        assert forall|i: int| 0 <= i < o1.len() implies o1[i] == o2[i] by {
            if i > 0 {
                assert(o1[i] == t1[i - 1]);
                assert(o2[i] == t2[i - 1]);
            }
        }
        assert(o1 =~= o2);
    }
}

/// The team ranking is determined by the state: there is only one.
pub proof fn law_ranking_unique(s: MatchState, o1: Seq<usize>, o2: Seq<usize>)
    requires
        ranked(s, o1),
        ranked(s, o2),
    ensures
        o1 == o2,
{
    let before = |a: int, b: int| team_before(s, a, b);
    assert forall|x: usize| o1.contains(x) <==> o2.contains(x) by {
        if o1.contains(x) {
            let i = choose|i: int| 0 <= i < o1.len() && o1[i] == x;
            assert(s.teams[x as int] is Some);
        }
        if o2.contains(x) {
            let i = choose|i: int| 0 <= i < o2.len() && o2[i] == x;
            assert(s.teams[x as int] is Some);
        }
    }
    lemma_sorted_unique(o1, o2, before);
}

/// The display order of a selection of players is determined by the state:
/// there is only one.
pub proof fn law_display_order_unique(
    s: MatchState,
    only: Option<usize>,
    o1: Seq<usize>,
    o2: Seq<usize>,
)
    requires
        displayed(s, o1, only),
        displayed(s, o2, only),
    ensures
        o1 == o2,
{
    let before = |a: int, b: int| player_before(s, a, b);
    assert forall|x: usize| o1.contains(x) <==> o2.contains(x) by {
        if o1.contains(x) {
            let i = choose|i: int| 0 <= i < o1.len() && o1[i] == x;
            assert(selected(s, x as int, only));
            assert(o2.contains((x as int) as usize));
        }
        if o2.contains(x) {
            let i = choose|i: int| 0 <= i < o2.len() && o2[i] == x;
            assert(selected(s, x as int, only));
            assert(o1.contains((x as int) as usize));
        }
    }
    lemma_sorted_unique(o1, o2, before);
}

impl Reconstruct {
    fn team_precedes(&self, a: usize, b: usize) -> (r: bool)
        requires
            a < self.teams@.len() && self.teams@[a as int] is Some,
            b < self.teams@.len() && self.teams@[b as int] is Some,
        ensures
            r == team_before(self@, a as int, b as int),
    {
        let sa = match &self.teams[a] {
            Some(t) => t.score,
            None => 0,
        };
        let sb = match &self.teams[b] {
            Some(t) => t.score,
            None => 0,
        };
        sa > sb || (sa == sb && a > b)
    }

    /// The squad ids of all teams, best first: by score, and among equal
    /// scores the higher squad id first.
    pub fn ranked_teams(&self) -> (o: Vec<usize>)
        requires
            self.wf(),
        ensures
            ranked(self@, o@),
    {
        let mut o: Vec<usize> = Vec::new();
        let mut q: usize = 0;
        while q < TEAM_CAPACITY
            invariant
                self.wf(),
                q <= TEAM_CAPACITY,
                forall|i: int| 0 <= i < o@.len() ==> #[trigger] o@[i] < q && self@.teams[o@[i] as int] is Some,
                forall|k: int| 0 <= k < q && #[trigger] self@.teams[k] is Some ==> o@.contains(k as usize),
                forall|i: int, j: int| 0 <= i < j < o@.len() ==> team_before(self@, #[trigger] o@[i] as int, #[trigger] o@[j] as int),
            decreases TEAM_CAPACITY - q,
        {
            if self.teams[q].is_some() {
                assert(self@.teams[q as int] is Some);
                let mut p: usize = 0;
                while p < o.len() && !self.team_precedes(q, o[p])
                    invariant
                        self.wf(),
                        q < TEAM_CAPACITY,
                        self@.teams[q as int] is Some,
                        p <= o@.len(),
                        forall|i: int| 0 <= i < o@.len() ==> #[trigger] o@[i] < q && self@.teams[o@[i] as int] is Some,
                        forall|i: int| 0 <= i < p ==> team_before(self@, #[trigger] o@[i] as int, q as int),
                    decreases o@.len() - p,
                {
                    p = p + 1;
                }
                let ghost before = o@;
                o.insert(p, q);
                proof {
                    assert forall|i: int, j: int| 0 <= i < j < o@.len() implies team_before(
                        self@,
                        #[trigger] o@[i] as int,
                        #[trigger] o@[j] as int,
                    ) by {
                        if j < p {
                        } else if j == p {
                        } else if i < p {
                            if i + 1 < p || p < before.len() {
                                assert(team_before(self@, before[i] as int, q as int));
                            }
                        } else if i == p {
                            assert(team_before(self@, q as int, before[p as int] as int));
                            if j - 1 > p {
                                assert(team_before(self@, before[p as int] as int, before[j - 1] as int));
                            }
                        } else {
                            assert(team_before(self@, before[i - 1] as int, before[j - 1] as int));
                        }
                    }
                    assert forall|k: int| 0 <= k < q + 1 && #[trigger] self@.teams[k] is Some implies o@.contains(k as usize) by {
                        if k < q {
                            let w = choose|w: int| 0 <= w < before.len() && before[w] == k as usize;
                            if w < p {
                                assert(o@[w] == k as usize);
                            } else {
                                assert(o@[w + 1] == k as usize);
                            }
                        } else {
                            assert(o@[p as int] == q);
                        }
                    }
                }
            }
            q = q + 1;
        }
        o
    }

    fn player_precedes(&self, a: usize, b: usize) -> (r: bool)
        requires
            a < self.players@.len() && self.players@[a as int] is Some,
            b < self.players@.len() && self.players@[b as int] is Some,
        ensures
            r == player_before(self@, a as int, b as int),
    {
        let (qa, sa) = match &self.players[a] {
            Some(p) => (p.squadid, p.score),
            None => (0, 0),
        };
        let (qb, sb) = match &self.players[b] {
            Some(p) => (p.squadid, p.score),
            None => (0, 0),
        };
        qa < qb || (qa == qb && (sa > sb || (sa == sb && a < b)))
    }

    fn is_selected(&self, p: usize, only: Option<usize>) -> (r: bool)
        requires
            self.wf(),
            p < PLAYER_CAPACITY,
        ensures
            r == selected(self@, p as int, only),
    {
        match &self.players[p] {
            Some(pl) => match only {
                Some(q) => pl.squadid == q,
                None => true,
            },
            None => false,
        }
    }

    /// The selected players in display order: by squad id, then by score
    /// (highest first), then by player id.
    fn ordered_players(&self, only: Option<usize>) -> (o: Vec<usize>)
        requires
            self.wf(),
        ensures
            displayed(self@, o@, only),
    {
        let mut o: Vec<usize> = Vec::new();
        let mut q: usize = 0;
        while q < PLAYER_CAPACITY
            invariant
                self.wf(),
                q <= PLAYER_CAPACITY,
                forall|i: int| 0 <= i < o@.len() ==> #[trigger] o@[i] < q && selected(self@, o@[i] as int, only),
                forall|k: int| 0 <= k < q && selected(self@, k, only) ==> #[trigger] o@.contains(k as usize),
                forall|i: int, j: int| 0 <= i < j < o@.len() ==> player_before(self@, #[trigger] o@[i] as int, #[trigger] o@[j] as int),
            decreases PLAYER_CAPACITY - q,
        {
            if self.is_selected(q, only) {
                let mut p: usize = 0;
                while p < o.len() && !self.player_precedes(q, o[p])
                    invariant
                        self.wf(),
                        q < PLAYER_CAPACITY,
                        selected(self@, q as int, only),
                        p <= o@.len(),
                        forall|i: int| 0 <= i < o@.len() ==> #[trigger] o@[i] < q && selected(self@, o@[i] as int, only),
                        forall|i: int| 0 <= i < p ==> player_before(self@, #[trigger] o@[i] as int, q as int),
                    decreases o@.len() - p,
                {
                    p = p + 1;
                }
                let ghost before = o@;
                o.insert(p, q);
                proof {
                    assert forall|i: int, j: int| 0 <= i < j < o@.len() implies player_before(
                        self@,
                        #[trigger] o@[i] as int,
                        #[trigger] o@[j] as int,
                    ) by {
                        if j < p {
                        } else if j == p {
                        } else if i < p {
                            assert(player_before(self@, before[i] as int, q as int));
                        } else if i == p {
                            assert(player_before(self@, q as int, before[p as int] as int));
                            if j - 1 > p {
                                assert(player_before(self@, before[p as int] as int, before[j - 1] as int));
                            }
                        } else {
                            assert(player_before(self@, before[i - 1] as int, before[j - 1] as int));
                        }
                    }
                    assert forall|k: int| 0 <= k < q + 1 && selected(self@, k, only) implies #[trigger] o@.contains(k as usize) by {
                        if k < q {
                            assert(before.contains(k as usize));
                            let w = choose|w: int| 0 <= w < before.len() && before[w] == k as usize;
                            if w < p {
                                assert(o@[w] == k as usize);
                            } else {
                                assert(o@[w + 1] == k as usize);
                            }
                        } else {
                            assert(o@[p as int] == q);
                        }
                    }
                }
            }
            q = q + 1;
        }
        proof {
            assert forall|p: int| selected(self@, p, only) implies #[trigger] o@.contains(p as usize) by {
                assert(0 <= p < PLAYER_CAPACITY);
            }
        }
        o
    }

    /// Every player on the roster, in display order.
    pub fn player_order(&self) -> (o: Vec<usize>)
        requires
            self.wf(),
        ensures
            displayed(self@, o@, None),
    {
        self.ordered_players(None)
    }

    /// The players of the local player's squad, in display order; none while
    /// the local player is not on the roster.
    pub fn my_team_order(&self) -> (o: Vec<usize>)
        requires
            self.wf(),
        ensures
            my_squad(self@) is None ==> o@.len() == 0,
            my_squad(self@) is Some ==> displayed(self@, o@, my_squad(self@)),
    {
        match self.my_squad_exec() {
            Some(q) => self.ordered_players(Some(q)),
            None => Vec::new(),
        }
    }

    pub(crate) fn my_squad_exec(&self) -> (r: Option<usize>)
        requires
            self.wf(),
        ensures
            r == my_squad(self@),
    {
        match self.myid {
            Some(id) => {
                if id < self.players.len() {
                    match &self.players[id] {
                        Some(p) => Some(p.squadid),
                        None => None,
                    }
                } else {
                    None
                }
            },
            None => None,
        }
    }
}

} // verus!
