//! The human-readable views of the match: a summary, the local player's
//! squad, and the team ranking.
use vstd::prelude::*;
use crate::board::{displayed, my_squad, ranked};
use crate::player::{Player, PlayerView};
use crate::reconstruct::Reconstruct;
use crate::state::{elapsed, MatchState};
use crate::text::{
    decimal_text, padded, prefix_text, push_decimal, push_padded, push_seconds, seconds_text,
    truncate,
};

verus! {

/// A finished player's mark, then a dead one's: a check mark and a skull.
pub open spec fn status_mark(p: PlayerView) -> Seq<char> {
    if p.finished {
        "\u{2714}\u{fe0f}"@
    } else if p.died {
        "\u{2620}\u{fe0f}"@
    } else {
        Seq::empty()
    }
}

/// `<mark><name>(<platform>) team <squad>`
pub open spec fn player_label(p: PlayerView) -> Seq<char> {
    status_mark(p) + p.name + "("@ + p.platform + ") team "@ + decimal_text(p.squadid as nat)
}

/// The local player, where it is on the roster.
pub open spec fn me(s: MatchState) -> Option<PlayerView> {
    match s.myid {
        Some(id) => if id < s.players.len() {
            s.players[id as int]
        } else {
            None
        },
        None => None,
    }
}

pub open spec fn dec(n: usize) -> Seq<char> {
    decimal_text(n as nat)
}

pub open spec fn progress_text(s: MatchState) -> Seq<char> {
    "Finished players: "@ + dec(s.finishedplayers) + "/"@ + dec(s.totalplayers) + "\n"@
}

/// Stage (at most 20 characters), progress, the local player's score and
/// placement and finish time, and the time since the start while running.
pub open spec fn infos_text(s: MatchState, now: u64) -> Seq<char> {
    "Stage: "@ + prefix_text(s.stage, 20) + "\n"@ + progress_text(s) + match me(s) {
        Some(p) => "My score "@ + dec(p.score) + ", #"@ + dec(s.myscore) + "\n"@ + if p.died {
            "finish time : "@ + seconds_text(p.lifetime) + "\n"@
        } else {
            Seq::empty()
        },
        None => Seq::empty(),
    } + if s.running {
        "Current Time : "@ + seconds_text(elapsed(s.starttime, now)) + "\n"@
    } else {
        Seq::empty()
    }
}

/// `<mark><name, 6 characters, padded>\t<score>`
pub open spec fn squad_row(p: PlayerView) -> Seq<char> {
    status_mark(p) + padded(prefix_text(p.name, 6), 6) + "\t"@ + dec(p.score) + "\n"@
}

pub open spec fn squad_rows(s: MatchState, o: Seq<usize>) -> Seq<char>
    decreases o.len(),
{
    if o.len() == 0 {
        Seq::empty()
    } else {
        squad_rows(s, o.drop_last()) + squad_row(s.players[o.last() as int].unwrap())
    }
}

/// `o` is the local player's squad in display order.
pub open spec fn my_squad_listed(s: MatchState, o: Seq<usize>) -> bool {
    &&& my_squad(s) is None ==> o.len() == 0
    &&& my_squad(s) is Some ==> displayed(s, o, my_squad(s))
}

/// Number of listed members that are on the roster and finished.
pub open spec fn finished_count(s: MatchState, members: Seq<usize>) -> nat
    decreases members.len(),
{
    if members.len() == 0 {
        0
    } else {
        finished_count(s, members.drop_last()) + if members.last() < s.players.len()
            && s.players[members.last() as int] is Some && s.players[members.last() as int].unwrap().finished {
            1nat
        } else {
            0nat
        }
    }
}

/// Number of listed members that are on the roster and dead.
pub open spec fn died_count(s: MatchState, members: Seq<usize>) -> nat
    decreases members.len(),
{
    if members.len() == 0 {
        0
    } else {
        died_count(s, members.drop_last()) + if members.last() < s.players.len()
            && s.players[members.last() as int] is Some && s.players[members.last() as int].unwrap().died {
            1nat
        } else {
            0nat
        }
    }
}

/// `<rank>. Team <squad>:\t<score>, <finished>/<dead>/<members>`, with a
/// star in place of the space for the local player's squad.
pub open spec fn team_row(s: MatchState, q: usize, rank: nat) -> Seq<char> {
    let t = s.teams[q as int].unwrap();
    decimal_text(rank) + (if my_squad(s) == Some(q) {
        ".\u{2605}"@
    } else {
        ". "@
    }) + "Team "@ + dec(q) + ":\t"@ + dec(t.score) + ", "@ + decimal_text(
        finished_count(s, t.players),
    ) + "/"@ + decimal_text(died_count(s, t.players)) + "/"@ + decimal_text(t.players.len())
        + "\n"@
}

pub open spec fn team_rows(s: MatchState, o: Seq<usize>) -> Seq<char>
    decreases o.len(),
{
    if o.len() == 0 {
        Seq::empty()
    } else {
        team_rows(s, o.drop_last()) + team_row(s, o.last(), o.len())
    }
}

/// `<label>: score <score>`
pub open spec fn roster_row(p: PlayerView) -> Seq<char> {
    player_label(p) + ": score "@ + dec(p.score) + "\n"@
}

pub open spec fn roster_rows(s: MatchState, o: Seq<usize>) -> Seq<char>
    decreases o.len(),
{
    if o.len() == 0 {
        Seq::empty()
    } else {
        roster_rows(s, o.drop_last()) + roster_row(s.players[o.last() as int].unwrap())
    }
}

/// Stage, progress, the local player with score, placement and lifetime in
/// whole seconds, and the time since the start while running.
pub open spec fn summary_head(s: MatchState, now: u64) -> Seq<char> {
    "Stage: "@ + s.stage + "\n"@ + progress_text(s) + match me(s) {
        Some(p) => "Me: "@ + player_label(p) + ": score "@ + dec(p.score) + ", #"@ + dec(
            s.myscore,
        ) + "\n"@ + if p.died {
            "time: "@ + decimal_text(p.lifetime as nat / 1000) + "\n"@
        } else {
            Seq::empty()
        },
        None => Seq::empty(),
    } + if s.running {
        "Time: "@ + seconds_text(elapsed(s.starttime, now)) + "\n"@
    } else {
        Seq::empty()
    }
}

/// The summary, then the roster in the display order `o`.
pub open spec fn summary_text(s: MatchState, now: u64, o: Seq<usize>) -> Seq<char> {
    summary_head(s, now) + roster_rows(s, o)
}

fn push_mark(out: &mut String, p: &Player)
    ensures
        final(out)@ == old(out)@ + status_mark(p@),
{
    if p.finished {
        out.append("\u{2714}\u{fe0f}");
    } else if p.died {
        out.append("\u{2620}\u{fe0f}");
    } else {
        assert(out@ =~= old(out)@ + Seq::<char>::empty());
    }
}

fn push_usize(out: &mut String, n: usize)
    ensures
        final(out)@ == old(out)@ + dec(n),
{
    push_decimal(out, n as u64);
}

fn push_label(out: &mut String, p: &Player)
    ensures
        final(out)@ == old(out)@ + player_label(p@),
{
    push_mark(out, p);
    out.append(p.name.as_str());
    out.append("(");
    out.append(p.platform.as_str());
    out.append(") team ");
    push_usize(out, p.squadid);
    assert(out@ =~= old(out)@ + player_label(p@));
}

impl Player {
    /// `<mark><name>(<platform>) team <squad>`, the mark telling a finished
    /// or a dead player.
    pub fn label(&self) -> (r: String)
        ensures
            r@ == player_label(self@),
    {
        let mut out = String::new();
        push_label(&mut out, self);
        assert(out@ =~= player_label(self@));
        out
    }
}

impl Reconstruct {
    fn me_exec(&self) -> (r: Option<&Player>)
        ensures
            match r {
                Some(p) => me(self@) == Some(p@),
                None => me(self@) is None,
            },
    {
        match self.myid {
            Some(id) => {
                if id < self.players.len() {
                    match &self.players[id] {
                        Some(p) => Some(p),
                        None => None,
                    }
                } else {
                    None
                }
            },
            None => None,
        }
    }

    fn push_progress(&self, out: &mut String)
        ensures
            final(out)@ == old(out)@ + progress_text(self@),
    {
        out.append("Finished players: ");
        push_usize(out, self.finishedplayers);
        out.append("/");
        push_usize(out, self.totalplayers);
        out.append("\n");
        assert(out@ =~= old(out)@ + progress_text(self@));
    }

    /// Stage, progress, the local player's score, placement and finish time,
    /// and, while running, the time since the start at time `now`.
    pub fn print_infos(&self, now: u64) -> (r: String)
        ensures
            r@ == infos_text(self@, now),
    {
        let mut out = String::new();
        out.append("Stage: ");
        out.append(truncate(self.stage.as_str(), 20));
        out.append("\n");
        self.push_progress(&mut out);
        let ghost head = out@;
        match self.me_exec() {
            Some(p) => {
                out.append("My score ");
                push_usize(&mut out, p.score);
                out.append(", #");
                push_usize(&mut out, self.myscore);
                out.append("\n");
                if p.died {
                    out.append("finish time : ");
                    push_seconds(&mut out, p.lifetime);
                    out.append("\n");
                }
            },
            None => {},
        }
        let ghost mid = out@;
        if self.running {
            out.append("Current Time : ");
            let e = if now >= self.starttime {
                now - self.starttime
            } else {
                0
            };
            push_seconds(&mut out, e);
            out.append("\n");
        }
        assert(out@ =~= infos_text(self@, now));
        out
    }

    fn push_squad_row(&self, out: &mut String, id: usize)
        requires
            id < self.players@.len(),
            self.players@[id as int] is Some,
        ensures
            final(out)@ == old(out)@ + squad_row(self@.players[id as int].unwrap()),
    {
        match &self.players[id] {
            Some(p) => {
                push_mark(out, p);
                push_padded(out, truncate(p.name.as_str(), 6), 6);
                out.append("\t");
                push_usize(out, p.score);
                out.append("\n");
                assert(out@ =~= old(out)@ + squad_row(p@));
            },
            None => {},
        }
    }

    /// The local player's squad in display order, one line per player: its
    /// mark, its name cut and padded to 6 characters, a tab and its score.
    pub fn print_my_team(&self) -> (r: String)
        requires
            self.wf(),
        ensures
            exists|o: Seq<usize>| my_squad_listed(self@, o) && r@ == squad_rows(self@, o),
    {
        let o = self.my_team_order();
        let mut out = String::new();
        let mut k: usize = 0;
        while k < o.len()
            invariant
                self.wf(),
                my_squad_listed(self@, o@),
                k <= o@.len(),
                out@ == squad_rows(self@, o@.subrange(0, k as int)),
            decreases o@.len() - k,
        {
            proof {
                assert(crate::board::selected(self@, o@[k as int] as int, my_squad(self@)));
            }
            self.push_squad_row(&mut out, o[k]);
            proof {
                assert(o@.subrange(0, k + 1).drop_last() =~= o@.subrange(0, k as int));
            }
            k = k + 1;
        }
        assert(o@.subrange(0, o@.len() as int) =~= o@);
        out
    }

    fn member_counts(&self, members: &Vec<usize>) -> (r: (usize, usize))
        ensures
            r.0 as nat == finished_count(self@, members@),
            r.1 as nat == died_count(self@, members@),
    {
        let mut fin: usize = 0;
        let mut died: usize = 0;
        let mut k: usize = 0;
        assert(members@.subrange(0, 0) =~= Seq::<usize>::empty());
        while k < members.len()
            invariant
                k <= members@.len(),
                fin as nat == finished_count(self@, members@.subrange(0, k as int)),
                died as nat == died_count(self@, members@.subrange(0, k as int)),
                fin <= k,
                died <= k,
            decreases members@.len() - k,
        {
            let id = members[k];
            proof {
                assert(members@.subrange(0, k + 1).drop_last() =~= members@.subrange(0, k as int));
            }
            if id < self.players.len() {
                match &self.players[id] {
                    Some(p) => {
                        if p.finished {
                            fin = fin + 1;
                        }
                        if p.died {
                            died = died + 1;
                        }
                    },
                    None => {},
                }
            }
            k = k + 1;
        }
        assert(members@.subrange(0, members@.len() as int) =~= members@);
        (fin, died)
    }

    #[verifier::rlimit(60)]
    fn push_team_row(&self, out: &mut String, q: usize, rank: usize)
        requires
            self.wf(),
            q < self.teams@.len(),
            self.teams@[q as int] is Some,
        ensures
            final(out)@ == old(out)@ + team_row(self@, q, rank as nat),
    {
        let mine = match self.my_squad_exec() {
            Some(m) => m == q,
            None => false,
        };
        match &self.teams[q] {
            Some(t) => {
                let (fin, died) = self.member_counts(&t.players);
                push_usize(out, rank);
                if mine {
                    out.append(".\u{2605}");
                } else {
                    out.append(". ");
                }
                out.append("Team ");
                push_usize(out, q);
                out.append(":\t");
                push_usize(out, t.score);
                out.append(", ");
                push_usize(out, fin);
                out.append("/");
                push_usize(out, died);
                out.append("/");
                push_usize(out, t.players.len());
                out.append("\n");
                assert(out@ =~= old(out)@ + team_row(self@, q, rank as nat));
            },
            None => {},
        }
    }

    /// The teams best first, one line per team: rank, squad id, score, and
    /// how many members finished, died, and are listed.
    pub fn print_team(&self) -> (r: String)
        requires
            self.wf(),
        ensures
            exists|o: Seq<usize>| ranked(self@, o) && r@ == team_rows(self@, o),
    {
        let o = self.ranked_teams();
        let mut out = String::new();
        let mut k: usize = 0;
        while k < o.len()
            invariant
                self.wf(),
                ranked(self@, o@),
                k <= o@.len(),
                out@ == team_rows(self@, o@.subrange(0, k as int)),
            decreases o@.len() - k,
        {
            proof {
                assert(o@[k as int] < self@.teams.len());
            }
            self.push_team_row(&mut out, o[k], k + 1);
            proof {
                assert(o@.subrange(0, k + 1).drop_last() =~= o@.subrange(0, k as int));
            }
            k = k + 1;
        }
        assert(o@.subrange(0, o@.len() as int) =~= o@);
        out
    }

    #[verifier::rlimit(60)]
    fn push_summary_head(&self, out: &mut String, now: u64)
        ensures
            final(out)@ == old(out)@ + summary_head(self@, now),
    {
        out.append("Stage: ");
        out.append(self.stage.as_str());
        out.append("\n");
        self.push_progress(out);
        match self.me_exec() {
            Some(p) => {
                out.append("Me: ");
                push_label(out, p);
                out.append(": score ");
                push_usize(out, p.score);
                out.append(", #");
                push_usize(out, self.myscore);
                out.append("\n");
                if p.died {
                    out.append("time: ");
                    push_decimal(out, p.lifetime / 1000);
                    out.append("\n");
                }
            },
            None => {},
        }
        if self.running {
            out.append("Time: ");
            let e = if now >= self.starttime {
                now - self.starttime
            } else {
                0
            };
            push_seconds(out, e);
            out.append("\n");
        }
        assert(out@ =~= old(out)@ + summary_head(self@, now));
    }

    /// The whole state as text at time `now`: stage, progress, the local
    /// player, the time since the start while running, and every player in
    /// display order.
    pub fn summary(&self, now: u64) -> (r: String)
        requires
            self.wf(),
        ensures
            exists|o: Seq<usize>| displayed(self@, o, None) && r@ == summary_text(self@, now, o),
    {
        let mut out = String::new();
        self.push_summary_head(&mut out, now);
        let ghost head = out@;
        let o = self.player_order();
        let mut k: usize = 0;
        while k < o.len()
            invariant
                self.wf(),
                displayed(self@, o@, None),
                k <= o@.len(),
                out@ == head + roster_rows(self@, o@.subrange(0, k as int)),
            decreases o@.len() - k,
        {
            proof {
                assert(crate::board::selected(self@, o@[k as int] as int, None));
            }
            match &self.players[o[k]] {
                Some(p) => {
                    push_label(&mut out, p);
                    out.append(": score ");
                    push_usize(&mut out, p.score);
                    out.append("\n");
                },
                None => {},
            }
            proof {
                assert(o@.subrange(0, k + 1).drop_last() =~= o@.subrange(0, k as int));
                assert(out@ =~= head + roster_rows(self@, o@.subrange(0, k + 1)));
            }
            k = k + 1;
        }
        assert(o@.subrange(0, o@.len() as int) =~= o@);
        assert(out@ =~= summary_text(self@, now, o@)) by {
            assert(head =~= summary_head(self@, now));
        }
        out
    }
}

} // verus!
