//! The line classifier: one raw log line to one `ParseLineResult`.
//!
//! A line is `<stamp> <tag> <rest>`. The tag picks a category; each category
//! reads its fields with a fixed pattern, and a pattern that does not fit makes
//! the line `Unhandled`. Classification never fails.
use vstd::prelude::*;
use crate::event::{LineEvent, ParseLineResult, UNASSIGNED_SQUAD};
use crate::grammar::{
    lit_at, lit_matches, number_at, parse_number, run_end, scan, span_is, CharClass,
    lemma_run_end_bounds,
};

verus! {

/// Position after the literal `t` where it stands at `i`.
pub open spec fn after_lit(s: Seq<char>, i: int, t: Seq<char>) -> Option<int> {
    if lit_at(s, i, t) {
        Some(i + t.len())
    } else {
        None
    }
}

pub open spec fn as_pos(r: Option<usize>) -> Option<int> {
    match r {
        Some(x) => Some(x as int),
        None => None,
    }
}

/// A number at `i` read up to the end of its digits, then the literal `t`:
/// the number and the position after `t`.
pub open spec fn number_then(s: Seq<char>, i: int, t: Seq<char>) -> Option<(usize, int)> {
    let d = run_end(s, i, CharClass::Digit);
    match number_at(s, i, d) {
        Some(v) => match after_lit(s, d, t) {
            Some(e) => Some((v, e)),
            None => None,
        },
        None => None,
    }
}

pub open spec fn as_num_pos(r: Option<(usize, usize)>) -> Option<(usize, int)> {
    match r {
        Some((v, e)) => Some((v, e as int)),
        None => None,
    }
}

/// Position after the leading time stamp, which is the first token, and the
/// space that ends it.
pub open spec fn head_end(s: Seq<char>) -> Option<int> {
    after_lit(s, run_end(s, 0, CharClass::NotSpace), " "@)
}

/// Position after the time stamp and a bracketed word tag followed by a space.
pub open spec fn tagged_end(s: Seq<char>) -> Option<int> {
    match head_end(s) {
        Some(h) => match after_lit(s, h, "["@) {
            Some(a) => after_lit(s, run_end(s, a, CharClass::Word), "] "@),
            None => None,
        },
        None => None,
    }
}

fn after(s: &Vec<char>, i: usize, t: &str) -> (r: Option<usize>)
    requires
        i <= s@.len(),
    ensures
        as_pos(r) == after_lit(s@, i as int, t@),
        r matches Some(e) ==> e <= s@.len(),
{
    let n = t.unicode_len();
    let len = s.len();
    if lit_matches(s, i, t) {
        assert(i + n <= len);
        Some(i + n)
    } else {
        None
    }
}

fn number_and(s: &Vec<char>, i: usize, t: &str) -> (r: Option<(usize, usize)>)
    requires
        i <= s@.len(),
    ensures
        as_num_pos(r) == number_then(s@, i as int, t@),
        r matches Some((_, e)) ==> e <= s@.len(),
{
    let d = scan(s, i, CharClass::Digit);
    proof {
        lemma_run_end_bounds(s@, i as int, CharClass::Digit);
    }
    match parse_number(s, i, d) {
        Some(v) => match after(s, d, t) {
            Some(e) => Some((v, e)),
            None => None,
        },
        None => None,
    }
}

fn head(s: &Vec<char>) -> (r: Option<usize>)
    ensures
        as_pos(r) == head_end(s@),
        r matches Some(e) ==> e <= s@.len(),
{
    let j = scan(s, 0, CharClass::NotSpace);
    after(s, j, " ")
}

fn tagged(s: &Vec<char>) -> (r: Option<usize>)
    ensures
        as_pos(r) == tagged_end(s@),
        r matches Some(e) ==> e <= s@.len(),
{
    match head(s) {
        Some(h) => match after(s, h, "[") {
            Some(a) => {
                let w = scan(s, a, CharClass::Word);
                after(s, w, "] ")
            },
            None => None,
        },
        None => None,
    }
}

pub open spec fn opt_view(r: Option<ParseLineResult>) -> Option<LineEvent> {
    match r {
        Some(e) => Some(e@),
        None => None,
    }
}

/// Name shown for a bot, which the log does not name.
pub open spec fn bot_name() -> Seq<char> {
    "\u{1F916}"@
}

/// `Finalising spawn for player FallGuy [<id>] <name> (<platform>)`: a spawn
/// whose squad is not known yet.
pub open spec fn spawn_pattern(s: Seq<char>) -> Option<LineEvent> {
    match tagged_end(s) {
        None => None,
        Some(p) => match after_lit(s, p, "Finalising spawn for player FallGuy ["@) {
            None => None,
            Some(a) => match number_then(s, a, "] "@) {
                None => None,
                Some((id, n0)) => {
                    let paren = run_end(s, n0, CharClass::NotParen);
                    if n0 <= paren - 1 {
                        match after_lit(s, paren - 1, " ("@) {
                            None => None,
                            Some(q) => {
                                let w = run_end(s, q, CharClass::Word);
                                if lit_at(s, w, ")"@) {
                                    Some(
                                        LineEvent::Spawned(
                                            s.subrange(n0, paren - 1),
                                            s.subrange(q, w),
                                            id,
                                            UNASSIGNED_SQUAD,
                                        ),
                                    )
                                } else {
                                    None
                                }
                            },
                        }
                    } else {
                        None
                    }
                },
            },
        },
    }
}

/// A tagged line whose text after the tag starts with `lead`, a number, and `]`.
pub open spec fn bracket_number_pattern(s: Seq<char>, lead: Seq<char>) -> Option<usize> {
    match tagged_end(s) {
        None => None,
        Some(p) => match after_lit(s, p, lead) {
            None => None,
            Some(a) => match number_then(s, a, "]"@) {
                None => None,
                Some((n, _)) => Some(n),
            },
        },
    }
}

/// `Handling bootstrap for ... player FallGuy [<num>] (<word>), playerID = <id>,
/// squadID = <squad>`, with `lead` the text up to the first number.
pub open spec fn bootstrap_pattern(s: Seq<char>, lead: Seq<char>) -> Option<(usize, usize, usize)> {
    match tagged_end(s) {
        None => None,
        Some(p) => match after_lit(s, p, lead) {
            None => None,
            Some(a) => match number_then(s, a, "] ("@) {
                None => None,
                Some((pn, b)) => match after_lit(
                    s,
                    run_end(s, b, CharClass::WordDot),
                    "), playerID = "@,
                ) {
                    None => None,
                    Some(c) => match number_then(s, c, ", squadID = "@) {
                        None => None,
                        Some((pid, d)) => match number_then(s, d, ""@) {
                            None => None,
                            Some((sq, _)) => Some((pn, pid, sq)),
                        },
                    },
                },
            },
        },
    }
}

/// Position of the last `_` in `s[a..m]`.
pub open spec fn last_underscore(s: Seq<char>, a: int, m: int) -> Option<int>
    decreases m - a,
{
    if m <= a {
        None
    } else if s[m - 1] == '_' {
        Some(m - 1)
    } else {
        last_underscore(s, a, m - 1)
    }
}

/// `Adding Spectator target <word>_<name> (<platform>) with Party ID: <digits
/// and spaces> Squad ID: <squad> and playerID: <id>`: a spawn with its squad.
pub open spec fn spectator_pattern(s: Seq<char>) -> Option<LineEvent> {
    match tagged_end(s) {
        None => None,
        Some(p) => match after_lit(s, p, "Adding Spectator target "@) {
            None => None,
            Some(a) => match last_underscore(s, a, run_end(s, a, CharClass::Word)) {
                None => None,
                Some(u) => {
                    let n0 = u + 1;
                    let paren = run_end(s, n0, CharClass::NotParen);
                    if n0 <= paren - 1 {
                        match after_lit(s, paren - 1, " ("@) {
                            None => None,
                            Some(q) => {
                                let w = run_end(s, q, CharClass::Word);
                                match after_lit(s, w, ") with Party ID: "@) {
                                    None => None,
                                    Some(r) => {
                                        let ds = run_end(s, r, CharClass::DigitSpace);
                                        if r <= ds - 1 {
                                            match after_lit(s, ds - 1, " Squad ID: "@) {
                                                None => None,
                                                Some(e) => match number_then(
                                                    s,
                                                    e,
                                                    " and playerID: "@,
                                                ) {
                                                    None => None,
                                                    Some((sq, f)) => match number_then(
                                                        s,
                                                        f,
                                                        ""@,
                                                    ) {
                                                        None => None,
                                                        Some((pid, _)) => Some(
                                                            LineEvent::Spawned(
                                                                s.subrange(n0, paren - 1),
                                                                s.subrange(q, w),
                                                                pid,
                                                                sq,
                                                            ),
                                                        ),
                                                    },
                                                },
                                            }
                                        } else {
                                            None
                                        }
                                    },
                                }
                            },
                        }
                    } else {
                        None
                    }
                },
            },
        },
    }
}

/// `ClientGameManager::HandleServerPlayerProgress PlayerId=<id> is
/// succeeded=<word>`: finished exactly when the word is `True`.
pub open spec fn success_pattern(s: Seq<char>) -> Option<LineEvent> {
    match head_end(s) {
        None => None,
        Some(h) => match after_lit(
            s,
            h,
            "ClientGameManager::HandleServerPlayerProgress PlayerId="@,
        ) {
            None => None,
            Some(a) => match number_then(s, a, " is succeeded="@) {
                None => None,
                Some((id, b)) => Some(
                    LineEvent::Success(
                        id,
                        s.subrange(b, run_end(s, b, CharClass::Word)) == "True"@,
                    ),
                ),
            },
        },
    }
}

/// `[ClientGameSession] NumPlayersAchievingObjective=<count>`
pub open spec fn objective_pattern(s: Seq<char>) -> Option<LineEvent> {
    match head_end(s) {
        None => None,
        Some(h) => match after_lit(s, h, "[ClientGameSession] NumPlayersAchievingObjective="@) {
            None => None,
            Some(a) => match number_then(s, a, ""@) {
                None => None,
                Some((n, _)) => Some(LineEvent::NumPlayersAchievingObjective(n)),
            },
        },
    }
}

/// `Loading game level scene <word>`
pub open spec fn stage_pattern(s: Seq<char>) -> Option<LineEvent> {
    match tagged_end(s) {
        None => None,
        Some(p) => match after_lit(s, p, "Loading game level scene "@) {
            None => None,
            Some(a) => Some(LineEvent::LoadedStage(s.subrange(a, run_end(s, a, CharClass::Word)))),
        },
    }
}

/// `[GameSession] Changing state from Countdown to Playing`
pub open spec fn start_pattern(s: Seq<char>) -> bool {
    match head_end(s) {
        None => false,
        Some(h) => after_lit(s, h, "[GameSession] Changing state from Countdown to Playing"@) is Some,
    }
}

/// The characters `a..b` of `line`.
pub(crate) fn text(line: &str, a: usize, b: usize) -> (r: String)
    requires
        a <= b <= line@.len(),
    ensures
        r@ == line@.subrange(a as int, b as int),
{
    line.substring_char(a, b).to_owned()
}

fn spawn(s: &Vec<char>, line: &str) -> (r: Option<ParseLineResult>)
    requires
        s@ == line@,
    ensures
        opt_view(r) == spawn_pattern(s@),
{
    let p = match tagged(s) {
        Some(p) => p,
        None => return None,
    };
    let a = match after(s, p, "Finalising spawn for player FallGuy [") {
        Some(a) => a,
        None => return None,
    };
    let (id, n0) = match number_and(s, a, "] ") {
        Some(x) => x,
        None => return None,
    };
    let paren = scan(s, n0, CharClass::NotParen);
    if paren == 0 || n0 > paren - 1 {
        return None;
    }
    let q = match after(s, paren - 1, " (") {
        Some(q) => q,
        None => return None,
    };
    let w = scan(s, q, CharClass::Word);
    if !lit_matches(s, w, ")") {
        return None;
    }
    Some(ParseLineResult::Spawned(text(line, n0, paren - 1), text(line, q, w), id, UNASSIGNED_SQUAD))
}

fn bracket_number(s: &Vec<char>, lead: &str) -> (r: Option<usize>)
    ensures
        r == bracket_number_pattern(s@, lead@),
{
    let p = match tagged(s) {
        Some(p) => p,
        None => return None,
    };
    let a = match after(s, p, lead) {
        Some(a) => a,
        None => return None,
    };
    match number_and(s, a, "]") {
        Some((n, _)) => Some(n),
        None => None,
    }
}

fn bootstrap(s: &Vec<char>, lead: &str) -> (r: Option<(usize, usize, usize)>)
    ensures
        r == bootstrap_pattern(s@, lead@),
{
    let p = match tagged(s) {
        Some(p) => p,
        None => return None,
    };
    let a = match after(s, p, lead) {
        Some(a) => a,
        None => return None,
    };
    let (pn, b) = match number_and(s, a, "] (") {
        Some(x) => x,
        None => return None,
    };
    let w = scan(s, b, CharClass::WordDot);
    let c = match after(s, w, "), playerID = ") {
        Some(c) => c,
        None => return None,
    };
    let (pid, d) = match number_and(s, c, ", squadID = ") {
        Some(x) => x,
        None => return None,
    };
    match number_and(s, d, "") {
        Some((sq, _)) => Some((pn, pid, sq)),
        None => None,
    }
}

fn find_last_underscore(s: &Vec<char>, a: usize, w: usize) -> (r: Option<usize>)
    requires
        a <= w <= s@.len(),
    ensures
        as_pos(r) == last_underscore(s@, a as int, w as int),
        r matches Some(u) ==> a <= u < w,
{
    let mut m: usize = w;
    while m > a
        invariant
            a <= m <= w <= s@.len(),
            last_underscore(s@, a as int, m as int) == last_underscore(s@, a as int, w as int),
        decreases m - a,
    {
        if s[m - 1] == '_' {
            return Some(m - 1);
        }
        m = m - 1;
    }
    None
}

fn spectator(s: &Vec<char>, line: &str) -> (r: Option<ParseLineResult>)
    requires
        s@ == line@,
    ensures
        opt_view(r) == spectator_pattern(s@),
{
    let p = match tagged(s) {
        Some(p) => p,
        None => return None,
    };
    let a = match after(s, p, "Adding Spectator target ") {
        Some(a) => a,
        None => return None,
    };
    let w0 = scan(s, a, CharClass::Word);
    let u = match find_last_underscore(s, a, w0) {
        Some(u) => u,
        None => return None,
    };
    let n0 = u + 1;
    let paren = scan(s, n0, CharClass::NotParen);
    if paren == 0 || n0 > paren - 1 {
        return None;
    }
    let q = match after(s, paren - 1, " (") {
        Some(q) => q,
        None => return None,
    };
    let w = scan(s, q, CharClass::Word);
    let r0 = match after(s, w, ") with Party ID: ") {
        Some(r0) => r0,
        None => return None,
    };
    let ds = scan(s, r0, CharClass::DigitSpace);
    if ds == 0 || r0 > ds - 1 {
        return None;
    }
    let e = match after(s, ds - 1, " Squad ID: ") {
        Some(e) => e,
        None => return None,
    };
    let (sq, f) = match number_and(s, e, " and playerID: ") {
        Some(x) => x,
        None => return None,
    };
    match number_and(s, f, "") {
        Some((pid, _)) => Some(
            ParseLineResult::Spawned(text(line, n0, paren - 1), text(line, q, w), pid, sq),
        ),
        None => None,
    }
}

fn success(s: &Vec<char>) -> (r: Option<ParseLineResult>)
    ensures
        opt_view(r) == success_pattern(s@),
{
    let h = match head(s) {
        Some(h) => h,
        None => return None,
    };
    let a = match after(s, h, "ClientGameManager::HandleServerPlayerProgress PlayerId=") {
        Some(a) => a,
        None => return None,
    };
    let (id, b) = match number_and(s, a, " is succeeded=") {
        Some(x) => x,
        None => return None,
    };
    let w = scan(s, b, CharClass::Word);
    Some(ParseLineResult::Success(id, span_is(s, b, w, "True")))
}

fn objective(s: &Vec<char>) -> (r: Option<ParseLineResult>)
    ensures
        opt_view(r) == objective_pattern(s@),
{
    let h = match head(s) {
        Some(h) => h,
        None => return None,
    };
    let a = match after(s, h, "[ClientGameSession] NumPlayersAchievingObjective=") {
        Some(a) => a,
        None => return None,
    };
    match number_and(s, a, "") {
        Some((n, _)) => Some(ParseLineResult::NumPlayersAchievingObjective(n)),
        None => None,
    }
}

fn stage(s: &Vec<char>, line: &str) -> (r: Option<ParseLineResult>)
    requires
        s@ == line@,
    ensures
        opt_view(r) == stage_pattern(s@),
{
    let p = match tagged(s) {
        Some(p) => p,
        None => return None,
    };
    match after(s, p, "Loading game level scene ") {
        Some(a) => {
            let w = scan(s, a, CharClass::Word);
            Some(ParseLineResult::LoadedStage(text(line, a, w)))
        },
        None => None,
    }
}

fn start(s: &Vec<char>) -> (r: bool)
    ensures
        r == start_pattern(s@),
{
    match head(s) {
        Some(h) => after(s, h, "[GameSession] Changing state from Countdown to Playing").is_some(),
        None => false,
    }
}

/// The token that follows the space at `e`: its start and end.
pub open spec fn token_after(s: Seq<char>, e: int) -> Option<(int, int)> {
    if 0 <= e < s.len() {
        Some((e + 1, run_end(s, e + 1, CharClass::NotSpace)))
    } else {
        None
    }
}

/// The token after the space at `e` is exactly `w`.
pub open spec fn token_is(s: Seq<char>, e: int, w: Seq<char>) -> bool {
    match token_after(s, e) {
        Some((a, b)) => s.subrange(a, b) == w,
        None => false,
    }
}

/// The token `s[a..b]` written in decimal digits only.
pub open spec fn numeric_token(s: Seq<char>, a: int, b: int) -> Option<usize> {
    if run_end(s, a, CharClass::Digit) == b {
        number_at(s, a, b)
    } else {
        None
    }
}

/// `Player <playernum> <any> <any> <score>`, `e` being the end of `Player`.
pub open spec fn score_pattern(s: Seq<char>, e: int) -> Option<LineEvent> {
    match token_after(s, e) {
        None => None,
        Some((a3, e3)) => match numeric_token(s, a3, e3) {
            None => None,
            Some(pn) => match token_after(s, e3) {
                None => None,
                Some((_, e4)) => match token_after(s, e4) {
                    None => None,
                    Some((_, e5)) => match token_after(s, e5) {
                        None => None,
                        Some((a6, e6)) => match numeric_token(s, a6, e6) {
                            None => None,
                            Some(sc) => Some(LineEvent::Score(pn, sc)),
                        },
                    },
                },
            },
        },
    }
}

/// Lines of the game manager, `e` being the end of the tag.
pub open spec fn manager_event(s: Seq<char>, e: int) -> LineEvent {
    if token_is(s, e, "Shutdown"@) {
        LineEvent::Shutdown
    } else if token_is(s, e, "Finalising"@) {
        match spawn_pattern(s) {
            Some(ev) => ev,
            None => match bracket_number_pattern(
                s,
                "Finalising spawn for player PB_FallGuyBot ["@,
            ) {
                Some(id) => LineEvent::Spawned(bot_name(), bot_name(), id, UNASSIGNED_SQUAD),
                None => LineEvent::Unhandled(s),
            },
        }
    } else if token_is(s, e, "Handling"@) {
        let e3 = token_after(s, e).unwrap().1;
        if token_is(s, e3, "bootstrap"@) {
            match bootstrap_pattern(s, "Handling bootstrap for remote player FallGuy ["@) {
                Some((pn, pid, sq)) => LineEvent::SpawnMatch(pn, pid, sq),
                None => match bootstrap_pattern(
                    s,
                    "Handling bootstrap for local player FallGuy ["@,
                ) {
                    Some((pn, pid, sq)) => LineEvent::SpawnMatchMe(pn, pid, sq),
                    None => LineEvent::Unhandled(s),
                },
            }
        } else if token_is(s, e3, "unspawn"@) {
            match bracket_number_pattern(s, "Handling unspawn for player FallGuy ["@) {
                Some(n) => LineEvent::Unspawn(n),
                None => match bracket_number_pattern(
                    s,
                    "Handling unspawn for player PB_FallGuyBot ["@,
                ) {
                    Some(n) => LineEvent::Unspawn(n),
                    None => LineEvent::Unhandled(s),
                },
            }
        } else {
            LineEvent::Unhandled(s)
        }
    } else {
        LineEvent::Unhandled(s)
    }
}

pub open spec fn or_unhandled(r: Option<LineEvent>, s: Seq<char>) -> LineEvent {
    match r {
        Some(ev) => ev,
        None => LineEvent::Unhandled(s),
    }
}

/// The event that the line `s` carries. The first token (the time stamp) is
/// skipped and the second one picks the category; a line without a space is
/// `Misc`, as is one of no known category.
pub open spec fn classify(s: Seq<char>) -> LineEvent {
    let t1 = run_end(s, 0, CharClass::NotSpace);
    if t1 >= s.len() {
        LineEvent::Misc
    } else {
        let t2 = run_end(s, t1 + 1, CharClass::NotSpace);
        let tag = s.subrange(t1 + 1, t2);
        if tag == "[ClientGameSession]"@ {
            or_unhandled(objective_pattern(s), s)
        } else if tag == "[ClientGameManager]"@ {
            manager_event(s, t2)
        } else if tag == "[CameraDirector]"@ {
            if token_is(s, t2, "Adding"@) {
                or_unhandled(spectator_pattern(s), s)
            } else {
                LineEvent::Unhandled(s)
            }
        } else if tag == "ClientGameManager::HandleServerPlayerProgress"@ {
            or_unhandled(success_pattern(s), s)
        } else if tag == "[StateGameLoading]"@ {
            if token_is(s, t2, "Loading"@) {
                or_unhandled(stage_pattern(s), s)
            } else {
                LineEvent::Unhandled(s)
            }
        } else if tag == "Player"@ {
            or_unhandled(score_pattern(s, t2), s)
        } else if tag == "[GameSession]"@ {
            if start_pattern(s) {
                LineEvent::Start
            } else {
                LineEvent::UnhandledGameSession(s)
            }
        } else {
            LineEvent::Misc
        }
    }
}

fn next_token(s: &Vec<char>, e: usize) -> (r: Option<(usize, usize)>)
    requires
        e <= s@.len(),
    ensures
        match r {
            Some((a, b)) => token_after(s@, e as int) == Some((a as int, b as int)) && a <= b
                <= s@.len(),
            None => token_after(s@, e as int) is None,
        },
{
    if e < s.len() {
        let b = scan(s, e + 1, CharClass::NotSpace);
        Some((e + 1, b))
    } else {
        None
    }
}

fn next_token_is(s: &Vec<char>, e: usize, w: &str) -> (r: bool)
    requires
        e <= s@.len(),
    ensures
        r == token_is(s@, e as int, w@),
{
    match next_token(s, e) {
        Some((a, b)) => span_is(s, a, b, w),
        None => false,
    }
}

fn number_token(s: &Vec<char>, a: usize, b: usize) -> (r: Option<usize>)
    requires
        a <= b <= s@.len(),
    ensures
        r == numeric_token(s@, a as int, b as int),
{
    let d = scan(s, a, CharClass::Digit);
    proof {
        lemma_run_end_bounds(s@, a as int, CharClass::Digit);
    }
    if d == b {
        parse_number(s, a, b)
    } else {
        None
    }
}

fn score(s: &Vec<char>, e: usize) -> (r: Option<ParseLineResult>)
    requires
        e <= s@.len(),
    ensures
        opt_view(r) == score_pattern(s@, e as int),
{
    let (a3, e3) = match next_token(s, e) {
        Some(x) => x,
        None => return None,
    };
    let pn = match number_token(s, a3, e3) {
        Some(x) => x,
        None => return None,
    };
    let (_, e4) = match next_token(s, e3) {
        Some(x) => x,
        None => return None,
    };
    let (_, e5) = match next_token(s, e4) {
        Some(x) => x,
        None => return None,
    };
    let (a6, e6) = match next_token(s, e5) {
        Some(x) => x,
        None => return None,
    };
    match number_token(s, a6, e6) {
        Some(sc) => Some(ParseLineResult::Score(pn, sc)),
        None => None,
    }
}

fn unhandled(line: &str) -> (r: ParseLineResult)
    ensures
        r@ == LineEvent::Unhandled(line@),
{
    ParseLineResult::Unhandled(line.to_owned())
}

fn manager(s: &Vec<char>, line: &str, e: usize) -> (r: ParseLineResult)
    requires
        s@ == line@,
        e <= s@.len(),
    ensures
        r@ == manager_event(s@, e as int),
{
    if next_token_is(s, e, "Shutdown") {
        ParseLineResult::Shutdown
    } else if next_token_is(s, e, "Finalising") {
        match spawn(s, line) {
            Some(ev) => ev,
            None => match bracket_number(s, "Finalising spawn for player PB_FallGuyBot [") {
                Some(id) => ParseLineResult::Spawned(
                    String::from_str("\u{1F916}"),
                    String::from_str("\u{1F916}"),
                    id,
                    UNASSIGNED_SQUAD,
                ),
                None => unhandled(line),
            },
        }
    } else if next_token_is(s, e, "Handling") {
        let (_, e3) = next_token(s, e).unwrap();
        if next_token_is(s, e3, "bootstrap") {
            match bootstrap(s, "Handling bootstrap for remote player FallGuy [") {
                Some((pn, pid, sq)) => ParseLineResult::SpawnMatch(pn, pid, sq),
                None => match bootstrap(s, "Handling bootstrap for local player FallGuy [") {
                    Some((pn, pid, sq)) => ParseLineResult::SpawnMatchMe(pn, pid, sq),
                    None => unhandled(line),
                },
            }
        } else if next_token_is(s, e3, "unspawn") {
            match bracket_number(s, "Handling unspawn for player FallGuy [") {
                Some(n) => ParseLineResult::Unspawn(n),
                None => match bracket_number(s, "Handling unspawn for player PB_FallGuyBot [") {
                    Some(n) => ParseLineResult::Unspawn(n),
                    None => unhandled(line),
                },
            }
        } else {
            unhandled(line)
        }
    } else {
        unhandled(line)
    }
}

fn or_unhandled_exec(r: Option<ParseLineResult>, line: &str) -> (e: ParseLineResult)
    ensures
        e@ == or_unhandled(opt_view(r), line@),
{
    match r {
        Some(ev) => ev,
        None => unhandled(line),
    }
}

/// The characters of `line`, one element each.
pub fn chars_of(line: &str) -> (v: Vec<char>)
    ensures
        v@ == line@,
{
    let n = line.unicode_len();
    let mut v: Vec<char> = Vec::new();
    let mut i: usize = 0;
    while i < n
        invariant
            n == line@.len(),
            i <= n,
            v@ == line@.subrange(0, i as int),
        decreases n - i,
    {
        v.push(line.get_char(i));
        i = i + 1;
        assert(v@ =~= line@.subrange(0, i as int));
    }
    assert(v@ =~= line@);
    v
}

/// Classifies one raw log line. Never fails: a line of a known category whose
/// fields cannot be read is `Unhandled`, any other unknown line is `Misc`.
pub fn parse_line(line: &str) -> (r: ParseLineResult)
    ensures
        r@ == classify(line@),
{
    let s = chars_of(line);
    let t1 = scan(&s, 0, CharClass::NotSpace);
    if t1 >= s.len() {
        return ParseLineResult::Misc;
    }
    let t2 = scan(&s, t1 + 1, CharClass::NotSpace);
    if span_is(&s, t1 + 1, t2, "[ClientGameSession]") {
        or_unhandled_exec(objective(&s), line)
    } else if span_is(&s, t1 + 1, t2, "[ClientGameManager]") {
        manager(&s, line, t2)
    } else if span_is(&s, t1 + 1, t2, "[CameraDirector]") {
        if next_token_is(&s, t2, "Adding") {
            or_unhandled_exec(spectator(&s, line), line)
        } else {
            unhandled(line)
        }
    } else if span_is(&s, t1 + 1, t2, "ClientGameManager::HandleServerPlayerProgress") {
        or_unhandled_exec(success(&s), line)
    } else if span_is(&s, t1 + 1, t2, "[StateGameLoading]") {
        if next_token_is(&s, t2, "Loading") {
            or_unhandled_exec(stage(&s, line), line)
        } else {
            unhandled(line)
        }
    } else if span_is(&s, t1 + 1, t2, "Player") {
        or_unhandled_exec(score(&s, t2), line)
    } else if span_is(&s, t1 + 1, t2, "[GameSession]") {
        if start(&s) {
            ParseLineResult::Start
        } else {
            ParseLineResult::UnhandledGameSession(line.to_owned())
        }
    } else {
        ParseLineResult::Misc
    }
}

} // verus!
