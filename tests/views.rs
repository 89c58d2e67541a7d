use fallguys_tracker::text::truncate;
use fallguys_tracker::{ParseLineResult, Player, Reconstruct, Tailer};

fn spawned(name: &str, platform: &str, id: usize, squad: usize) -> ParseLineResult {
    ParseLineResult::Spawned(name.to_string(), platform.to_string(), id, squad)
}

fn sample() -> Reconstruct {
    let mut r = Reconstruct::new();
    r.push(ParseLineResult::LoadedStage("FallGuy_DoorDash_01".to_string()), 0).unwrap();
    r.push(spawned("Alexandra", "PC", 0, 2), 0).unwrap();
    r.push(spawned("Bo", "PS4", 1, 2), 0).unwrap();
    r.push(spawned("Cy", "PC", 2, 5), 0).unwrap();
    r.push(spawned("Di", "PC", 3, 7), 0).unwrap();
    r.push(ParseLineResult::SpawnMatchMe(10, 1, 2), 0).unwrap();
    r.push(ParseLineResult::SpawnMatch(11, 0, 2), 0).unwrap();
    r.push(ParseLineResult::SpawnMatch(12, 2, 5), 0).unwrap();
    r.push(ParseLineResult::SpawnMatch(13, 3, 7), 0).unwrap();
    r.push(ParseLineResult::Score(11, 3), 0).unwrap();
    r.push(ParseLineResult::Score(12, 3), 0).unwrap();
    r.push(ParseLineResult::Score(13, 1), 0).unwrap();
    r
}

#[test]
fn teams_ranked_by_score_then_higher_squad() {
    let r = sample();
    assert_eq!(r.ranked_teams(), vec![5, 2, 7]);
}

#[test]
fn players_by_squad_then_score() {
    let r = sample();
    assert_eq!(r.player_order(), vec![0, 1, 2, 3]);
    assert_eq!(r.my_team_order(), vec![0, 1]);
    assert_eq!(Reconstruct::new().my_team_order(), Vec::<usize>::new());
}

#[test]
fn print_team_lines() {
    let mut r = sample();
    r.push(ParseLineResult::Unspawn(11), 0).unwrap();
    assert_eq!(
        r.print_team(),
        "1. Team 5:\t3, 0/0/1\n2.\u{2605}Team 2:\t3, 0/1/2\n3. Team 7:\t1, 0/0/1\n"
    );
}

#[test]
fn print_my_team_lines() {
    let mut r = sample();
    r.push(ParseLineResult::Success(1, true), 0).unwrap();
    assert_eq!(r.print_my_team(), "\u{2714}\u{fe0f}Bo    \t4\nAlexan\t3\n");
}

#[test]
fn print_infos_lines() {
    let mut r = sample();
    assert_eq!(
        r.print_infos(0),
        "Stage: FallGuy_DoorDash_01\nFinished players: 0/4\nMy score 0, #0\n"
    );
    r.push(ParseLineResult::Start, 1000).unwrap();
    r.push(ParseLineResult::Unspawn(10), 13_456).unwrap();
    assert_eq!(
        r.print_infos(21_004),
        "Stage: FallGuy_DoorDash_01\nFinished players: 0/4\nMy score 0, #0\nfinish time : 12.46\nCurrent Time : 20.00\n"
    );
    r.push(ParseLineResult::LoadedStage("a_stage_name_longer_than_twenty".to_string()), 0).unwrap();
    assert_eq!(
        r.print_infos(1000),
        "Stage: a_stage_name_longer_\nFinished players: 0/0\nCurrent Time : 0.00\n"
    );
}

#[test]
fn summary_lines() {
    let mut r = sample();
    r.push(ParseLineResult::Unspawn(10), 2500).unwrap();
    assert_eq!(
        r.summary(0),
        "Stage: FallGuy_DoorDash_01\nFinished players: 0/4\n\
         Me: \u{2620}\u{fe0f}Bo(PS4) team 2: score 0, #0\ntime: 2\n\
         Alexandra(PC) team 2: score 3\n\
         \u{2620}\u{fe0f}Bo(PS4) team 2: score 0\n\
         Cy(PC) team 5: score 3\n\
         Di(PC) team 7: score 1\n"
    );
}

#[test]
fn player_label() {
    let mut p = Player::new("Ann".to_string(), "win".to_string(), 12);
    assert_eq!(p.label(), "Ann(win) team 12");
    p.finished = true;
    assert_eq!(p.label(), "\u{2714}\u{fe0f}Ann(win) team 12");
}

#[test]
fn truncate_keeps_first_characters() {
    assert_eq!(truncate("abcdef", 3), "abc");
    assert_eq!(truncate("ab", 3), "ab");
    assert_eq!(truncate("\u{1F916}x", 1), "\u{1F916}");
}

#[test]
fn tailer_rewinds_when_file_shrinks() {
    let mut t = Tailer::new(100);
    assert!(!t.observe_len(150));
    assert_eq!(t.accept("half a li"), Vec::<String>::new());
    assert!(t.observe_len(20));
    assert_eq!(t.pending, "");
    assert_eq!(t.last_size, 20);
    assert_eq!(t.accept("fresh\n"), vec!["fresh".to_string()]);
}

#[test]
fn tailer_withholds_partial_line() {
    let mut t = Tailer::new(0);
    assert!(!t.observe_len(30));
    assert_eq!(t.accept("one\r\ntwo\nthr"), vec!["one".to_string(), "two".to_string()]);
    assert_eq!(t.pending, "thr");
    assert!(!t.observe_len(40));
    assert_eq!(t.accept("ee\n\n"), vec!["three".to_string(), "".to_string()]);
    assert_eq!(t.pending, "");
}
