use fallguys_tracker::{ApplyError, ParseLineResult, Player, Reconstruct, UNASSIGNED_SQUAD};

fn spawned(name: &str, platform: &str, id: usize, squad: usize) -> ParseLineResult {
    ParseLineResult::Spawned(name.to_string(), platform.to_string(), id, squad)
}

fn score_of(r: &Reconstruct, id: usize) -> usize {
    r.players[id].as_ref().unwrap().score
}

fn team_score(r: &Reconstruct, squad: usize) -> usize {
    r.teams[squad].as_ref().unwrap().score
}

#[test]
fn new_is_empty() {
    let r = Reconstruct::new();
    assert_eq!(r.playermap.len(), 4000);
    assert_eq!(r.players.len(), 100);
    assert_eq!(r.teams.len(), 60);
    assert!(r.players.iter().all(|p| p.is_none()));
    assert!(r.teams.iter().all(|t| t.is_none()));
    assert_eq!(r.stage, "");
    assert!(!r.running);
    assert_eq!((r.finishedplayers, r.totalplayers, r.myid, r.myscore), (0, 0, None, 0));
    let d = Reconstruct::default();
    assert_eq!(d.players.len(), 100);
}

#[test]
fn player_new_and_default() {
    let p = Player::new("Ann".to_string(), "PC".to_string(), 4);
    assert_eq!(p.name, "Ann");
    assert_eq!(p.platform, "PC");
    assert_eq!((p.squadid, p.score, p.finished, p.died, p.lifetime), (4, 0, false, false, 0));
    let d = Player::default();
    assert_eq!(d.name, "");
    assert_eq!(d.squadid, 0);
}

#[test]
fn spawn_match_then_score() {
    let mut r = Reconstruct::new();
    assert_eq!(r.push(spawned("Ann", "PC", 3, 0), 0), Ok(()));
    assert_eq!(r.push(ParseLineResult::SpawnMatch(7, 3, 0), 0), Ok(()));
    assert_eq!(r.push(ParseLineResult::Score(7, 42), 0), Ok(()));
    assert_eq!(score_of(&r, 3), 42);
    assert_eq!(team_score(&r, 0), 42);
}

#[test]
fn success_places_once() {
    let mut r = Reconstruct::new();
    for id in 0..4 {
        r.push(spawned("P", "PC", id, 1), 0).unwrap();
    }
    assert_eq!((r.totalplayers, r.finishedplayers), (4, 0));
    r.push(ParseLineResult::Success(1, true), 0).unwrap();
    assert_eq!(score_of(&r, 1), 4);
    assert_eq!(r.finishedplayers, 1);
    assert!(r.players[1].as_ref().unwrap().finished);
    r.push(ParseLineResult::Success(1, true), 0).unwrap();
    assert_eq!(score_of(&r, 1), 4);
    assert_eq!(r.finishedplayers, 1);
    assert_eq!(team_score(&r, 1), 4);
}

#[test]
fn success_of_local_player_records_placement() {
    let mut r = Reconstruct::new();
    r.push(spawned("A", "PC", 0, 1), 0).unwrap();
    r.push(spawned("B", "PC", 1, 2), 0).unwrap();
    r.push(ParseLineResult::SpawnMatchMe(20, 1, 2), 0).unwrap();
    assert_eq!(r.myid, Some(1));
    r.push(ParseLineResult::Success(0, true), 0).unwrap();
    r.push(ParseLineResult::Success(1, true), 0).unwrap();
    assert_eq!(score_of(&r, 0), 2);
    assert_eq!(score_of(&r, 1), 1);
    assert_eq!(r.myscore, 2);
}

#[test]
fn success_not_finished_only_sets_flag() {
    let mut r = Reconstruct::new();
    r.push(spawned("A", "PC", 0, 1), 0).unwrap();
    r.push(ParseLineResult::Success(0, false), 0).unwrap();
    assert_eq!(score_of(&r, 0), 0);
    assert_eq!(r.finishedplayers, 0);
    assert!(!r.players[0].as_ref().unwrap().finished);
}

#[test]
fn loaded_stage_resets_everything() {
    let mut r = Reconstruct::new();
    r.push(spawned("A", "PC", 0, 1), 0).unwrap();
    r.push(ParseLineResult::SpawnMatchMe(9, 0, 1), 0).unwrap();
    r.push(ParseLineResult::Start, 5).unwrap();
    r.push(ParseLineResult::Success(0, true), 0).unwrap();
    r.push(ParseLineResult::LoadedStage("Round2".to_string()), 10).unwrap();
    assert_eq!((r.totalplayers, r.finishedplayers), (0, 0));
    assert!(r.players.iter().all(|p| p.is_none()));
    assert!(r.teams.iter().all(|t| t.is_none()));
    assert!(r.playermap.iter().all(|m| m.is_none()));
    assert_eq!(r.stage, "Round2");
    assert_eq!(r.myid, Some(0));
    assert!(r.running);
    r.push(ParseLineResult::LoadedStage("Round2".to_string()), 11).unwrap();
    assert_eq!(r.stage, "Round2");
    assert_eq!((r.totalplayers, r.finishedplayers), (0, 0));
}

#[test]
fn score_twice_is_score_once() {
    let mut r = Reconstruct::new();
    r.push(spawned("A", "PC", 2, 5), 0).unwrap();
    r.push(ParseLineResult::SpawnMatch(30, 2, 5), 0).unwrap();
    r.push(ParseLineResult::Score(30, 17), 0).unwrap();
    let once = (score_of(&r, 2), team_score(&r, 5));
    r.push(ParseLineResult::Score(30, 17), 0).unwrap();
    assert_eq!((score_of(&r, 2), team_score(&r, 5)), once);
    assert_eq!(once, (17, 17));
}

#[test]
fn team_score_is_sum_of_members() {
    let mut r = Reconstruct::new();
    r.push(spawned("A", "PC", 0, 3), 0).unwrap();
    r.push(spawned("B", "PC", 1, 3), 0).unwrap();
    r.push(spawned("C", "PC", 2, 4), 0).unwrap();
    for (num, id) in [(10, 0), (11, 1), (12, 2)] {
        r.push(ParseLineResult::SpawnMatch(num, id, 0), 0).unwrap();
    }
    r.push(ParseLineResult::Score(10, 5), 0).unwrap();
    r.push(ParseLineResult::Score(11, 7), 0).unwrap();
    r.push(ParseLineResult::Score(12, 1), 0).unwrap();
    assert_eq!(team_score(&r, 3), 12);
    assert_eq!(team_score(&r, 4), 1);
    assert_eq!(r.teams[3].as_ref().unwrap().players, vec![0, 1]);
    assert_eq!(r.teams[3].as_ref().unwrap().num, 3);
    // a spawn again under the same id restarts that player's score
    r.push(spawned("B", "PC", 1, 3), 0).unwrap();
    assert_eq!(team_score(&r, 3), 5);
}

#[test]
fn team_score_saturates() {
    let mut r = Reconstruct::new();
    r.push(spawned("A", "PC", 0, 3), 0).unwrap();
    r.push(spawned("B", "PC", 1, 3), 0).unwrap();
    r.push(ParseLineResult::SpawnMatch(1, 0, 3), 0).unwrap();
    r.push(ParseLineResult::SpawnMatch(2, 1, 3), 0).unwrap();
    r.push(ParseLineResult::Score(1, usize::MAX), 0).unwrap();
    r.push(ParseLineResult::Score(2, 3), 0).unwrap();
    assert_eq!(team_score(&r, 3), usize::MAX);
}

#[test]
fn objective_count_moves_both_ways() {
    let mut r = Reconstruct::new();
    r.push(ParseLineResult::NumPlayersAchievingObjective(9), 0).unwrap();
    assert_eq!(r.finishedplayers, 9);
    r.push(ParseLineResult::NumPlayersAchievingObjective(2), 0).unwrap();
    assert_eq!(r.finishedplayers, 2);
}

#[test]
fn placement_score_when_counter_passed_total() {
    let mut r = Reconstruct::new();
    r.push(spawned("A", "PC", 0, 1), 0).unwrap();
    r.push(ParseLineResult::NumPlayersAchievingObjective(5), 0).unwrap();
    r.push(ParseLineResult::Success(0, true), 0).unwrap();
    assert_eq!(score_of(&r, 0), 0);
    assert_eq!(r.finishedplayers, 6);
}

#[test]
fn preliminary_spawn_joins_no_team() {
    let mut r = Reconstruct::new();
    r.push(spawned("A", "PC", 4, UNASSIGNED_SQUAD), 0).unwrap();
    assert_eq!(r.totalplayers, 1);
    assert!(r.players[4].is_some());
    assert!(r.teams.iter().all(|t| t.is_none()));
}

#[test]
fn unspawn_marks_death_and_lifetime() {
    let mut r = Reconstruct::new();
    r.push(ParseLineResult::Start, 1000).unwrap();
    assert!(r.running);
    assert_eq!(r.starttime, 1000);
    r.push(spawned("A", "PC", 4, 2), 1000).unwrap();
    r.push(ParseLineResult::SpawnMatch(77, 4, 2), 1000).unwrap();
    r.push(ParseLineResult::Unspawn(77), 3500).unwrap();
    let p = r.players[4].as_ref().unwrap();
    assert!(p.died);
    assert_eq!(p.lifetime, 2500);
    r.push(ParseLineResult::Shutdown, 4000).unwrap();
    assert!(!r.running);
}

#[test]
fn unknown_ids_are_no_ops() {
    let mut r = Reconstruct::new();
    r.push(spawned("A", "PC", 0, 1), 0).unwrap();
    r.push(ParseLineResult::Unspawn(5), 10).unwrap();
    r.push(ParseLineResult::Score(5, 99), 10).unwrap();
    r.push(ParseLineResult::Success(9, true), 10).unwrap();
    let p = r.players[0].as_ref().unwrap();
    assert!(!p.died);
    assert_eq!(p.score, 0);
    assert_eq!(r.finishedplayers, 0);
    r.push(ParseLineResult::Misc, 0).unwrap();
    r.push(ParseLineResult::Unhandled("x".to_string()), 0).unwrap();
    r.push(ParseLineResult::UnhandledGameSession("y".to_string()), 0).unwrap();
    assert_eq!(r.totalplayers, 1);
}

#[test]
fn out_of_range_ids_are_reported() {
    let mut r = Reconstruct::new();
    assert_eq!(r.push(spawned("A", "PC", 100, 1), 0), Err(ApplyError::PlayerIdOutOfRange(100)));
    assert_eq!(r.push(spawned("A", "PC", 1, 60), 0), Err(ApplyError::SquadIdOutOfRange(60)));
    assert_eq!(r.push(ParseLineResult::SpawnMatch(4000, 1, 0), 0), Err(ApplyError::PlayerNumOutOfRange(4000)));
    assert_eq!(r.push(ParseLineResult::SpawnMatchMe(3, 250, 0), 0), Err(ApplyError::PlayerIdOutOfRange(250)));
    assert_eq!(r.push(ParseLineResult::Unspawn(5000), 0), Err(ApplyError::PlayerNumOutOfRange(5000)));
    assert_eq!(r.push(ParseLineResult::Score(usize::MAX, 1), 0), Err(ApplyError::PlayerNumOutOfRange(usize::MAX)));
    assert_eq!(r.push(ParseLineResult::Success(100, true), 0), Err(ApplyError::PlayerIdOutOfRange(100)));
    assert_eq!(r.totalplayers, 0);
    assert!(r.players.iter().all(|p| p.is_none()));
    assert_eq!(r.myid, None);
    // the largest ids in range are accepted
    assert_eq!(r.push(spawned("Z", "PC", 99, 59), 0), Ok(()));
    assert_eq!(r.push(ParseLineResult::SpawnMatch(3999, 99, 59), 0), Ok(()));
}

#[test]
fn push_lines_applies_in_order_and_reports_refusals() {
    let mut r = Reconstruct::new();
    let lines: Vec<String> = vec![
        "t: [StateGameLoading] Loading game level scene FallGuy_Gauntlet_02",
        "t: [CameraDirector] Adding Spectator target FallGuy_Ann (win) with Party ID:  Squad ID: 1 and playerID: 3",
        "t: [ClientGameManager] Handling bootstrap for remote player FallGuy [7] (FG.Common.Player), playerID = 3, squadID = 1",
        "t: Player 7 (win) scored 42",
        "t: [CameraDirector] Adding Spectator target FallGuy_Bob (win) with Party ID:  Squad ID: 1 and playerID: 140",
        "garbage text no structure",
    ]
    .into_iter()
    .map(|s| s.to_string())
    .collect();
    let refused = r.push_lines(&lines, 0);
    assert_eq!(refused, vec![ApplyError::PlayerIdOutOfRange(140)]);
    assert_eq!(r.stage, "FallGuy_Gauntlet_02");
    assert_eq!(r.totalplayers, 1);
    assert_eq!(score_of(&r, 3), 42);
    assert_eq!(team_score(&r, 1), 42);
}
