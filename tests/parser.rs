use fallguys_tracker::{parse_line, ParseLineResult, UNASSIGNED_SQUAD};

fn s(x: &str) -> String {
    x.to_string()
}

#[test]
fn garbage_line_is_misc() {
    assert_eq!(parse_line("garbage text no structure"), ParseLineResult::Misc);
}

#[test]
fn line_without_space_is_misc() {
    assert_eq!(parse_line("nospacesatall"), ParseLineResult::Misc);
    assert_eq!(parse_line(""), ParseLineResult::Misc);
}

#[test]
fn recognized_tag_with_unparsable_suffix_is_unhandled() {
    let line = "21:14:59.617: [ClientGameSession] something unexpected";
    assert_eq!(parse_line(line), ParseLineResult::Unhandled(s(line)));
    let line = "21:14:59.617: [CameraDirector] Adding nonsense";
    assert_eq!(parse_line(line), ParseLineResult::Unhandled(s(line)));
    let line = "21:14:59.617: [CameraDirector] Removing target";
    assert_eq!(parse_line(line), ParseLineResult::Unhandled(s(line)));
}

#[test]
fn manager_line_without_sub_token_is_unhandled() {
    let line = "21:14:59.617: [ClientGameManager]";
    assert_eq!(parse_line(line), ParseLineResult::Unhandled(s(line)));
    let line = "21:14:59.617: [ClientGameManager] Handling something else";
    assert_eq!(parse_line(line), ParseLineResult::Unhandled(s(line)));
}

#[test]
fn objective_count() {
    assert_eq!(
        parse_line("21:14:59.617: [ClientGameSession] NumPlayersAchievingObjective=12"),
        ParseLineResult::NumPlayersAchievingObjective(12)
    );
}

#[test]
fn number_too_large_is_unhandled() {
    let line = "21:14:59.617: [ClientGameSession] NumPlayersAchievingObjective=999999999999999999999999";
    assert_eq!(parse_line(line), ParseLineResult::Unhandled(s(line)));
    let line = "21:14:59.617: [ClientGameSession] NumPlayersAchievingObjective=";
    assert_eq!(parse_line(line), ParseLineResult::Unhandled(s(line)));
}

#[test]
fn shutdown() {
    assert_eq!(parse_line("21:14:59.617: [ClientGameManager] Shutdown"), ParseLineResult::Shutdown);
}

#[test]
fn preliminary_spawn_has_no_squad() {
    assert_eq!(
        parse_line("21:14:59.617: [ClientGameManager] Finalising spawn for player FallGuy [3] Ann Lee (win) 1234"),
        ParseLineResult::Spawned(s("Ann Lee"), s("win"), 3, UNASSIGNED_SQUAD)
    );
}

#[test]
fn bot_spawn() {
    assert_eq!(
        parse_line("21:14:59.617: [ClientGameManager] Finalising spawn for player PB_FallGuyBot [15]"),
        ParseLineResult::Spawned(s("\u{1F916}"), s("\u{1F916}"), 15, UNASSIGNED_SQUAD)
    );
}

#[test]
fn broken_spawn_is_unhandled() {
    let line = "21:14:59.617: [ClientGameManager] Finalising spawn for player FallGuy [3] Ann(win)";
    assert_eq!(parse_line(line), ParseLineResult::Unhandled(s(line)));
}

#[test]
fn remote_bootstrap() {
    assert_eq!(
        parse_line("21:14:59.617: [ClientGameManager] Handling bootstrap for remote player FallGuy [7] (FG.Common.Player), playerID = 3, squadID = 2"),
        ParseLineResult::SpawnMatch(7, 3, 2)
    );
}

#[test]
fn local_bootstrap() {
    assert_eq!(
        parse_line("21:14:59.617: [ClientGameManager] Handling bootstrap for local player FallGuy [1041] (FG.Common.Player), playerID = 12, squadID = 0"),
        ParseLineResult::SpawnMatchMe(1041, 12, 0)
    );
}

#[test]
fn unspawn_player_and_bot() {
    assert_eq!(
        parse_line("21:14:59.617: [ClientGameManager] Handling unspawn for player FallGuy [7]"),
        ParseLineResult::Unspawn(7)
    );
    assert_eq!(
        parse_line("21:14:59.617: [ClientGameManager] Handling unspawn for player PB_FallGuyBot [8]"),
        ParseLineResult::Unspawn(8)
    );
}

#[test]
fn spectator_spawn_with_squad() {
    assert_eq!(
        parse_line("21:14:59.617: [CameraDirector] Adding Spectator target FallGuy_Ann (ps4) with Party ID: 55 12 Squad ID: 2 and playerID: 3"),
        ParseLineResult::Spawned(s("Ann"), s("ps4"), 3, 2)
    );
    assert_eq!(
        parse_line("21:14:59.617: [CameraDirector] Adding Spectator target Fall_Guy_Bob Smith (win) with Party ID:  Squad ID: 0 and playerID: 44"),
        ParseLineResult::Spawned(s("Bob Smith"), s("win"), 44, 0)
    );
}

#[test]
fn progress_success_true_and_false() {
    assert_eq!(
        parse_line("21:14:59.617: ClientGameManager::HandleServerPlayerProgress PlayerId=3 is succeeded=True"),
        ParseLineResult::Success(3, true)
    );
    assert_eq!(
        parse_line("21:14:59.617: ClientGameManager::HandleServerPlayerProgress PlayerId=3 is succeeded=False"),
        ParseLineResult::Success(3, false)
    );
}

#[test]
fn loaded_stage() {
    assert_eq!(
        parse_line("21:14:59.617: [StateGameLoading] Loading game level scene FallGuy_DoorDash_01 - frame 12"),
        ParseLineResult::LoadedStage(s("FallGuy_DoorDash_01"))
    );
    let line = "21:14:59.617: [StateGameLoading] Unloading things";
    assert_eq!(parse_line(line), ParseLineResult::Unhandled(s(line)));
}

#[test]
fn score_line() {
    assert_eq!(
        parse_line("21:14:59.617: Player 7 (win) scored 42"),
        ParseLineResult::Score(7, 42)
    );
    let line = "21:14:59.617: Player x (win) scored 42";
    assert_eq!(parse_line(line), ParseLineResult::Unhandled(s(line)));
    let line = "21:14:59.617: Player 7 (win)";
    assert_eq!(parse_line(line), ParseLineResult::Unhandled(s(line)));
}

#[test]
fn game_session_start_and_other() {
    assert_eq!(
        parse_line("21:14:59.617: [GameSession] Changing state from Countdown to Playing"),
        ParseLineResult::Start
    );
    let line = "21:14:59.617: [GameSession] Changing state from Playing to GameOver";
    assert_eq!(parse_line(line), ParseLineResult::UnhandledGameSession(s(line)));
}
