use fleet_referee::{
    handle_fire, handle_join, handle_report, handle_wave, handle_win, xy_pos, BaseJournal,
    BoardDigest, Command, Event, FireJournal, MoveError, Registry, ReportJournal,
};

fn digest(seed: u32) -> BoardDigest {
    BoardDigest::from_words([seed, seed + 1, seed + 2, seed + 3, seed + 4, seed + 5, seed + 6, seed + 7])
}

fn base(game: &str, fleet: &str, board: BoardDigest) -> BaseJournal {
    BaseJournal { game_id: game.to_string(), fleet_id: fleet.to_string(), board }
}

fn shot(game: &str, fleet: &str, target: &str, pos: u8) -> FireJournal {
    FireJournal {
        game_id: game.to_string(),
        fleet_id: fleet.to_string(),
        board: digest(0),
        target: target.to_string(),
        pos,
    }
}

fn answer(game: &str, fleet: &str, pos: u8, prior: BoardDigest, next: BoardDigest) -> ReportJournal {
    ReportJournal {
        game_id: game.to_string(),
        fleet_id: fleet.to_string(),
        report: "Hit".to_string(),
        pos,
        board: prior,
        next_board: next,
    }
}

fn holder(reg: &Registry, game: &str) -> Option<String> {
    reg.game(&game.to_string()).unwrap().turn_holder.clone()
}

fn pending(reg: &Registry, game: &str) -> Option<u8> {
    reg.game(&game.to_string()).unwrap().pending_shot
}

fn board(reg: &Registry, game: &str, fleet: &str) -> Option<BoardDigest> {
    reg.game(&game.to_string()).unwrap().board_of(&fleet.to_string())
}

/// Two players in g1, alice holding the move.
fn two_player_game() -> Registry {
    let mut reg = Registry::new();
    handle_join(&mut reg, Ok(base("g1", "alice", digest(0))));
    handle_join(&mut reg, Ok(base("g1", "bob", digest(100))));
    reg
}

fn rejected(command: Command, error: MoveError) -> Event {
    Event::Rejected { command, error }
}

#[test]
fn scenario_join_sets_first_turn_holder() {
    let mut reg = Registry::new();
    let e = handle_join(&mut reg, Ok(base("g1", "alice", digest(0))));
    assert_eq!(e, Event::Joined { game_id: "g1".to_string(), fleet_id: "alice".to_string() });
    assert_eq!(holder(&reg, "g1"), Some("alice".to_string()));
    let e = handle_join(&mut reg, Ok(base("g1", "bob", digest(100))));
    assert_eq!(e, Event::Joined { game_id: "g1".to_string(), fleet_id: "bob".to_string() });
    assert_eq!(holder(&reg, "g1"), Some("alice".to_string()));
    assert_eq!(pending(&reg, "g1"), None);
}

#[test]
fn scenario_fire_passes_turn_to_target() {
    let mut reg = two_player_game();
    let e = handle_fire(&mut reg, Ok(shot("g1", "alice", "bob", 23)));
    assert_eq!(e, Event::Fired { fleet_id: "alice".to_string(), target: "bob".to_string(), pos: 23 });
    assert_eq!(holder(&reg, "g1"), Some("bob".to_string()));
    assert_eq!(pending(&reg, "g1"), Some(23));
}

#[test]
fn scenario_fire_while_report_pending() {
    let mut reg = two_player_game();
    handle_fire(&mut reg, Ok(shot("g1", "alice", "bob", 23)));
    let e = handle_fire(&mut reg, Ok(shot("g1", "bob", "alice", 5)));
    assert_eq!(e, rejected(Command::Fire, MoveError::ReportPending));
    assert_eq!(holder(&reg, "g1"), Some("bob".to_string()));
    assert_eq!(pending(&reg, "g1"), Some(23));
}

#[test]
fn scenario_report_updates_digest() {
    let mut reg = two_player_game();
    handle_fire(&mut reg, Ok(shot("g1", "alice", "bob", 23)));
    let e = handle_report(&mut reg, Ok(answer("g1", "bob", 23, digest(100), digest(200))));
    assert_eq!(
        e,
        Event::Reported {
            fleet_id: "bob".to_string(),
            report: "Hit".to_string(),
            pos: 23,
            next_board: digest(200),
        }
    );
    assert_eq!(board(&reg, "g1", "bob"), Some(digest(200)));
    assert_eq!(board(&reg, "g1", "alice"), Some(digest(0)));
    assert_eq!(pending(&reg, "g1"), None);
    assert_eq!(holder(&reg, "g1"), Some("bob".to_string()));
}

#[test]
fn scenario_report_with_stale_digest() {
    let mut reg = two_player_game();
    handle_fire(&mut reg, Ok(shot("g1", "alice", "bob", 23)));
    let e = handle_report(&mut reg, Ok(answer("g1", "bob", 23, digest(7), digest(200))));
    assert_eq!(e, rejected(Command::Report, MoveError::StaleBoardDigest));
    assert_eq!(board(&reg, "g1", "bob"), Some(digest(100)));
    assert_eq!(pending(&reg, "g1"), Some(23));
}

#[test]
fn only_turn_holder_fires_or_waves() {
    let mut reg = two_player_game();
    let e = handle_fire(&mut reg, Ok(shot("g1", "bob", "alice", 5)));
    assert_eq!(e, rejected(Command::Fire, MoveError::NotYourTurn));
    let e = handle_wave(&mut reg, Ok(base("g1", "bob", digest(0))));
    assert_eq!(e, rejected(Command::Wave, MoveError::NotYourTurn));
    assert_eq!(holder(&reg, "g1"), Some("alice".to_string()));
    let e = handle_fire(&mut reg, Ok(shot("g1", "alice", "bob", 5)));
    assert_eq!(e, Event::Fired { fleet_id: "alice".to_string(), target: "bob".to_string(), pos: 5 });
}

#[test]
fn report_gating_until_one_report() {
    let mut reg = two_player_game();
    handle_fire(&mut reg, Ok(shot("g1", "alice", "bob", 42)));
    let e = handle_wave(&mut reg, Ok(base("g1", "alice", digest(0))));
    assert_eq!(e, rejected(Command::Wave, MoveError::ReportPending));
    let e = handle_wave(&mut reg, Ok(base("g1", "bob", digest(0))));
    assert_eq!(e, rejected(Command::Wave, MoveError::ReportPending));
    let e = handle_fire(&mut reg, Ok(shot("g1", "bob", "alice", 1)));
    assert_eq!(e, rejected(Command::Fire, MoveError::ReportPending));
    let e = handle_report(&mut reg, Ok(answer("g1", "bob", 41, digest(100), digest(101))));
    assert_eq!(e, rejected(Command::Report, MoveError::WrongPositionReported));
    assert_eq!(pending(&reg, "g1"), Some(42));
    handle_report(&mut reg, Ok(answer("g1", "bob", 42, digest(100), digest(101))));
    assert_eq!(pending(&reg, "g1"), None);
    let e = handle_fire(&mut reg, Ok(shot("g1", "bob", "alice", 1)));
    assert_eq!(e, Event::Fired { fleet_id: "bob".to_string(), target: "alice".to_string(), pos: 1 });
}

#[test]
fn digest_continuity_over_two_reports() {
    let mut reg = two_player_game();
    handle_fire(&mut reg, Ok(shot("g1", "alice", "bob", 10)));
    handle_report(&mut reg, Ok(answer("g1", "bob", 10, digest(100), digest(300))));
    handle_fire(&mut reg, Ok(shot("g1", "bob", "alice", 11)));
    handle_wave(&mut reg, Ok(base("g1", "alice", digest(0))));
    let e = handle_report(&mut reg, Ok(answer("g1", "alice", 11, digest(0), digest(400))));
    assert!(matches!(e, Event::Reported { .. }));
    assert_eq!(board(&reg, "g1", "alice"), Some(digest(400)));
    handle_fire(&mut reg, Ok(shot("g1", "alice", "bob", 12)));
    let e = handle_report(&mut reg, Ok(answer("g1", "bob", 12, digest(100), digest(500))));
    assert_eq!(e, rejected(Command::Report, MoveError::StaleBoardDigest));
    let e = handle_report(&mut reg, Ok(answer("g1", "bob", 12, digest(300), digest(500))));
    assert!(matches!(e, Event::Reported { .. }));
    assert_eq!(board(&reg, "g1", "bob"), Some(digest(500)));
}

#[test]
fn join_twice_is_idempotent() {
    let mut reg = two_player_game();
    let e = handle_join(&mut reg, Ok(base("g1", "bob", digest(999))));
    assert_eq!(e, Event::AlreadyJoined { game_id: "g1".to_string(), fleet_id: "bob".to_string() });
    assert_eq!(board(&reg, "g1", "bob"), Some(digest(100)));
    assert_eq!(reg.game(&"g1".to_string()).unwrap().players.len(), 2);
    assert_eq!(reg.games.len(), 1);
}

#[test]
fn fire_at_self_is_rejected() {
    let mut reg = two_player_game();
    let e = handle_fire(&mut reg, Ok(shot("g1", "alice", "alice", 3)));
    assert_eq!(e, rejected(Command::Fire, MoveError::TargetIsSelf));
    assert_eq!(holder(&reg, "g1"), Some("alice".to_string()));
    assert_eq!(pending(&reg, "g1"), None);
}

#[test]
fn fire_errors_in_order() {
    let mut reg = two_player_game();
    let e = handle_fire(&mut reg, Ok(shot("g2", "alice", "bob", 3)));
    assert_eq!(e, rejected(Command::Fire, MoveError::GameNotFound));
    assert!(reg.game(&"g2".to_string()).is_none());
    let e = handle_fire(&mut reg, Ok(shot("g1", "carol", "bob", 3)));
    assert_eq!(e, rejected(Command::Fire, MoveError::PlayerNotInGame));
    let e = handle_fire(&mut reg, Ok(shot("g1", "alice", "carol", 3)));
    assert_eq!(e, rejected(Command::Fire, MoveError::TargetNotInGame));
    assert_eq!(pending(&reg, "g1"), None);
}

#[test]
fn report_errors_in_order() {
    let mut reg = two_player_game();
    let e = handle_report(&mut reg, Ok(answer("g9", "bob", 3, digest(100), digest(1))));
    assert_eq!(e, rejected(Command::Report, MoveError::GameNotFound));
    let e = handle_report(&mut reg, Ok(answer("g1", "carol", 3, digest(100), digest(1))));
    assert_eq!(e, rejected(Command::Report, MoveError::PlayerNotInGame));
    let e = handle_report(&mut reg, Ok(answer("g1", "bob", 3, digest(100), digest(1))));
    assert_eq!(e, rejected(Command::Report, MoveError::NoPendingReport));
    handle_fire(&mut reg, Ok(shot("g1", "alice", "bob", 3)));
    let e = handle_report(&mut reg, Ok(answer("g1", "alice", 3, digest(0), digest(1))));
    assert_eq!(e, rejected(Command::Report, MoveError::NotYourTurn));
    assert_eq!(board(&reg, "g1", "alice"), Some(digest(0)));
}

#[test]
fn wave_errors_and_success() {
    let mut reg = two_player_game();
    handle_join(&mut reg, Ok(base("g1", "carol", digest(50))));
    let e = handle_wave(&mut reg, Ok(base("g3", "alice", digest(0))));
    assert_eq!(e, rejected(Command::Wave, MoveError::GameNotFound));
    let e = handle_wave(&mut reg, Ok(base("g1", "dave", digest(0))));
    assert_eq!(e, rejected(Command::Wave, MoveError::PlayerNotInGame));
    let e = handle_wave(&mut reg, Ok(base("g1", "alice", digest(0))));
    assert_eq!(e, Event::Waved { fleet_id: "alice".to_string(), next: "bob".to_string() });
    assert_eq!(holder(&reg, "g1"), Some("bob".to_string()));
    handle_wave(&mut reg, Ok(base("g1", "bob", digest(0))));
    assert_eq!(holder(&reg, "g1"), Some("carol".to_string()));
    let e = handle_wave(&mut reg, Ok(base("g1", "carol", digest(0))));
    assert_eq!(e, Event::Waved { fleet_id: "carol".to_string(), next: "alice".to_string() });
}

#[test]
fn wave_alone_keeps_the_move() {
    let mut reg = Registry::new();
    handle_join(&mut reg, Ok(base("solo", "alice", digest(0))));
    let e = handle_wave(&mut reg, Ok(base("solo", "alice", digest(0))));
    assert_eq!(e, Event::Waved { fleet_id: "alice".to_string(), next: "alice".to_string() });
}

#[test]
fn unverified_moves_change_nothing() {
    let mut reg = two_player_game();
    let e = handle_fire(&mut reg, Err(MoveError::VerificationFailed));
    assert_eq!(e, rejected(Command::Fire, MoveError::VerificationFailed));
    let e = handle_join(&mut reg, Err(MoveError::MalformedJournal));
    assert_eq!(e, rejected(Command::Join, MoveError::MalformedJournal));
    let e = handle_report(&mut reg, Err(MoveError::VerificationFailed));
    assert_eq!(e, rejected(Command::Report, MoveError::VerificationFailed));
    let e = handle_wave(&mut reg, Err(MoveError::VerificationFailed));
    assert_eq!(e, rejected(Command::Wave, MoveError::VerificationFailed));
    assert_eq!(holder(&reg, "g1"), Some("alice".to_string()));
    assert_eq!(reg.game(&"g1".to_string()).unwrap().players.len(), 2);
}

#[test]
fn win_claim_is_recorded_only() {
    let mut reg = two_player_game();
    let e = handle_win(&mut reg, Ok(base("g1", "alice", digest(0))));
    assert_eq!(e, Event::WinClaimed { game_id: "g1".to_string(), fleet_id: "alice".to_string() });
    let e = handle_win(&mut reg, Err(MoveError::VerificationFailed));
    assert_eq!(e, rejected(Command::Win, MoveError::VerificationFailed));
    assert_eq!(holder(&reg, "g1"), Some("alice".to_string()));
}

#[test]
fn games_are_independent() {
    let mut reg = two_player_game();
    handle_join(&mut reg, Ok(base("g2", "bob", digest(7))));
    assert_eq!(holder(&reg, "g2"), Some("bob".to_string()));
    handle_fire(&mut reg, Ok(shot("g1", "alice", "bob", 9)));
    assert_eq!(pending(&reg, "g2"), None);
    assert_eq!(board(&reg, "g2", "bob"), Some(digest(7)));
    assert_eq!(reg.games.len(), 2);
}

#[test]
fn position_names() {
    assert_eq!(xy_pos(0), "A0");
    assert_eq!(xy_pos(23), "D2");
    assert_eq!(xy_pos(99), "J9");
    assert_eq!(xy_pos(105), "F10");
    assert_eq!(xy_pos(255), "F25");
}

#[test]
fn digest_comparison() {
    assert!(digest(4).same_as(&digest(4)));
    assert!(!digest(4).same_as(&digest(5)));
    let mut w = [1u32; 8];
    let a = BoardDigest::from_words(w);
    w[7] = 2;
    assert!(!a.same_as(&BoardDigest::from_words(w)));
}
