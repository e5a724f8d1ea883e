use vstd::prelude::*;
use crate::board::BoardDigest;
use crate::game::GameView;

verus! {

/// The public output of a join, wave or win attestation.
#[derive(Debug)]
pub struct BaseJournal {
    pub game_id: String,
    pub fleet_id: String,
    pub board: BoardDigest,
}

/// The public output of a fire attestation.
#[derive(Debug)]
pub struct FireJournal {
    pub game_id: String,
    pub fleet_id: String,
    pub board: BoardDigest,
    pub target: String,
    pub pos: u8,
}

/// The public output of a report attestation: the answer to the pending
/// shot, and the board commitment before and after it.
#[derive(Debug)]
pub struct ReportJournal {
    pub game_id: String,
    pub fleet_id: String,
    pub report: String,
    pub pos: u8,
    pub board: BoardDigest,
    pub next_board: BoardDigest,
}

/// Why a move was rejected. A rejected move changes no game state.
#[derive(Clone, Copy, Debug, PartialEq, Eq, Structural)]
pub enum MoveError {
    /// The attestation did not check out against the command's program.
    VerificationFailed,
    /// The attestation checked out but its journal has the wrong shape.
    MalformedJournal,
    GameNotFound,
    PlayerNotInGame,
    TargetNotInGame,
    /// A fleet fired at itself.
    TargetIsSelf,
    NotYourTurn,
    /// A shot waits for its report.
    ReportPending,
    /// A report came while no shot was waiting for one.
    NoPendingReport,
    /// The report starts from another board than the stored one.
    StaleBoardDigest,
    /// The report answers another position than the one fired at.
    WrongPositionReported,
}

/// All games, keyed by game id.
pub type GamesView = Map<Seq<char>, GameView>;

/// The state after a join: the game is opened if it is new, and the fleet
/// is added to it if it is not in it yet.
pub open spec fn join_step(games: GamesView, j: BaseJournal) -> GamesView {
    if games.contains_key(j.game_id@) {
        games.insert(j.game_id@, games[j.game_id@].joined(j.fleet_id@, j.board@))
    } else {
        games.insert(j.game_id@, GameView::opened_by(j.fleet_id@, j.board@))
    }
}

/// Whether a join finds its fleet already in the game.
pub open spec fn already_joined(games: GamesView, j: BaseJournal) -> bool {
    games.contains_key(j.game_id@) && games[j.game_id@].has_player(j.fleet_id@)
}

/// The first rule that a shot breaks, in order of precedence.
pub open spec fn fire_error(games: GamesView, j: FireJournal) -> Option<MoveError> {
    let g = games[j.game_id@];
    if !games.contains_key(j.game_id@) {
        Some(MoveError::GameNotFound)
    } else if !g.has_player(j.fleet_id@) {
        Some(MoveError::PlayerNotInGame)
    } else if g.turn_holder != Some(j.fleet_id@) {
        Some(MoveError::NotYourTurn)
    } else if g.pending_shot is Some {
        Some(MoveError::ReportPending)
    } else if j.target@ == j.fleet_id@ {
        Some(MoveError::TargetIsSelf)
    } else if !g.has_player(j.target@) {
        Some(MoveError::TargetNotInGame)
    } else {
        None
    }
}

/// The state after a shot: the target must answer, at the shot's position.
pub open spec fn fire_step(games: GamesView, j: FireJournal) -> GamesView {
    if fire_error(games, j) is None {
        games.insert(j.game_id@, games[j.game_id@].fired(j.target@, j.pos))
    } else {
        games
    }
}

/// The first rule that a report breaks, in order of precedence.
pub open spec fn report_error(games: GamesView, j: ReportJournal) -> Option<MoveError> {
    let g = games[j.game_id@];
    if !games.contains_key(j.game_id@) {
        Some(MoveError::GameNotFound)
    } else if !g.has_player(j.fleet_id@) {
        Some(MoveError::PlayerNotInGame)
    } else if g.pending_shot is None {
        Some(MoveError::NoPendingReport)
    } else if g.turn_holder != Some(j.fleet_id@) {
        Some(MoveError::NotYourTurn)
    } else if g.boards[j.fleet_id@] != j.board@ {
        Some(MoveError::StaleBoardDigest)
    } else if g.pending_shot != Some(j.pos) {
        Some(MoveError::WrongPositionReported)
    } else {
        None
    }
}

/// The state after a report: the reporter's board becomes the journal's next
/// board and the shot is resolved; the reporter keeps the move.
pub open spec fn report_step(games: GamesView, j: ReportJournal) -> GamesView {
    if report_error(games, j) is None {
        games.insert(j.game_id@, games[j.game_id@].reported(j.fleet_id@, j.next_board@))
    } else {
        games
    }
}

/// The first rule that a wave breaks, in order of precedence.
pub open spec fn wave_error(games: GamesView, j: BaseJournal) -> Option<MoveError> {
    let g = games[j.game_id@];
    if !games.contains_key(j.game_id@) {
        Some(MoveError::GameNotFound)
    } else if !g.has_player(j.fleet_id@) {
        Some(MoveError::PlayerNotInGame)
    } else if g.pending_shot is Some {
        Some(MoveError::ReportPending)
    } else if g.turn_holder != Some(j.fleet_id@) {
        Some(MoveError::NotYourTurn)
    } else {
        None
    }
}

/// The state after a wave: the move passes to the next fleet in join order.
pub open spec fn wave_step(games: GamesView, j: BaseJournal) -> GamesView {
    if wave_error(games, j) is None {
        games.insert(j.game_id@, games[j.game_id@].waved(j.fleet_id@))
    } else {
        games
    }
}

/// Every game of the map is well formed.
pub open spec fn games_wf(games: GamesView) -> bool {
    forall|id: Seq<char>| #[trigger] games.contains_key(id) ==> games[id].wf()
}

} // verus!
