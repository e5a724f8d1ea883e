use vstd::prelude::*;
use crate::game::GameView;
use crate::rules::{
    already_joined, fire_error, fire_step, games_wf, join_step, report_error, report_step,
    wave_error, wave_step, BaseJournal, FireJournal, GamesView, MoveError, ReportJournal,
};

verus! {

proof fn lemma_joined_wf(g: GameView, fleet: Seq<char>, board: Seq<u32>)
    requires
        g.wf(),
    ensures
        g.joined(fleet, board).wf(),
        g.joined(fleet, board).roster.contains(fleet),
        g.joined(fleet, board).boards.contains_key(fleet),
{
    if !g.has_player(fleet) {
        let h = g.joined(fleet, board);
        let n = g.roster.len() as int;
        assert(h.roster[n] == fleet);
        assert(h.roster.no_duplicates()) by {
            assert forall|a: int, b: int| 0 <= a < b < h.roster.len() implies h.roster[a]
                != h.roster[b] by {
                if b == n {
                    assert(g.roster.contains(g.roster[a]));
                }
            }
        }
        assert forall|f: Seq<char>| #[trigger] h.boards.contains_key(f) <==> h.roster.contains(f) by {
            if g.roster.contains(f) {
                let i = choose|i: int| 0 <= i < g.roster.len() && g.roster[i] == f;
                assert(h.roster[i] == f);
            }
            if h.roster.contains(f) && f != fleet {
                let i = choose|i: int| 0 <= i < h.roster.len() && h.roster[i] == f;
                assert(g.roster[i] == f);
            }
        }
        let t = g.turn_holder->0;
        let i = choose|i: int| 0 <= i < g.roster.len() && g.roster[i] == t;
        assert(h.roster[i] == t);
    }
}

proof fn lemma_opened_wf(fleet: Seq<char>, board: Seq<u32>)
    ensures
        GameView::opened_by(fleet, board).wf(),
{
    let h = GameView::opened_by(fleet, board);
    assert(h.roster[0] == fleet);
    assert forall|f: Seq<char>| #[trigger] h.boards.contains_key(f) <==> h.roster.contains(f) by {
        if h.roster.contains(f) {
            let i = choose|i: int| 0 <= i < h.roster.len() && h.roster[i] == f;
            assert(i == 0);
        }
    }
}

proof fn lemma_waved_wf(g: GameView, fleet: Seq<char>)
    requires
        g.wf(),
        g.has_player(fleet),
    ensures
        g.waved(fleet).wf(),
{
    let n = g.roster.len() as int;
    let i = g.roster.index_of(fleet);
    assert(g.roster.contains(fleet));
    assert(0 <= i < n);
    let k = (i + 1) % n;
    vstd::arithmetic::div_mod::lemma_mod_bound(i + 1, n);
    assert(g.roster[k] == g.successor(fleet));
}

/// Whatever move is applied, every game stays well formed: it has players,
/// no fleet twice, a board for each of its fleets, and exactly one turn
/// holder, who is one of its fleets.
pub proof fn lemma_moves_keep_games_wf(
    games: GamesView,
    join: BaseJournal,
    fire: FireJournal,
    report: ReportJournal,
    wave: BaseJournal,
)
    requires
        games_wf(games),
    ensures
        games_wf(join_step(games, join)),
        games_wf(fire_step(games, fire)),
        games_wf(report_step(games, report)),
        games_wf(wave_step(games, wave)),
{
    if games.contains_key(join.game_id@) {
        lemma_joined_wf(games[join.game_id@], join.fleet_id@, join.board@);
    } else {
        lemma_opened_wf(join.fleet_id@, join.board@);
    }
    if fire_error(games, fire) is None {
        let g = games[fire.game_id@];
        assert(g.fired(fire.target@, fire.pos).boards == g.boards);
    }
    if report_error(games, report) is None {
        let g = games[report.game_id@];
        let h = g.reported(report.fleet_id@, report.next_board@);
        assert forall|f: Seq<char>| #[trigger] h.boards.contains_key(f) <==> h.roster.contains(f) by {
            if f == report.fleet_id@ {
                assert(g.boards.contains_key(f));
            }
        }
    }
    if wave_error(games, wave) is None {
        lemma_waved_wf(games[wave.game_id@], wave.fleet_id@);
    }
}

/// Only the turn holder can fire or wave: a shot or a wave that succeeds
/// comes from the one fleet that holds the move.
pub proof fn lemma_turn_exclusivity(games: GamesView, fire: FireJournal, wave: BaseJournal)
    requires
        games_wf(games),
    ensures
        fire_error(games, fire) is None ==> games[fire.game_id@].turn_holder == Some(
            fire.fleet_id@,
        ),
        wave_error(games, wave) is None ==> games[wave.game_id@].turn_holder == Some(
            wave.fleet_id@,
        ),
{
}

/// A shot that succeeds leaves its game waiting for a report at the shot's
/// position, owed by the target.
pub proof fn lemma_fire_leaves_report_pending(games: GamesView, fire: FireJournal)
    requires
        games_wf(games),
        fire_error(games, fire) is None,
    ensures
        fire_step(games, fire)[fire.game_id@].pending_shot == Some(fire.pos),
        fire_step(games, fire)[fire.game_id@].turn_holder == Some(fire.target@),
{
}

/// While a game waits for a report, no shot and no wave on it succeeds, and
/// a failed move leaves every game as it was. A shot by the turn holder and
/// a wave by any player of the game fail because of the pending report. A
/// failed report changes nothing; a report that succeeds resolves the shot.
pub proof fn lemma_report_gating(
    games: GamesView,
    id: Seq<char>,
    fire: FireJournal,
    wave: BaseJournal,
    report: ReportJournal,
)
    requires
        games_wf(games),
        games.contains_key(id),
        games[id].pending_shot is Some,
        fire.game_id@ == id,
        wave.game_id@ == id,
        report.game_id@ == id,
    ensures
        fire_error(games, fire) is Some,
        fire_step(games, fire) == games,
        games[id].turn_holder == Some(fire.fleet_id@) ==> fire_error(games, fire) == Some(
            MoveError::ReportPending,
        ),
        wave_error(games, wave) is Some,
        wave_step(games, wave) == games,
        games[id].has_player(wave.fleet_id@) ==> wave_error(games, wave) == Some(
            MoveError::ReportPending,
        ),
        report_error(games, report) is Some ==> report_step(games, report) == games,
        report_error(games, report) is None ==> report_step(games, report)[id].pending_shot is None,
{
    let t = games[id].turn_holder->0;
    assert(games[id].roster.contains(t));
    assert(games[id].has_player(t));
}

/// A report succeeds only from the board that is stored for its fleet, and
/// then the stored board becomes exactly the report's next board.
pub proof fn lemma_digest_continuity(games: GamesView, report: ReportJournal)
    requires
        games_wf(games),
        report_error(games, report) is None,
    ensures
        games[report.game_id@].boards[report.fleet_id@] == report.board@,
        report_step(games, report)[report.game_id@].boards[report.fleet_id@]
            == report.next_board@,
{
}

/// Joining twice with the same game and fleet adds the fleet once, and a
/// join of a fleet already in the game changes no state, so its stored board
/// stays as it was.
pub proof fn lemma_join_idempotent(games: GamesView, first: BaseJournal, second: BaseJournal)
    requires
        games_wf(games),
        first.game_id@ == second.game_id@,
        first.fleet_id@ == second.fleet_id@,
    ensures
        already_joined(games, first) ==> join_step(games, first) == games,
        already_joined(join_step(games, first), second),
        join_step(join_step(games, first), second) == join_step(games, first),
        games_wf(join_step(games, first)),
{
    let once = join_step(games, first);
    let id = first.game_id@;
    if games.contains_key(id) {
        lemma_joined_wf(games[id], first.fleet_id@, first.board@);
        if already_joined(games, first) {
            assert(games.insert(id, games[id]) =~= games);
        }
    } else {
        lemma_opened_wf(first.fleet_id@, first.board@);
        assert(GameView::opened_by(first.fleet_id@, first.board@).boards.contains_key(
            first.fleet_id@,
        ));
    }
    assert forall|k: Seq<char>| #[trigger] once.contains_key(k) implies once[k].wf() by {
        if k != id {
            assert(games.contains_key(k));
        }
    }
    assert(once.insert(id, once[id]) =~= once);
}

/// A fleet never fires at itself: such a shot is rejected and changes
/// nothing.
pub proof fn lemma_no_self_target(games: GamesView, fire: FireJournal)
    requires
        fire.target@ == fire.fleet_id@,
    ensures
        fire_error(games, fire) is Some,
        fire_step(games, fire) == games,
{
}

} // verus!
