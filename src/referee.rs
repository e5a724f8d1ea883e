use vstd::prelude::*;
use crate::board::BoardDigest;
use crate::registry::Registry;
use crate::rules::{
    already_joined, fire_error, fire_step, join_step, report_error, report_step, wave_error,
    wave_step, BaseJournal, FireJournal, MoveError, ReportJournal,
};

verus! {

/// The five commands a player can submit.
#[derive(Clone, Copy, Debug, PartialEq, Eq, Structural)]
pub enum Command {
    Join,
    Fire,
    Report,
    Wave,
    Win,
}

/// What one submitted move did, for the public event log.
#[derive(Debug, PartialEq, Eq)]
pub enum Event {
    Joined { game_id: String, fleet_id: String },
    AlreadyJoined { game_id: String, fleet_id: String },
    Fired { fleet_id: String, target: String, pos: u8 },
    Reported { fleet_id: String, report: String, pos: u8, next_board: BoardDigest },
    Waved { fleet_id: String, next: String },
    WinClaimed { game_id: String, fleet_id: String },
    Rejected { command: Command, error: MoveError },
}

/// A join, given the oracle's verdict on its attestation. Once verified a
/// join always succeeds: an unseen fleet is added, and a repeated one
/// changes nothing.
pub fn handle_join(games: &mut Registry, attested: Result<BaseJournal, MoveError>) -> (r: Event)
    requires
        old(games).wf(),
    ensures
        final(games).wf(),
        match attested {
            Ok(j) => final(games)@ == join_step(old(games)@, j) && r == (if already_joined(
                old(games)@,
                j,
            ) {
                Event::AlreadyJoined { game_id: j.game_id, fleet_id: j.fleet_id }
            } else {
                Event::Joined { game_id: j.game_id, fleet_id: j.fleet_id }
            }),
            Err(e) => final(games)@ == old(games)@ && r == (Event::Rejected {
                command: Command::Join,
                error: e,
            }),
        },
{
    match attested {
        Ok(j) => {
            if games.join(&j) {
                Event::Joined { game_id: j.game_id, fleet_id: j.fleet_id }
            } else {
                Event::AlreadyJoined { game_id: j.game_id, fleet_id: j.fleet_id }
            }
        },
        Err(e) => Event::Rejected { command: Command::Join, error: e },
    }
}

/// A shot, given the oracle's verdict on its attestation.
pub fn handle_fire(games: &mut Registry, attested: Result<FireJournal, MoveError>) -> (r: Event)
    requires
        old(games).wf(),
    ensures
        final(games).wf(),
        match attested {
            Ok(j) => final(games)@ == fire_step(old(games)@, j) && r == match fire_error(
                old(games)@,
                j,
            ) {
                Some(e) => Event::Rejected { command: Command::Fire, error: e },
                None => Event::Fired { fleet_id: j.fleet_id, target: j.target, pos: j.pos },
            },
            Err(e) => final(games)@ == old(games)@ && r == (Event::Rejected {
                command: Command::Fire,
                error: e,
            }),
        },
{
    match attested {
        Ok(j) => match games.fire(&j) {
            Ok(()) => Event::Fired { fleet_id: j.fleet_id, target: j.target, pos: j.pos },
            Err(e) => Event::Rejected { command: Command::Fire, error: e },
        },
        Err(e) => Event::Rejected { command: Command::Fire, error: e },
    }
}

/// A report, given the oracle's verdict on its attestation.
pub fn handle_report(games: &mut Registry, attested: Result<ReportJournal, MoveError>) -> (r:
    Event)
    requires
        old(games).wf(),
    ensures
        final(games).wf(),
        match attested {
            Ok(j) => final(games)@ == report_step(old(games)@, j) && r == match report_error(
                old(games)@,
                j,
            ) {
                Some(e) => Event::Rejected { command: Command::Report, error: e },
                None => Event::Reported {
                    fleet_id: j.fleet_id,
                    report: j.report,
                    pos: j.pos,
                    next_board: j.next_board,
                },
            },
            Err(e) => final(games)@ == old(games)@ && r == (Event::Rejected {
                command: Command::Report,
                error: e,
            }),
        },
{
    match attested {
        Ok(j) => match games.report(&j) {
            Ok(()) => Event::Reported {
                fleet_id: j.fleet_id,
                report: j.report,
                pos: j.pos,
                next_board: j.next_board,
            },
            Err(e) => Event::Rejected { command: Command::Report, error: e },
        },
        Err(e) => Event::Rejected { command: Command::Report, error: e },
    }
}

/// A wave, given the oracle's verdict on its attestation.
pub fn handle_wave(games: &mut Registry, attested: Result<BaseJournal, MoveError>) -> (r: Event)
    requires
        old(games).wf(),
    ensures
        final(games).wf(),
        match attested {
            Ok(j) => final(games)@ == wave_step(old(games)@, j) && match wave_error(
                old(games)@,
                j,
            ) {
                Some(e) => r == Event::Rejected { command: Command::Wave, error: e },
                None => match r {
                    Event::Waved { fleet_id, next } => fleet_id == j.fleet_id && next@ == old(
                        games,
                    )@[j.game_id@].successor(j.fleet_id@),
                    _ => false,
                },
            },
            Err(e) => final(games)@ == old(games)@ && r == (Event::Rejected {
                command: Command::Wave,
                error: e,
            }),
        },
{
    match attested {
        Ok(j) => match games.wave(&j) {
            Ok(next) => Event::Waved { fleet_id: j.fleet_id, next },
            Err(e) => Event::Rejected { command: Command::Wave, error: e },
        },
        Err(e) => Event::Rejected { command: Command::Wave, error: e },
    }
}

/// A claim of victory, given the oracle's verdict on its attestation. The
/// claim is recorded and changes no game state.
pub fn handle_win(games: &mut Registry, attested: Result<BaseJournal, MoveError>) -> (r: Event)
    requires
        old(games).wf(),
    ensures
        final(games).wf(),
        final(games)@ == old(games)@,
        r == match attested {
            Ok(j) => Event::WinClaimed { game_id: j.game_id, fleet_id: j.fleet_id },
            Err(e) => Event::Rejected { command: Command::Win, error: e },
        },
{
    match attested {
        Ok(j) => Event::WinClaimed { game_id: j.game_id, fleet_id: j.fleet_id },
        Err(e) => Event::Rejected { command: Command::Win, error: e },
    }
}

} // verus!
