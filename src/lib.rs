//! Referee for a hidden-board fleet battle. Every move arrives with an
//! attestation; once an oracle has verified it and decoded its journal, the
//! referee decides whether the move is legal, updates the board commitments
//! and the turn, and reports an event for the public log. The player side
//! computes what its attested programs commit: board legality, board
//! commitments and the answer to a shot.

pub mod board;
pub mod position;
pub mod game;
pub mod rules;
pub mod registry;
pub mod referee;
pub mod laws;
pub mod layout;
pub mod prover;

pub use board::BoardDigest;
pub use game::{Game, Player};
pub use layout::validate_board;
pub use prover::{
    apply_shot, board_commitment, digest_from_bytes, fire_journal, join_journal, report_journal,
    wave_journal, win_journal,
};
pub use position::xy_pos;
pub use referee::{handle_fire, handle_join, handle_report, handle_wave, handle_win, Command, Event};
pub use registry::Registry;
pub use rules::{BaseJournal, FireJournal, MoveError, ReportJournal};
