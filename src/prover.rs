use vstd::prelude::*;
use vstd::string::*;
use crate::board::BoardDigest;
use crate::layout::valid_layout;
use crate::rules::{BaseJournal, FireJournal, ReportJournal};

verus! {

/// The SHA-256 hash of a byte string.
pub uninterp spec fn sha256_of(bytes: Seq<u8>) -> Seq<u8>;

/// Relies on sha2's `Sha256::digest`: the SHA-256 hash of the bytes, whose
/// output size is 32 bytes.
#[verifier::external_body]
fn sha256(bytes: &Vec<u8>) -> (r: Vec<u8>)
    ensures
        r@ == sha256_of(bytes@),
        r@.len() == 32,
{
    <sha2::Sha256 as sha2::Digest>::digest(bytes.as_slice()).to_vec()
}

/// The 32-bit word held little-endian in bytes `4 * i` to `4 * i + 3`.
pub open spec fn word_le(b: Seq<u8>, i: int) -> u32 {
    (b[4 * i] as int + b[4 * i + 1] as int * 0x100 + b[4 * i + 2] as int * 0x1_0000 + b[4 * i
        + 3] as int * 0x100_0000) as u32
}

/// The eight little-endian words of a 32-byte hash.
pub open spec fn words_of(b: Seq<u8>) -> Seq<u32> {
    Seq::new(8, |i: int| word_le(b, i))
}

/// The commitment to a board and its secret nonce: the hash of the nonce's
/// bytes followed by the board's cells, as eight words.
pub open spec fn commitment_of(random: Seq<u8>, board: Seq<u8>) -> Seq<u32> {
    words_of(sha256_of(random + board))
}

fn word_at(b: &Vec<u8>, i: usize) -> (r: u32)
    requires
        i < 8,
        b@.len() == 32,
    ensures
        r == word_le(b@, i as int),
{
    let k = 4 * i;
    b[k] as u32 + b[k + 1] as u32 * 0x100 + b[k + 2] as u32 * 0x1_0000 + b[k + 3] as u32
        * 0x100_0000
}

/// Reads a 32-byte hash as a commitment of eight little-endian words.
pub fn digest_from_bytes(b: &Vec<u8>) -> (r: BoardDigest)
    requires
        b@.len() == 32,
    ensures
        r@ == words_of(b@),
{
    let words = [
        word_at(b, 0),
        word_at(b, 1),
        word_at(b, 2),
        word_at(b, 3),
        word_at(b, 4),
        word_at(b, 5),
        word_at(b, 6),
        word_at(b, 7),
    ];
    let r = BoardDigest::from_words(words);
    assert(r@ =~= words_of(b@));
    r
}

/// The commitment to `board` under the nonce `random`.
pub fn board_commitment(random: &str, board: &Vec<u8>) -> (r: BoardDigest)
    ensures
        r@ == commitment_of(random.spec_bytes(), board@),
{
    let nonce = random.as_bytes();
    let mut bytes: Vec<u8> = Vec::new();
    let mut i: usize = 0;
    while i < nonce.len()
        invariant
            i <= nonce@.len(),
            bytes@ == nonce@.subrange(0, i as int),
        decreases nonce@.len() - i,
    {
        bytes.push(nonce[i]);
        i = i + 1;
    }
    let mut k: usize = 0;
    while k < board.len()
        invariant
            k <= board@.len(),
            bytes@ == nonce@ + board@.subrange(0, k as int),
        decreases board@.len() - k,
    {
        bytes.push(board[k]);
        k = k + 1;
    }
    assert(board@.subrange(0, board@.len() as int) =~= board@);
    let hash = sha256(&bytes);
    digest_from_bytes(&hash)
}

/// `s` without the first occurrence of `x`, or `s` itself if `x` is not in it.
pub open spec fn remove_first(s: Seq<u8>, x: u8) -> Seq<u8>
    decreases s.len(),
{
    if s.len() == 0 {
        s
    } else if s[0] == x {
        s.drop_first()
    } else {
        seq![s[0]] + remove_first(s.drop_first(), x)
    }
}

proof fn lemma_remove_first(s: Seq<u8>, x: u8, i: int)
    requires
        0 <= i <= s.len(),
        forall|k: int| 0 <= k < i ==> s[k] != x,
        i < s.len() ==> s[i] == x,
    ensures
        remove_first(s, x) == s.subrange(0, i) + if i < s.len() {
            s.subrange(i + 1, s.len() as int)
        } else {
            Seq::<u8>::empty()
        },
    decreases i,
{
    if s.len() == 0 {
        assert(s.subrange(0, i) =~= s);
    } else if i == 0 {
        assert(s.drop_first() =~= s.subrange(1, s.len() as int));
        assert(s.subrange(0, 0) =~= Seq::<u8>::empty());
    } else {
        let t = s.drop_first();
        assert forall|k: int| 0 <= k < i - 1 implies t[k] != x by {
            assert(t[k] == s[k + 1]);
        }
        lemma_remove_first(t, x, i - 1);
        if i < s.len() {
            assert(s.subrange(0, i) + s.subrange(i + 1, s.len() as int) =~= seq![s[0]] + (
            t.subrange(0, i - 1) + t.subrange(i, t.len() as int)));
        } else {
            assert(s.subrange(0, i) =~= seq![s[0]] + t.subrange(0, i - 1));
        }
    }
}

/// The board after a shot at `pos`: a hit removes the first cell equal to
/// `pos`, a miss leaves the board as it was. Returns whether it hit.
pub fn apply_shot(board: &Vec<u8>, pos: u8) -> (r: (bool, Vec<u8>))
    ensures
        r.0 == board@.contains(pos),
        r.1@ == remove_first(board@, pos),
{
    let mut i: usize = 0;
    while i < board.len() && board[i] != pos
        invariant
            i <= board@.len(),
            forall|k: int| 0 <= k < i ==> board@[k] != pos,
        decreases board@.len() - i,
    {
        i = i + 1;
    }
    let hit = i < board.len();
    let mut rest: Vec<u8> = Vec::new();
    let mut k: usize = 0;
    while k < board.len()
        invariant
            k <= board@.len(),
            i <= board@.len(),
            rest@ == if k <= i {
                board@.subrange(0, k as int)
            } else {
                board@.subrange(0, i as int) + board@.subrange(i + 1, k as int)
            },
        decreases board@.len() - k,
    {
        if k != i {
            rest.push(board[k]);
        }
        proof {
            if k + 1 <= i {
                assert(board@.subrange(0, k + 1) =~= board@.subrange(0, k as int).push(board@[k as int]));
            } else if k == i {
                assert(board@.subrange(i + 1, k + 1) =~= Seq::<u8>::empty());
                assert(rest@ =~= board@.subrange(0, i as int) + board@.subrange(i + 1, k + 1));
            } else {
                assert(board@.subrange(i + 1, k + 1) =~= board@.subrange(i + 1, k as int).push(board@[k as int]));
                assert(rest@ =~= board@.subrange(0, i as int) + board@.subrange(i + 1, k + 1));
            }
        }
        k = k + 1;
    }
    proof {
        lemma_remove_first(board@, pos, i as int);
        if hit {
            assert(board@.contains(pos)) by {
                assert(board@[i as int] == pos);
            }
        } else {
            assert(board@.subrange(0, i as int) =~= board@);
            assert(board@.subrange(0, i as int) + Seq::<u8>::empty() =~= board@);
        }
    }
    (hit, rest)
}

/// The answer to a shot: "Hit" or "Miss".
pub open spec fn verdict_text(hit: bool) -> Seq<char> {
    if hit {
        seq!['H', 'i', 't']
    } else {
        seq!['M', 'i', 's', 's']
    }
}

/// What the join program commits: the commitment to a legal board, or
/// nothing for a board that is not a legal fleet.
pub fn join_journal(game_id: String, fleet_id: String, board: &Vec<u8>, random: &str) -> (r:
    Option<BaseJournal>)
    ensures
        match r {
            Some(j) => valid_layout(board@) && j.game_id == game_id && j.fleet_id == fleet_id
                && j.board@ == commitment_of(random.spec_bytes(), board@),
            None => !valid_layout(board@),
        },
{
    if !crate::layout::validate_board(board) {
        return None;
    }
    let digest = board_commitment(random, board);
    Some(BaseJournal { game_id, fleet_id, board: digest })
}

/// What the fire program commits: the shooter's commitment, the target and
/// the position.
pub fn fire_journal(
    game_id: String,
    fleet_id: String,
    board: &Vec<u8>,
    random: &str,
    target: String,
    pos: u8,
) -> (r: FireJournal)
    ensures
        r.game_id == game_id,
        r.fleet_id == fleet_id,
        r.board@ == commitment_of(random.spec_bytes(), board@),
        r.target == target,
        r.pos == pos,
{
    let digest = board_commitment(random, board);
    FireJournal { game_id, fleet_id, board: digest, target, pos }
}

/// What the report program commits: the true answer to a shot at `pos`, and
/// the commitments before and after the shot. Nothing when the claimed
/// answer is not the true one.
pub fn report_journal(
    game_id: String,
    fleet_id: String,
    board: &Vec<u8>,
    random: &str,
    claimed: &String,
    pos: u8,
) -> (r: Option<ReportJournal>)
    ensures
        match r {
            Some(j) => claimed@ == verdict_text(board@.contains(pos)) && j.game_id == game_id
                && j.fleet_id == fleet_id && j.report@ == verdict_text(board@.contains(pos))
                && j.pos == pos && j.board@ == commitment_of(random.spec_bytes(), board@)
                && j.next_board@ == commitment_of(random.spec_bytes(), remove_first(board@, pos)),
            None => claimed@ != verdict_text(board@.contains(pos)),
        },
{
    let (hit, next) = apply_shot(board, pos);
    proof {
        reveal_strlit("Hit");
        reveal_strlit("Miss");
    }
    let report = if hit {
        String::from_str("Hit")
    } else {
        String::from_str("Miss")
    };
    assert(report@ =~= verdict_text(hit));
    if *claimed != report {
        return None;
    }
    let before = board_commitment(random, board);
    let after = board_commitment(random, &next);
    Some(ReportJournal { game_id, fleet_id, report, pos, board: before, next_board: after })
}

/// What the wave program commits: the ids alone, with an all-zero board.
pub fn wave_journal(game_id: String, fleet_id: String) -> (r: BaseJournal)
    ensures
        r.game_id == game_id,
        r.fleet_id == fleet_id,
        r.board@ == Seq::new(8, |i: int| 0u32),
{
    let r = BaseJournal { game_id, fleet_id, board: BoardDigest::from_words([0u32; 8]) };
    assert(r.board@ =~= Seq::new(8, |i: int| 0u32));
    r
}

/// What the win program commits: the claimant's commitment, as long as its
/// board still holds a cell other than zero; nothing otherwise.
pub fn win_journal(game_id: String, fleet_id: String, board: &Vec<u8>, random: &str) -> (r:
    Option<BaseJournal>)
    ensures
        match r {
            Some(j) => (exists|i: int| 0 <= i < board@.len() && board@[i] != 0) && j.game_id
                == game_id && j.fleet_id == fleet_id && j.board@ == commitment_of(
                random.spec_bytes(),
                board@,
            ),
            None => forall|i: int| 0 <= i < board@.len() ==> board@[i] == 0,
        },
{
    let mut i: usize = 0;
    while i < board.len()
        invariant
            i <= board@.len(),
            forall|k: int| 0 <= k < i ==> board@[k] == 0,
        decreases board@.len() - i,
    {
        if board[i] != 0 {
            let digest = board_commitment(random, board);
            return Some(BaseJournal { game_id, fleet_id, board: digest });
        }
        i = i + 1;
    }
    None
}

} // verus!
