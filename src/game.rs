use vstd::prelude::*;
use crate::board::BoardDigest;

verus! {

/// A participant of one game, with the commitment to its current board.
#[derive(Debug)]
pub struct Player {
    pub fleet_id: String,
    pub board: BoardDigest,
}

/// The abstract state of one game.
pub struct GameView {
    /// Fleet ids in the order in which they joined.
    pub roster: Seq<Seq<char>>,
    /// The stored board commitment of each fleet in the game.
    pub boards: Map<Seq<char>, Seq<u32>>,
    /// The fleet that holds the move.
    pub turn_holder: Option<Seq<char>>,
    /// Where the unresolved shot went, if there is one.
    pub pending_shot: Option<u8>,
}

pub open spec fn opt_string_view(o: Option<String>) -> Option<Seq<char>> {
    match o {
        Some(s) => Some(s@),
        None => None,
    }
}

pub open spec fn roster_of(players: Seq<Player>) -> Seq<Seq<char>> {
    players.map_values(|p: Player| p.fleet_id@)
}

impl GameView {
    /// A game has at least one player, no fleet twice, a board for exactly
    /// the fleets of its roster, and a turn holder among them.
    pub open spec fn wf(self) -> bool {
        &&& self.roster.len() > 0
        &&& self.roster.no_duplicates()
        &&& forall|f: Seq<char>| #[trigger] self.boards.contains_key(f) <==> self.roster.contains(f)
        &&& self.turn_holder is Some
        &&& self.roster.contains(self.turn_holder->0)
    }

    pub open spec fn has_player(self, fleet: Seq<char>) -> bool {
        self.boards.contains_key(fleet)
    }

    /// The game that a first join opens.
    pub open spec fn opened_by(fleet: Seq<char>, board: Seq<u32>) -> GameView {
        GameView {
            roster: seq![fleet],
            boards: map![fleet => board],
            turn_holder: Some(fleet),
            pending_shot: None,
        }
    }

    /// A join: an unseen fleet is added with its board and takes the move if
    /// nobody holds it; a fleet already in the game changes nothing.
    pub open spec fn joined(self, fleet: Seq<char>, board: Seq<u32>) -> GameView {
        if self.has_player(fleet) {
            self
        } else {
            GameView {
                roster: self.roster.push(fleet),
                boards: self.boards.insert(fleet, board),
                turn_holder: if self.turn_holder is None { Some(fleet) } else { self.turn_holder },
                pending_shot: self.pending_shot,
            }
        }
    }

    /// A shot at `target`: the target must answer, at `pos`.
    pub open spec fn fired(self, target: Seq<char>, pos: u8) -> GameView {
        GameView { turn_holder: Some(target), pending_shot: Some(pos), ..self }
    }

    /// A report by `fleet`: its board becomes `next`, and the shot is resolved.
    pub open spec fn reported(self, fleet: Seq<char>, next: Seq<u32>) -> GameView {
        GameView { boards: self.boards.insert(fleet, next), pending_shot: None, ..self }
    }

    /// The fleet that joined right after `fleet`, wrapping round to the first.
    pub open spec fn successor(self, fleet: Seq<char>) -> Seq<char> {
        self.roster[(self.roster.index_of(fleet) + 1) % (self.roster.len() as int)]
    }

    /// A wave by `fleet`: the move passes to the next fleet in join order.
    pub open spec fn waved(self, fleet: Seq<char>) -> GameView {
        GameView { turn_holder: Some(self.successor(fleet)), ..self }
    }
}

/// One game: its id, its players in join order, and whose move it is.
#[derive(Debug)]
pub struct Game {
    pub game_id: String,
    pub players: Vec<Player>,
    pub turn_holder: Option<String>,
    pub pending_shot: Option<u8>,
}

impl View for Game {
    type V = GameView;

    open spec fn view(&self) -> GameView {
        let roster = roster_of(self.players@);
        GameView {
            roster,
            boards: Map::new(
                |f: Seq<char>| roster.contains(f),
                |f: Seq<char>| self.players@[roster.index_of(f)].board@,
            ),
            turn_holder: opt_string_view(self.turn_holder),
            pending_shot: self.pending_shot,
        }
    }
}

/// In a sequence without duplicates, the index of an element is the one
/// place where it stands.
pub proof fn lemma_index_of_unique(s: Seq<Seq<char>>, i: int)
    requires
        s.no_duplicates(),
        0 <= i < s.len(),
    ensures
        s.contains(s[i]),
        s.index_of(s[i]) == i,
{
    assert(s.contains(s[i]));
    let j = s.index_of(s[i]);
    assert(0 <= j < s.len() && s[j] == s[i]);
}

impl Game {
    pub open spec fn wf(&self) -> bool {
        self@.wf()
    }

    /// Opens a game with its first player, who holds the first move.
    pub fn open(game_id: &String, fleet_id: &String, board: BoardDigest) -> (r: Game)
        ensures
            r.wf(),
            r.game_id@ == game_id@,
            r@ == GameView::opened_by(fleet_id@, board@),
    {
        let mut players: Vec<Player> = Vec::new();
        players.push(Player { fleet_id: fleet_id.clone(), board });
        let g = Game {
            game_id: game_id.clone(),
            players,
            turn_holder: Some(fleet_id.clone()),
            pending_shot: None,
        };
        let ghost v = g@;
        assert(v.roster =~= seq![fleet_id@]);
        proof {
            lemma_index_of_unique(v.roster, 0);
        }
        assert(v.boards =~= map![fleet_id@ => board@]);
        g
    }

    /// Where `fleet_id` stands in the roster, if it is in the game.
    pub fn index_of_player(&self, fleet_id: &String) -> (r: Option<usize>)
        ensures
            match r {
                Some(i) => i < self.players@.len() && self@.roster[i as int] == fleet_id@,
                None => !self@.roster.contains(fleet_id@),
            },
    {
        let ghost roster = self@.roster;
        let mut i: usize = 0;
        while i < self.players.len()
            invariant
                i <= self.players@.len(),
                roster == roster_of(self.players@),
                forall|k: int| 0 <= k < i ==> roster[k] != fleet_id@,
            decreases self.players@.len() - i,
        {
            if self.players[i].fleet_id == *fleet_id {
                return Some(i);
            }
            i = i + 1;
        }
        None
    }

    /// Whether `fleet_id` is in the game.
    pub fn has_player(&self, fleet_id: &String) -> (r: bool)
        ensures
            r == self@.has_player(fleet_id@),
    {
        self.index_of_player(fleet_id).is_some()
    }

    /// The stored commitment of `fleet_id`, if it is in the game.
    pub fn board_of(&self, fleet_id: &String) -> (r: Option<BoardDigest>)
        requires
            self.wf(),
        ensures
            match r {
                Some(d) => self@.has_player(fleet_id@) && d@ == self@.boards[fleet_id@],
                None => !self@.has_player(fleet_id@),
            },
    {
        match self.index_of_player(fleet_id) {
            Some(i) => {
                proof {
                    lemma_index_of_unique(self@.roster, i as int);
                }
                Some(self.players[i].board)
            },
            None => None,
        }
    }

    /// Whether `fleet_id` holds the move.
    pub fn holds_turn(&self, fleet_id: &String) -> (r: bool)
        ensures
            r == (self@.turn_holder == Some(fleet_id@)),
    {
        match &self.turn_holder {
            Some(t) => *t == *fleet_id,
            None => false,
        }
    }
    /// Adds a fleet that is not yet in the game; it takes the move if nobody
    /// holds it.
    pub fn add_player(&mut self, fleet_id: &String, board: BoardDigest)
        requires
            old(self).wf(),
            !old(self)@.has_player(fleet_id@),
        ensures
            final(self).wf(),
            final(self).game_id == old(self).game_id,
            final(self)@ == old(self)@.joined(fleet_id@, board@),
    {
        let ghost pre = self@;
        self.players.push(Player { fleet_id: fleet_id.clone(), board });
        if self.turn_holder.is_none() {
            self.turn_holder = Some(fleet_id.clone());
        }
        let ghost post = self@;
        let ghost want = pre.joined(fleet_id@, board@);
        assert(want.boards == pre.boards.insert(fleet_id@, board@));
        assert(post.roster =~= pre.roster.push(fleet_id@));
        assert(post.roster.no_duplicates()) by {
            assert forall|a: int, b: int| 0 <= a < b < post.roster.len() implies post.roster[a]
                != post.roster[b] by {
                if b == pre.roster.len() {
                    assert(pre.roster.contains(pre.roster[a]));
                }
            }
        }
        assert forall|f: Seq<char>| #![trigger post.boards.dom().contains(f)] #![trigger want.boards.dom().contains(f)]
            post.boards.dom().contains(f) == want.boards.dom().contains(f)
            && (post.boards.dom().contains(f) ==> post.boards[f] == want.boards[f]) by {
            let n = pre.roster.len() as int;
            if f == fleet_id@ {
                assert(post.roster[n] == f);
                lemma_index_of_unique(post.roster, n);
            } else if pre.roster.contains(f) {
                let i = pre.roster.index_of(f);
                lemma_index_of_unique(pre.roster, i);
                assert(post.roster[i] == f);
                lemma_index_of_unique(post.roster, i);
            } else {
                if post.roster.contains(f) {
                    let i = post.roster.index_of(f);
                    if i < n {
                        assert(pre.roster[i] == f);
                    }
                }
            }
        }
        assert(post.boards.dom() =~= want.boards.dom());
        assert(post.boards =~= want.boards);
        assert(post.roster.contains(post.turn_holder->0)) by {
            if pre.turn_holder is Some {
                let t = pre.turn_holder->0;
                assert(post.roster[pre.roster.index_of(t)] == t);
            } else {
                assert(post.roster[pre.roster.len() as int] == fleet_id@);
            }
        }
    }

    /// Records a shot at `target`, who must now answer for `pos`.
    pub fn record_shot(&mut self, target: &String, pos: u8)
        requires
            old(self).wf(),
            old(self)@.has_player(target@),
        ensures
            final(self).wf(),
            final(self).game_id == old(self).game_id,
            final(self)@ == old(self)@.fired(target@, pos),
    {
        self.turn_holder = Some(target.clone());
        self.pending_shot = Some(pos);
        assert(self@.boards =~= old(self)@.boards);
    }

    /// Records the report of the player at `i`: its board becomes `next`
    /// and the shot is resolved.
    pub fn record_report(&mut self, i: usize, next: BoardDigest)
        requires
            old(self).wf(),
            i < old(self).players@.len(),
        ensures
            final(self).wf(),
            final(self).game_id == old(self).game_id,
            final(self)@ == old(self)@.reported(old(self)@.roster[i as int], next@),
    {
        let ghost pre = self@;
        let ghost fleet = pre.roster[i as int];
        self.players[i].board = next;
        self.pending_shot = None;
        let ghost post = self@;
        assert(post.roster =~= pre.roster);
        proof {
            lemma_index_of_unique(pre.roster, i as int);
        }
        assert forall|f: Seq<char>| post.boards.contains_key(f) implies post.boards[f]
            == pre.boards.insert(fleet, next@)[f] by {
            let j = pre.roster.index_of(f);
            lemma_index_of_unique(pre.roster, j);
        }
        assert(post.boards =~= pre.boards.insert(fleet, next@));
    }

    /// Passes the move from the player at `i` to the one that joined after
    /// it, or to the first one after the last.
    pub fn pass_turn(&mut self, i: usize)
        requires
            old(self).wf(),
            i < old(self).players@.len(),
        ensures
            final(self).wf(),
            final(self).game_id == old(self).game_id,
            final(self)@ == old(self)@.waved(old(self)@.roster[i as int]),
    {
        let ghost pre = self@;
        proof {
            lemma_index_of_unique(pre.roster, i as int);
        }
        let n = self.players.len();
        let next: usize = if i + 1 < n { i + 1 } else { 0 };
        proof {
            if i + 1 < n {
                vstd::arithmetic::div_mod::lemma_small_mod((i + 1) as nat, n as nat);
            } else {
                vstd::arithmetic::div_mod::lemma_mod_self_0(n as int);
            }
        }
        assert(next as int == (i as int + 1) % (pre.roster.len() as int));
        self.turn_holder = Some(self.players[next].fleet_id.clone());
        assert(self@.boards =~= pre.boards);
        assert(self@.roster.contains(self@.roster[next as int]));
    }
}

} // verus!
