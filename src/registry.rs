use vstd::prelude::*;
use crate::game::{lemma_index_of_unique, Game, GameView};
use crate::rules::{
    already_joined, fire_error, fire_step, games_wf, join_step, report_error, report_step,
    wave_error, wave_step, BaseJournal, FireJournal, GamesView, MoveError, ReportJournal,
};

verus! {

pub open spec fn ids_of(games: Seq<Game>) -> Seq<Seq<char>> {
    games.map_values(|g: Game| g.game_id@)
}

/// The games of a list, keyed by their ids.
pub open spec fn view_of(games: Seq<Game>) -> GamesView {
    let ids = ids_of(games);
    Map::new(|id: Seq<char>| ids.contains(id), |id: Seq<char>| games[ids.index_of(id)]@)
}

/// Replacing a game by one with the same id replaces it in the map.
proof fn lemma_view_update(games: Seq<Game>, i: int, g: Game)
    requires
        ids_of(games).no_duplicates(),
        0 <= i < games.len(),
        g.game_id@ == games[i].game_id@,
    ensures
        ids_of(games.update(i, g)) == ids_of(games),
        view_of(games.update(i, g)) == view_of(games).insert(games[i].game_id@, g@),
{
    let post = games.update(i, g);
    let ids = ids_of(games);
    assert(ids_of(post) =~= ids);
    let want = view_of(games).insert(games[i].game_id@, g@);
    lemma_index_of_unique(ids, i);
    assert forall|id: Seq<char>| #![trigger view_of(post).dom().contains(id)]
        view_of(post).dom().contains(id) implies view_of(post)[id] == want[id] by {
        let k = ids.index_of(id);
        lemma_index_of_unique(ids, k);
    }
    assert(view_of(post).dom() =~= want.dom());
    assert(view_of(post) =~= want);
}

/// Appending a game of a new id adds it to the map.
proof fn lemma_view_push(games: Seq<Game>, g: Game)
    requires
        ids_of(games).no_duplicates(),
        !ids_of(games).contains(g.game_id@),
    ensures
        ids_of(games.push(g)).no_duplicates(),
        view_of(games.push(g)) == view_of(games).insert(g.game_id@, g@),
{
    let post = games.push(g);
    let ids = ids_of(games);
    let n = games.len() as int;
    assert(ids_of(post) =~= ids.push(g.game_id@));
    assert(ids_of(post).no_duplicates()) by {
        assert forall|a: int, b: int| 0 <= a < b < ids_of(post).len() implies ids_of(post)[a]
            != ids_of(post)[b] by {
            if b == n {
                assert(ids.contains(ids[a]));
            }
        }
    }
    let want = view_of(games).insert(g.game_id@, g@);
    assert forall|id: Seq<char>| #![trigger view_of(post).dom().contains(id)] #![trigger want.dom().contains(id)]
        view_of(post).dom().contains(id) == want.dom().contains(id)
        && (view_of(post).dom().contains(id) ==> view_of(post)[id] == want[id]) by {
        if id == g.game_id@ {
            assert(ids_of(post)[n] == id);
            lemma_index_of_unique(ids_of(post), n);
        } else if ids.contains(id) {
            let k = ids.index_of(id);
            lemma_index_of_unique(ids, k);
            assert(ids_of(post)[k] == id);
            lemma_index_of_unique(ids_of(post), k);
        } else if ids_of(post).contains(id) {
            let k = ids_of(post).index_of(id);
            if k < n {
                assert(ids[k] == id);
            }
        }
    }
    assert(view_of(post).dom() =~= want.dom());
    assert(view_of(post) =~= want);
}

/// Every game that the referee knows of, each under a distinct id.
#[derive(Debug)]
pub struct Registry {
    pub games: Vec<Game>,
}

impl View for Registry {
    type V = GamesView;

    open spec fn view(&self) -> GamesView {
        view_of(self.games@)
    }
}

impl Registry {
    pub open spec fn wf(&self) -> bool {
        &&& ids_of(self.games@).no_duplicates()
        &&& forall|i: int| 0 <= i < self.games@.len() ==> (#[trigger] self.games@[i]).wf()
    }

    /// A registry without games.
    pub fn new() -> (r: Registry)
        ensures
            r.wf(),
            r@ == Map::<Seq<char>, GameView>::empty(),
    {
        let r = Registry { games: Vec::new() };
        assert(r@ =~= Map::<Seq<char>, GameView>::empty());
        r
    }

    /// Every game of a well-formed registry is well formed.
    pub proof fn lemma_games_wf(&self)
        requires
            self.wf(),
        ensures
            games_wf(self@),
    {
        assert forall|id: Seq<char>| #[trigger] self@.contains_key(id) implies self@[id].wf() by {
            let k = ids_of(self.games@).index_of(id);
            assert(self.games@[k].wf());
        }
    }

    /// Where the game `game_id` stands in the list, if it exists.
    pub fn find_game(&self, game_id: &String) -> (r: Option<usize>)
        requires
            self.wf(),
        ensures
            match r {
                Some(i) => i < self.games@.len() && self.games@[i as int].game_id@ == game_id@
                    && self@.contains_key(game_id@) && self@[game_id@] == self.games@[i as int]@,
                None => !self@.contains_key(game_id@),
            },
    {
        let ghost ids = ids_of(self.games@);
        let mut i: usize = 0;
        while i < self.games.len()
            invariant
                i <= self.games@.len(),
                ids == ids_of(self.games@),
                ids.no_duplicates(),
                forall|k: int| 0 <= k < i ==> ids[k] != game_id@,
            decreases self.games@.len() - i,
        {
            if self.games[i].game_id == *game_id {
                proof {
                    lemma_index_of_unique(ids, i as int);
                }
                return Some(i);
            }
            i = i + 1;
        }
        None
    }

    /// The game `game_id`, if it exists.
    pub fn game(&self, game_id: &String) -> (r: Option<&Game>)
        requires
            self.wf(),
        ensures
            match r {
                Some(g) => self@.contains_key(game_id@) && g@ == self@[game_id@]
                    && g.game_id@ == game_id@,
                None => !self@.contains_key(game_id@),
            },
    {
        match self.find_game(game_id) {
            Some(i) => Some(&self.games[i]),
            None => None,
        }
    }

    /// Joins a fleet to a game, opening the game if it is new. Returns
    /// whether the fleet was new to the game.
    pub fn join(&mut self, j: &BaseJournal) -> (r: bool)
        requires
            old(self).wf(),
        ensures
            final(self).wf(),
            r == !already_joined(old(self)@, *j),
            final(self)@ == join_step(old(self)@, *j),
    {
        match self.find_game(&j.game_id) {
            None => {
                let g = Game::open(&j.game_id, &j.fleet_id, j.board);
                proof {
                    lemma_view_push(self.games@, g);
                }
                self.games.push(g);
                true
            },
            Some(i) => {
                if self.games[i].has_player(&j.fleet_id) {
                    assert(join_step(self@, *j) =~= self@);
                    false
                } else {
                    let ghost pre = self.games@;
                    self.games[i].add_player(&j.fleet_id, j.board);
                    proof {
                        lemma_view_update(pre, i as int, self.games@[i as int]);
                        assert(self.games@ == pre.update(i as int, self.games@[i as int]));
                    }
                    true
                }
            },
        }
    }

    /// A shot: on success the target holds the move and owes a report at
    /// the shot's position; on failure nothing changes.
    pub fn fire(&mut self, j: &FireJournal) -> (r: Result<(), MoveError>)
        requires
            old(self).wf(),
        ensures
            final(self).wf(),
            final(self)@ == fire_step(old(self)@, *j),
            r == match fire_error(old(self)@, *j) {
                Some(e) => Err(e),
                None => Ok(()),
            },
    {
        let i = match self.find_game(&j.game_id) {
            None => {
                return Err(MoveError::GameNotFound);
            },
            Some(i) => i,
        };
        if !self.games[i].has_player(&j.fleet_id) {
            return Err(MoveError::PlayerNotInGame);
        }
        if !self.games[i].holds_turn(&j.fleet_id) {
            return Err(MoveError::NotYourTurn);
        }
        if self.games[i].pending_shot.is_some() {
            return Err(MoveError::ReportPending);
        }
        if j.target == j.fleet_id {
            return Err(MoveError::TargetIsSelf);
        }
        if !self.games[i].has_player(&j.target) {
            return Err(MoveError::TargetNotInGame);
        }
        let ghost pre = self.games@;
        self.games[i].record_shot(&j.target, j.pos);
        proof {
            lemma_view_update(pre, i as int, self.games@[i as int]);
            assert(self.games@ == pre.update(i as int, self.games@[i as int]));
        }
        Ok(())
    }

    /// A report: on success the reporter's stored board becomes the
    /// journal's next board and the shot is resolved; on failure nothing
    /// changes.
    pub fn report(&mut self, j: &ReportJournal) -> (r: Result<(), MoveError>)
        requires
            old(self).wf(),
        ensures
            final(self).wf(),
            final(self)@ == report_step(old(self)@, *j),
            r == match report_error(old(self)@, *j) {
                Some(e) => Err(e),
                None => Ok(()),
            },
    {
        let i = match self.find_game(&j.game_id) {
            None => {
                return Err(MoveError::GameNotFound);
            },
            Some(i) => i,
        };
        let p = match self.games[i].index_of_player(&j.fleet_id) {
            None => {
                return Err(MoveError::PlayerNotInGame);
            },
            Some(p) => p,
        };
        proof {
            lemma_index_of_unique(self.games@[i as int]@.roster, p as int);
        }
        if self.games[i].pending_shot.is_none() {
            return Err(MoveError::NoPendingReport);
        }
        if !self.games[i].holds_turn(&j.fleet_id) {
            return Err(MoveError::NotYourTurn);
        }
        if !self.games[i].players[p].board.same_as(&j.board) {
            return Err(MoveError::StaleBoardDigest);
        }
        match self.games[i].pending_shot {
            Some(shot) => {
                if shot != j.pos {
                    return Err(MoveError::WrongPositionReported);
                }
            },
            None => {},
        }
        let ghost pre = self.games@;
        self.games[i].record_report(p, j.next_board);
        proof {
            lemma_view_update(pre, i as int, self.games@[i as int]);
            assert(self.games@ == pre.update(i as int, self.games@[i as int]));
        }
        Ok(())
    }

    /// A wave: on success the move passes to the fleet that joined after
    /// the waving one (the first one after the last), whose id is returned;
    /// on failure nothing changes.
    pub fn wave(&mut self, j: &BaseJournal) -> (r: Result<String, MoveError>)
        requires
            old(self).wf(),
        ensures
            final(self).wf(),
            final(self)@ == wave_step(old(self)@, *j),
            match r {
                Ok(next) => wave_error(old(self)@, *j) is None
                    && next@ == old(self)@[j.game_id@].successor(j.fleet_id@),
                Err(e) => wave_error(old(self)@, *j) == Some(e),
            },
    {
        let i = match self.find_game(&j.game_id) {
            None => {
                return Err(MoveError::GameNotFound);
            },
            Some(i) => i,
        };
        let p = match self.games[i].index_of_player(&j.fleet_id) {
            None => {
                return Err(MoveError::PlayerNotInGame);
            },
            Some(p) => p,
        };
        if self.games[i].pending_shot.is_some() {
            return Err(MoveError::ReportPending);
        }
        if !self.games[i].holds_turn(&j.fleet_id) {
            return Err(MoveError::NotYourTurn);
        }
        let ghost pre = self.games@;
        proof {
            lemma_index_of_unique(pre[i as int]@.roster, p as int);
        }
        self.games[i].pass_turn(p);
        proof {
            lemma_view_update(pre, i as int, self.games@[i as int]);
            assert(self.games@ == pre.update(i as int, self.games@[i as int]));
        }
        let next = match &self.games[i].turn_holder {
            Some(t) => t.clone(),
            None => String::new(),
        };
        Ok(next)
    }
}

} // verus!
