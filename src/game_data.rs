//! The score tables of all players, and whose turn it is.

use crate::score_table::{filled_count, valid_table, RecordError, ScoreTable, MAX_BOX_SCORE};
use crate::scoring::{box_index, Boxes};
use crate::scoring::NUM_BOXES;
use vstd::arithmetic::div_mod::{lemma_mod_self_0, lemma_small_mod};
use vstd::prelude::*;

verus! {

/// Number of filled categories in a table.
pub open spec fn filled(t: Seq<Option<u32>>) -> nat {
    filled_count(t, NUM_BOXES as int)
}

/// Player `i` has filled fewer categories than player `i - 1`.
pub open spec fn is_behind(tables: Seq<Seq<Option<u32>>>, i: int) -> bool {
    filled(tables[i - 1]) > filled(tables[i])
}

/// Every category of table `t` is filled.
pub open spec fn is_full(t: Seq<Option<u32>>) -> bool {
    forall|j: int| 0 <= j < NUM_BOXES ==> #[trigger] t[j] is Some
}

/// Whose turn it is: the first player behind the one before, or the first player when nobody
/// is behind.
pub open spec fn current_player(tables: Seq<Seq<Option<u32>>>) -> int {
    if exists|i: int| 1 <= i < tables.len() && #[trigger] is_behind(tables, i) {
        choose|i: int|
            1 <= i < tables.len() && #[trigger] is_behind(tables, i) && forall|k: int|
                1 <= k < i ==> !#[trigger] is_behind(tables, k)
    } else {
        0
    }
}

/// With players filling their tables in turn, the player to move is the first who has filled
/// one category fewer than those before: when players `0..k` have filled `c + 1` categories
/// and players `k..` have filled `c`, it is player `k`, or player 0 when all are level.
pub proof fn lemma_current_player_in_lockstep(tables: Seq<Seq<Option<u32>>>, k: int, c: nat)
    requires
        0 <= k <= tables.len(),
        forall|i: int| 0 <= i < k ==> filled(#[trigger] tables[i]) == c + 1,
        forall|i: int| k <= i < tables.len() ==> filled(#[trigger] tables[i]) == c,
    ensures
        current_player(tables) == if 0 < k < tables.len() {
            k
        } else {
            0
        },
{
    if 0 < k < tables.len() {
        assert(is_behind(tables, k));
        assert forall|j: int| 1 <= j < k implies !#[trigger] is_behind(tables, j) by {
            assert(filled(tables[j - 1]) == c + 1);
        }
        let i = choose|i: int|
            1 <= i < tables.len() && #[trigger] is_behind(tables, i) && forall|m: int|
                1 <= m < i ==> !#[trigger] is_behind(tables, m);
        if i > k {
            assert(!is_behind(tables, k));
        }
        if i < k {
            assert(filled(tables[i - 1]) == c + 1);
        }
        if i > k {
            assert(filled(tables[i - 1]) == c);
        }
    } else {
        assert forall|i: int| 1 <= i < tables.len() implies !#[trigger] is_behind(tables, i) by {
            if k == 0 {
                assert(filled(tables[i - 1]) == c);
            } else {
                assert(filled(tables[i - 1]) == c + 1);
            }
        }
    }
}

/// The state of a game: one score table per player.
pub struct GameData {
    num_players: usize,
    scores: Vec<ScoreTable>,
}

impl GameData {
    /// Number of players.
    pub closed spec fn players(&self) -> nat {
        self.num_players as nat
    }

    /// The players' tables, in player order.
    pub closed spec fn tables(&self) -> Seq<Seq<Option<u32>>> {
        self.scores@.map_values(|t: ScoreTable| t@)
    }

    /// One well-formed table per player.
    pub open spec fn wf(&self) -> bool {
        &&& self.tables().len() == self.players()
        &&& forall|i: int| 0 <= i < self.tables().len() ==> valid_table(#[trigger] self.tables()[i])
    }

    /// A game for `num_players` players, every table empty.
    pub fn new(num_players: usize) -> (r: GameData)
        ensures
            r.wf(),
            r.players() == num_players,
            forall|i: int, j: int|
                0 <= i < num_players && 0 <= j < NUM_BOXES ==> #[trigger] r.tables()[i][j] is None,
    {
        let mut scores: Vec<ScoreTable> = Vec::new();
        let mut i: usize = 0;
        while i < num_players
            invariant
                i <= num_players,
                scores@.len() == i,
                forall|k: int| 0 <= k < i ==> (#[trigger] scores@[k]).wf(),
                forall|k: int, j: int|
                    0 <= k < i && 0 <= j < NUM_BOXES ==> #[trigger] scores@[k]@[j] is None,
            decreases num_players - i,
        {
            scores.push(ScoreTable::new());
            i = i + 1;
        }
        let r = GameData { num_players, scores };
        assert forall|k: int| 0 <= k < r.tables().len() implies valid_table(
            #[trigger] r.tables()[k],
        ) by {
            assert(r.tables()[k] == r.scores@[k]@);
        }
        r
    }

    /// The table of player `player_id`.
    pub fn get_score_table(&self, player_id: usize) -> (r: &ScoreTable)
        requires
            self.wf(),
            player_id < self.players(),
        ensures
            r.wf(),
            r@ == self.tables()[player_id as int],
    {
        assert(self.tables()[player_id as int] == self.scores@[player_id as int]@);
        &self.scores[player_id]
    }

    /// The table of player `player_id`, to change in place.
    pub fn get_mut_score_table(&mut self, player_id: usize) -> (r: &mut ScoreTable)
        requires
            old(self).wf(),
            player_id < old(self).players(),
        ensures
            r.wf(),
            r@ == old(self).tables()[player_id as int],
            final(self).players() == old(self).players(),
            final(self).tables() == old(self).tables().update(player_id as int, final(r)@),
    {
        assert(self.tables()[player_id as int] == self.scores@[player_id as int]@);
        &mut self.scores[player_id]
    }

    /// Fills category `b` of player `player_id` with `score`; a filled category is left as it
    /// is and an error returned.
    pub fn confirm_score(&mut self, player_id: usize, b: Boxes, score: u32) -> (r: Result<
        (),
        RecordError,
    >)
        requires
            old(self).wf(),
            player_id < old(self).players(),
            score <= MAX_BOX_SCORE,
        ensures
            final(self).wf(),
            final(self).players() == old(self).players(),
            r is Err <==> old(self).tables()[player_id as int][box_index(b)] is Some,
            r is Ok ==> final(self).tables() == old(self).tables().update(
                player_id as int,
                old(self).tables()[player_id as int].update(box_index(b), Some(score)),
            ),
            r is Err ==> final(self).tables() == old(self).tables(),
    {
        let r = self.get_mut_score_table(player_id).confirm_score(b, score);
        proof {
            assert(r is Err ==> self.tables() =~= old(self).tables());
        }
        r
    }

    /// Number of players.
    pub fn get_num_players(&self) -> (r: usize)
        ensures
            r == self.players(),
    {
        self.num_players
    }

    /// Whose turn it is, worked out from the players' progress: the first player who has
    /// filled fewer categories than the one before, or player 0 when nobody has.
    pub fn current_player_id(&self) -> (r: usize)
        requires
            self.wf(),
        ensures
            r == current_player(self.tables()),
            r == 0 || r < self.players(),
    {
        let mut counts: Vec<usize> = Vec::new();
        let mut i: usize = 0;
        while i < self.scores.len()
            invariant
                self.wf(),
                i <= self.tables().len(),
                counts@.len() == i,
                forall|k: int| 0 <= k < i ==> #[trigger] counts@[k] == filled(self.tables()[k]),
            decreases self.tables().len() - i,
        {
            assert(self.tables()[i as int] == self.scores@[i as int]@);
            counts.push(self.scores[i].get_num_filled_scores());
            i = i + 1;
        }
        let mut p: usize = 1;
        while p < self.num_players
            invariant
                self.wf(),
                1 <= p,
                counts@.len() == self.tables().len(),
                forall|k: int| 0 <= k < counts@.len() ==> #[trigger] counts@[k] == filled(self.tables()[k]),
                forall|k: int| 1 <= k < p ==> !#[trigger] is_behind(self.tables(), k),
            decreases self.num_players - p,
        {
            if counts[p - 1] > counts[p] {
                assert(is_behind(self.tables(), p as int));
                return p;
            }
            p = p + 1;
        }
        0
    }

    /// The player who plays after `player_id`.
    pub fn next_player_id(&self, player_id: usize) -> (r: usize)
        requires
            player_id < self.players(),
        ensures
            r == (player_id + 1) % (self.players() as int),
    {
        if player_id + 1 == self.num_players {
            proof {
                lemma_mod_self_0(self.players() as int);
            }
            0
        } else {
            proof {
                lemma_small_mod((player_id + 1) as nat, self.players());
            }
            player_id + 1
        }
    }

    /// Whether every player has filled every category.
    pub fn is_game_over(&self) -> (r: bool)
        requires
            self.wf(),
        ensures
            r == forall|i: int| 0 <= i < self.players() ==> is_full(#[trigger] self.tables()[i]),
    {
        let mut i: usize = 0;
        while i < self.scores.len()
            invariant
                self.wf(),
                i <= self.tables().len(),
                forall|k: int| 0 <= k < i ==> is_full(#[trigger] self.tables()[k]),
            decreases self.tables().len() - i,
        {
            assert(self.tables()[i as int] == self.scores@[i as int]@);
            if !self.scores[i].has_all_scores() {
                return false;
            }
            i = i + 1;
        }
        true
    }
}

} // verus!
