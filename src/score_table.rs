//! A player's score table: one record per category, the upper-section bonus and the totals.

use crate::scoring::{box_index, lemma_box_order, Boxes, NUM_BOXES, NUM_UPPER_BOXES};
use vstd::prelude::*;

verus! {

/// Raised when a filled record is filled again.
#[derive(Debug, PartialEq, Eq, Structural)]
pub enum RecordError {
    TryToFillFilledRecord,
}

/// One cell of a score table: unfilled, or filled with a final score.
#[derive(Clone, Copy, Debug, PartialEq, Eq, Structural)]
pub struct Record {
    score: Option<u32>,
}

impl Record {
    /// The score held by this record, if it is filled.
    pub closed spec fn view_score(self) -> Option<u32> {
        self.score
    }

    /// An unfilled record.
    pub fn new() -> (r: Record)
        ensures
            r.view_score() is None,
    {
        Record { score: None }
    }

    /// A record filled with `score`.
    pub fn new_with_score(score: u32) -> (r: Record)
        ensures
            r.view_score() == Some(score),
    {
        Record { score: Some(score) }
    }

    /// Fills an unfilled record; a filled one is left as it is and an error returned.
    pub fn fill(&mut self, score: u32) -> (r: Result<(), RecordError>)
        ensures
            r is Err <==> old(self).view_score() is Some,
            r is Ok ==> final(self).view_score() == Some(score),
            r is Err ==> *final(self) == *old(self),
    {
        if self.is_filled() {
            return Err(RecordError::TryToFillFilledRecord);
        }
        self.score = Some(score);
        Ok(())
    }

    /// The score held by this record, if it is filled.
    pub fn get_score(&self) -> (r: &Option<u32>)
        ensures
            *r == self.view_score(),
    {
        &self.score
    }

    /// Whether this record holds a score.
    pub fn is_filled(&self) -> (r: bool)
        ensures
            r == self.view_score() is Some,
    {
        matches!(self.score, Some(..))
    }
}

/// The largest score that one category can receive (a Yahtzee).
pub const MAX_BOX_SCORE: u32 = 50;

/// A score counted as zero while the record is unfilled.
pub open spec fn score_or_zero(o: Option<u32>) -> nat {
    match o {
        Some(s) => s as nat,
        None => 0,
    }
}

/// Sum of the filled scores among the first `n` records.
pub open spec fn sum_scores(t: Seq<Option<u32>>, n: int) -> nat
    decreases n,
{
    if n <= 0 {
        0
    } else {
        sum_scores(t, n - 1) + score_or_zero(t[n - 1])
    }
}

/// Number of filled records among the first `n`.
pub open spec fn filled_count(t: Seq<Option<u32>>, n: int) -> nat
    decreases n,
{
    if n <= 0 {
        0
    } else {
        filled_count(t, n - 1) + if t[n - 1] is Some {
            1nat
        } else {
            0nat
        }
    }
}

/// The most that the first `n` upper records can still sum to: the filled scores, and five
/// dice of the category's face for each unfilled one.
pub open spec fn upper_max(t: Seq<Option<u32>>, n: int) -> nat
    decreases n,
{
    if n <= 0 {
        0
    } else {
        upper_max(t, n - 1) + match t[n - 1] {
            Some(s) => s as nat,
            None => 5 * n as nat,
        }
    }
}

/// Sum of the scores of the upper section.
pub open spec fn upper_total(t: Seq<Option<u32>>) -> nat {
    sum_scores(t, NUM_UPPER_BOXES as int)
}

/// The bonus: earned once the upper section reaches the threshold, zero once it cannot, and
/// undecided while it still can.
pub open spec fn bonus_of(t: Seq<Option<u32>>) -> Option<u32> {
    if upper_total(t) >= ScoreTable::BONUS_THRESHOLD {
        Some(ScoreTable::BONUS_POINT)
    } else if upper_max(t, NUM_UPPER_BOXES as int) >= ScoreTable::BONUS_THRESHOLD {
        None
    } else {
        Some(0)
    }
}

/// Sum of all filled scores plus the bonus, an undecided bonus counting as zero.
pub open spec fn total_of(t: Seq<Option<u32>>) -> nat {
    sum_scores(t, NUM_BOXES as int) + score_or_zero(bonus_of(t))
}

/// The table as it would be with category `b` filled by `score`, unless `b` is filled already.
pub open spec fn filled_by(t: Seq<Option<u32>>, b: Boxes, score: u32) -> Seq<Option<u32>> {
    if t[box_index(b)] is Some {
        t
    } else {
        t.update(box_index(b), Some(score))
    }
}

/// Records of a well-formed table: one per category, none above the largest possible score.
pub open spec fn valid_table(t: Seq<Option<u32>>) -> bool {
    &&& t.len() == NUM_BOXES
    &&& forall|i: int| 0 <= i < t.len() ==> score_or_zero(#[trigger] t[i]) <= MAX_BOX_SCORE
}

/// Each partial sum is bounded by the largest score per record.
proof fn lemma_sums_bounded(t: Seq<Option<u32>>, n: int)
    requires
        valid_table(t),
        0 <= n <= NUM_BOXES,
    ensures
        sum_scores(t, n) <= MAX_BOX_SCORE * n,
        n <= NUM_UPPER_BOXES ==> upper_max(t, n) <= MAX_BOX_SCORE * n,
        filled_count(t, n) <= n,
    decreases n,
{
    if n > 0 {
        lemma_sums_bounded(t, n - 1);
        assert(score_or_zero(t[n - 1]) <= MAX_BOX_SCORE);
    }
}

/// The scores of one player, one record per category.
pub struct ScoreTable {
    table: Vec<Record>,
}

impl View for ScoreTable {
    type V = Seq<Option<u32>>;

    closed spec fn view(&self) -> Seq<Option<u32>> {
        self.table@.map_values(|r: Record| r.view_score())
    }
}

impl Default for ScoreTable {
    fn default() -> (r: ScoreTable)
        ensures
            r.wf(),
            forall|i: int| 0 <= i < NUM_BOXES ==> r@[i] is None,
    {
        ScoreTable::new()
    }
}

impl ScoreTable {
    /// Upper-section categories with their face values.
    pub const BONUS_TARGETS: [(Boxes, u32); 6] = [
        (Boxes::Aces, 1),
        (Boxes::Twos, 2),
        (Boxes::Threes, 3),
        (Boxes::Fours, 4),
        (Boxes::Fives, 5),
        (Boxes::Sixes, 6),
    ];

    /// Upper-section sum that earns the bonus: three dice of each face, (1 + ... + 6) * 3.
    pub const BONUS_THRESHOLD: u32 = 63;

    /// The bonus earned at the threshold.
    pub const BONUS_POINT: u32 = 35;

    /// One record per category, none above the largest possible score.
    pub open spec fn wf(&self) -> bool {
        valid_table(self@)
    }

    /// A table with every category unfilled.
    pub fn new() -> (r: ScoreTable)
        ensures
            r.wf(),
            forall|i: int| 0 <= i < NUM_BOXES ==> r@[i] is None,
    {
        let mut table: Vec<Record> = Vec::new();
        let mut i: usize = 0;
        while i < NUM_BOXES
            invariant
                i <= NUM_BOXES,
                table@.len() == i,
                forall|j: int| 0 <= j < i ==> table@[j].view_score() is None,
            decreases NUM_BOXES - i,
        {
            table.push(Record::new());
            i = i + 1;
        }
        ScoreTable { table }
    }

    /// The score of category `b`, if it is filled.
    pub fn get_score(&self, b: Boxes) -> (r: &Option<u32>)
        requires
            self.wf(),
        ensures
            *r == self@[box_index(b)],
    {
        self.table[b.index()].get_score()
    }

    /// Whether category `b` is filled.
    pub fn has_score_in(&self, b: Boxes) -> (r: bool)
        requires
            self.wf(),
        ensures
            r == self@[box_index(b)] is Some,
    {
        self.table[b.index()].is_filled()
    }

    /// Whether every category is filled.
    pub fn has_all_scores(&self) -> (r: bool)
        requires
            self.wf(),
        ensures
            r == forall|i: int| 0 <= i < NUM_BOXES ==> #[trigger] self@[i] is Some,
            r == (filled_count(self@, NUM_BOXES as int) == NUM_BOXES),
    {
        let n = self.get_num_filled_scores();
        proof {
            self.lemma_full_iff_count();
        }
        n == NUM_BOXES
    }

    /// A table is full exactly when all of its records are counted as filled.
    proof fn lemma_full_iff_count(&self)
        requires
            self.wf(),
        ensures
            (filled_count(self@, NUM_BOXES as int) == NUM_BOXES) == forall|i: int|
                0 <= i < NUM_BOXES ==> #[trigger] self@[i] is Some,
    {
        assert forall|n: int| 0 <= n <= NUM_BOXES implies (filled_count(self@, n) == n) == (
        forall|i: int| 0 <= i < n ==> #[trigger] self@[i] is Some) by {
            lemma_count_full(self@, n);
        }
    }

    /// Number of filled categories.
    pub fn get_num_filled_scores(&self) -> (r: usize)
        requires
            self.wf(),
        ensures
            r == filled_count(self@, NUM_BOXES as int),
            r <= NUM_BOXES,
    {
        let mut n: usize = 0;
        let mut i: usize = 0;
        while i < NUM_BOXES
            invariant
                self.wf(),
                i <= NUM_BOXES,
                n == filled_count(self@, i as int),
                n <= i,
            decreases NUM_BOXES - i,
        {
            if self.table[i].is_filled() {
                n = n + 1;
            }
            i = i + 1;
        }
        n
    }

    /// Fills category `b` with `score`; a filled category is left as it is and an error
    /// returned.
    pub fn confirm_score(&mut self, b: Boxes, score: u32) -> (r: Result<(), RecordError>)
        requires
            old(self).wf(),
            score <= MAX_BOX_SCORE,
        ensures
            final(self).wf(),
            r is Err <==> old(self)@[box_index(b)] is Some,
            r is Ok ==> final(self)@ == old(self)@.update(box_index(b), Some(score)),
            r is Err ==> final(self)@ == old(self)@,
    {
        let i = b.index();
        let mut rec = self.table[i];
        let r = rec.fill(score);
        self.table.set(i, rec);
        proof {
            assert(self@ =~= old(self)@.update(box_index(b), rec.view_score()));
        }
        r
    }

    /// Sum of the scores of the upper section, unfilled ones counting as zero.
    pub fn get_total_upper_score(&self) -> (r: u32)
        requires
            self.wf(),
        ensures
            r == upper_total(self@),
    {
        let mut sum: u32 = 0;
        let mut i: usize = 0;
        while i < NUM_UPPER_BOXES
            invariant
                self.wf(),
                i <= NUM_UPPER_BOXES,
                sum == sum_scores(self@, i as int),
            decreases NUM_UPPER_BOXES - i,
        {
            proof {
                lemma_sums_bounded(self@, i + 1);
            }
            match self.table[i].get_score() {
                Some(s) => {
                    sum = sum + *s;
                },
                None => {},
            }
            i = i + 1;
        }
        sum
    }

    /// A copy of this table with category `b` filled by `score`, unless `b` is filled already.
    fn filled_by(&self, b: Boxes, score: u32) -> (r: ScoreTable)
        requires
            self.wf(),
            score <= MAX_BOX_SCORE,
        ensures
            r.wf(),
            r@ == filled_by(self@, b, score),
    {
        let mut table: Vec<Record> = Vec::new();
        let mut i: usize = 0;
        while i < NUM_BOXES
            invariant
                self.wf(),
                i <= NUM_BOXES,
                table@.len() == i,
                forall|j: int| 0 <= j < i ==> #[trigger] table@[j] == self.table@[j],
            decreases NUM_BOXES - i,
        {
            table.push(self.table[i]);
            i = i + 1;
        }
        let mut copy = ScoreTable { table };
        assert(copy@ =~= self@);
        if !copy.has_score_in(b) {
            copy.table.set(b.index(), Record::new_with_score(score));
            assert(copy@ =~= self@.update(box_index(b), Some(score)));
        }
        copy
    }

    /// The upper-section sum as it would be with category `b` filled by `score`; a filled `b`
    /// keeps its score.
    pub fn get_total_upper_score_if_filled_by(&self, b: Boxes, score: u32) -> (r: u32)
        requires
            self.wf(),
            score <= MAX_BOX_SCORE,
        ensures
            r == upper_total(filled_by(self@, b, score)),
    {
        self.filled_by(b, score).get_total_upper_score()
    }

    /// The bonus: `Some(35)` once the upper section reaches 63, `Some(0)` once it no longer
    /// can, `None` while it still can.
    pub fn calculate_bonus(&self) -> (r: Option<u32>)
        requires
            self.wf(),
        ensures
            r == bonus_of(self@),
    {
        let current = self.get_total_upper_score();
        let mut max: u32 = 0;
        let mut i: usize = 0;
        while i < NUM_UPPER_BOXES
            invariant
                self.wf(),
                i <= NUM_UPPER_BOXES,
                max == upper_max(self@, i as int),
            decreases NUM_UPPER_BOXES - i,
        {
            proof {
                lemma_sums_bounded(self@, i + 1);
            }
            let (b, p) = Self::BONUS_TARGETS[i];
            assert(p == i + 1 && box_index(b) == i);
            if self.has_score_in(b) {
                match self.get_score(b) {
                    Some(s) => {
                        max = max + *s;
                    },
                    None => {},
                }
            } else {
                max = max + p * 5;
            }
            i = i + 1;
        }
        if current >= Self::BONUS_THRESHOLD {
            Some(Self::BONUS_POINT)
        } else if max >= Self::BONUS_THRESHOLD {
            None
        } else {
            Some(0)
        }
    }

    /// The bonus as it would be with category `b` filled by `score`; a filled `b` keeps its
    /// score.
    pub fn calculate_bonus_if_filled_by(&self, b: Boxes, score: u32) -> (r: Option<u32>)
        requires
            self.wf(),
            score <= MAX_BOX_SCORE,
        ensures
            r == bonus_of(filled_by(self@, b, score)),
    {
        self.filled_by(b, score).calculate_bonus()
    }

    /// Sum of all filled scores plus the bonus, an undecided bonus counting as zero.
    pub fn get_total_score(&self) -> (r: u32)
        requires
            self.wf(),
        ensures
            r == total_of(self@),
    {
        let mut sum: u32 = 0;
        let mut i: usize = 0;
        while i < NUM_BOXES
            invariant
                self.wf(),
                i <= NUM_BOXES,
                sum == sum_scores(self@, i as int),
            decreases NUM_BOXES - i,
        {
            proof {
                lemma_sums_bounded(self@, i + 1);
            }
            match self.table[i].get_score() {
                Some(s) => {
                    sum = sum + *s;
                },
                None => {},
            }
            i = i + 1;
        }
        proof {
            lemma_sums_bounded(self@, NUM_BOXES as int);
        }
        let bonus = match self.calculate_bonus() {
            Some(p) => p,
            None => 0,
        };
        sum + bonus
    }

    /// The total as it would be with category `b` filled by `score`; a filled `b` keeps its
    /// score.
    pub fn get_total_score_if_filled_by(&self, b: Boxes, score: u32) -> (r: u32)
        requires
            self.wf(),
            score <= MAX_BOX_SCORE,
        ensures
            r == total_of(filled_by(self@, b, score)),
    {
        self.filled_by(b, score).get_total_score()
    }
}

/// A category that has been confirmed cannot be confirmed again: after a successful
/// confirmation its record is filled, and a filled record is exactly what `confirm_score`
/// refuses.
pub proof fn lemma_confirm_twice_fails(t: Seq<Option<u32>>, b: Boxes, first: u32, second: u32)
    requires
        valid_table(t),
        t[box_index(b)] is None,
    ensures
        t.update(box_index(b), Some(first))[box_index(b)] is Some,
        filled_by(t.update(box_index(b), Some(first)), b, second) == t.update(
            box_index(b),
            Some(first),
        ),
{
    lemma_box_order(b, 0);
}

/// The projections for an unfilled category equal the real values once that category is
/// confirmed with the same score; for a filled category they equal the current values.
pub proof fn lemma_projection_matches_confirm(t: Seq<Option<u32>>, b: Boxes, score: u32)
    requires
        valid_table(t),
    ensures
        t[box_index(b)] is None ==> filled_by(t, b, score) == t.update(box_index(b), Some(score)),
        t[box_index(b)] is None ==> total_of(filled_by(t, b, score)) == total_of(
            t.update(box_index(b), Some(score)),
        ),
        t[box_index(b)] is None ==> bonus_of(filled_by(t, b, score)) == bonus_of(
            t.update(box_index(b), Some(score)),
        ),
        t[box_index(b)] is None ==> upper_total(filled_by(t, b, score)) == upper_total(
            t.update(box_index(b), Some(score)),
        ),
        t[box_index(b)] is Some ==> total_of(filled_by(t, b, score)) == total_of(t),
{
}

/// Filling an unfilled category of the lower section (`Three of a kind` to `Chance`) with
/// `score` raises the total by exactly `score`: the upper section and the bonus stay as they
/// were.
pub proof fn lemma_lower_fill_adds_score(t: Seq<Option<u32>>, b: Boxes, score: u32)
    requires
        valid_table(t),
        box_index(b) >= NUM_UPPER_BOXES,
        t[box_index(b)] is None,
    ensures
        upper_total(t.update(box_index(b), Some(score))) == upper_total(t),
        bonus_of(t.update(box_index(b), Some(score))) == bonus_of(t),
        total_of(t.update(box_index(b), Some(score))) == total_of(t) + score,
{
    lemma_box_order(b, 0);
    let u = t.update(box_index(b), Some(score));
    lemma_update_sums(t, box_index(b), score, NUM_BOXES as int);
    lemma_update_sums(t, box_index(b), score, NUM_UPPER_BOXES as int);
}

/// Partial sums over the first `n` records see an update at position `k` only once `n`
/// passes `k`.
proof fn lemma_update_sums(t: Seq<Option<u32>>, k: int, score: u32, n: int)
    requires
        0 <= k < t.len(),
        0 <= n <= t.len(),
        t[k] is None,
    ensures
        sum_scores(t.update(k, Some(score)), n) == sum_scores(t, n) + if n > k {
            score as nat
        } else {
            0
        },
        n <= k ==> upper_max(t.update(k, Some(score)), n) == upper_max(t, n),
    decreases n,
{
    if n > 0 {
        lemma_update_sums(t, k, score, n - 1);
    }
}

/// `n` records are counted as filled exactly when each of them is filled.
proof fn lemma_count_full(t: Seq<Option<u32>>, n: int)
    requires
        0 <= n <= t.len(),
    ensures
        (filled_count(t, n) == n) == (forall|i: int| 0 <= i < n ==> #[trigger] t[i] is Some),
    decreases n,
{
    if n > 0 {
        lemma_count_full(t, n - 1);
        lemma_count_le(t, n - 1);
    }
}

/// No more records are counted as filled than there are.
proof fn lemma_count_le(t: Seq<Option<u32>>, n: int)
    requires
        0 <= n,
    ensures
        filled_count(t, n) <= n,
    decreases n,
{
    if n > 0 {
        lemma_count_le(t, n - 1);
    }
}

} // verus!
