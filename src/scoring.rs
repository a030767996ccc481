//! The thirteen scoring categories and the score a hand of five dice earns in each.

use vstd::prelude::*;

verus! {

/// Fixed score of a full house.
pub const FULL_HOUSE_SCORE: u32 = 25;

/// Fixed score of a small straight.
pub const SMALL_STRAIGHT_SCORE: u32 = 30;

/// Fixed score of a large straight.
pub const LARGE_STRAIGHT_SCORE: u32 = 40;

/// Fixed score of five dice of one face.
pub const YAHTZEE_SCORE: u32 = 50;

/// Number of dice that a scored hand holds.
pub const HAND_SIZE: usize = 5;

/// The scoring categories, in the order in which a score table lists them.
#[derive(Clone, Copy, Debug, PartialEq, Eq, Structural, Hash)]
pub enum Boxes {
    Aces,
    Twos,
    Threes,
    Fours,
    Fives,
    Sixes,
    ThreeOfaAKind,
    FourOfaAKind,
    FullHouse,
    SmallStraight,
    LargeStraight,
    Yahtzee,
    Chance,
}

/// Number of scoring categories.
pub const NUM_BOXES: usize = 13;

/// Number of categories in the upper section (Aces to Sixes).
pub const NUM_UPPER_BOXES: usize = 6;

/// Position of a category in the fixed order of the score table.
pub open spec fn box_index(b: Boxes) -> int {
    match b {
        Boxes::Aces => 0,
        Boxes::Twos => 1,
        Boxes::Threes => 2,
        Boxes::Fours => 3,
        Boxes::Fives => 4,
        Boxes::Sixes => 5,
        Boxes::ThreeOfaAKind => 6,
        Boxes::FourOfaAKind => 7,
        Boxes::FullHouse => 8,
        Boxes::SmallStraight => 9,
        Boxes::LargeStraight => 10,
        Boxes::Yahtzee => 11,
        Boxes::Chance => 12,
    }
}

/// The category at position `i` of the fixed order.
pub open spec fn box_at(i: int) -> Boxes {
    if i <= 0 {
        Boxes::Aces
    } else if i == 1 {
        Boxes::Twos
    } else if i == 2 {
        Boxes::Threes
    } else if i == 3 {
        Boxes::Fours
    } else if i == 4 {
        Boxes::Fives
    } else if i == 5 {
        Boxes::Sixes
    } else if i == 6 {
        Boxes::ThreeOfaAKind
    } else if i == 7 {
        Boxes::FourOfaAKind
    } else if i == 8 {
        Boxes::FullHouse
    } else if i == 9 {
        Boxes::SmallStraight
    } else if i == 10 {
        Boxes::LargeStraight
    } else if i == 11 {
        Boxes::Yahtzee
    } else {
        Boxes::Chance
    }
}

/// The fixed order is a bijection between categories and positions 0..13.
pub proof fn lemma_box_order(b: Boxes, i: int)
    ensures
        0 <= box_index(b) < NUM_BOXES,
        box_at(box_index(b)) == b,
        0 <= i < NUM_BOXES ==> box_index(box_at(i)) == i,
{
}

impl Boxes {
    /// Position of this category in the fixed order.
    pub fn index(self) -> (r: usize)
        ensures
            r == box_index(self),
            r < NUM_BOXES,
    {
        match self {
            Boxes::Aces => 0,
            Boxes::Twos => 1,
            Boxes::Threes => 2,
            Boxes::Fours => 3,
            Boxes::Fives => 4,
            Boxes::Sixes => 5,
            Boxes::ThreeOfaAKind => 6,
            Boxes::FourOfaAKind => 7,
            Boxes::FullHouse => 8,
            Boxes::SmallStraight => 9,
            Boxes::LargeStraight => 10,
            Boxes::Yahtzee => 11,
            Boxes::Chance => 12,
        }
    }

    /// The category after this one, the last wrapping round to the first.
    pub fn next_cycle(self) -> (r: Boxes)
        ensures
            box_index(r) == (box_index(self) + 1) % (NUM_BOXES as int),
    {
        let i = self.index();
        if i + 1 == NUM_BOXES {
            Boxes::from_index(0)
        } else {
            Boxes::from_index(i + 1)
        }
    }

    /// The category before this one, the first wrapping round to the last.
    pub fn previous_cycle(self) -> (r: Boxes)
        ensures
            box_index(r) == (box_index(self) + NUM_BOXES - 1) % (NUM_BOXES as int),
    {
        let i = self.index();
        if i == 0 {
            Boxes::from_index(NUM_BOXES - 1)
        } else {
            Boxes::from_index(i - 1)
        }
    }

    /// The name under which a score table lists this category.
    pub fn label(self) -> &'static str {
        match self {
            Boxes::Aces => "Aces",
            Boxes::Twos => "Twos",
            Boxes::Threes => "Threes",
            Boxes::Fours => "Fours",
            Boxes::Fives => "Fives",
            Boxes::Sixes => "Sixes",
            Boxes::ThreeOfaAKind => "Three of a kind",
            Boxes::FourOfaAKind => "Four of a kind",
            Boxes::FullHouse => "Full house",
            Boxes::SmallStraight => "Small straight",
            Boxes::LargeStraight => "Large straight",
            Boxes::Yahtzee => "Yahtzee",
            Boxes::Chance => "Chance",
        }
    }

    /// The category at position `i` of the fixed order.
    pub fn from_index(i: usize) -> (r: Boxes)
        requires
            i < NUM_BOXES,
        ensures
            r == box_at(i as int),
            box_index(r) == i,
    {
        if i == 0 {
            Boxes::Aces
        } else if i == 1 {
            Boxes::Twos
        } else if i == 2 {
            Boxes::Threes
        } else if i == 3 {
            Boxes::Fours
        } else if i == 4 {
            Boxes::Fives
        } else if i == 5 {
            Boxes::Sixes
        } else if i == 6 {
            Boxes::ThreeOfaAKind
        } else if i == 7 {
            Boxes::FourOfaAKind
        } else if i == 8 {
            Boxes::FullHouse
        } else if i == 9 {
            Boxes::SmallStraight
        } else if i == 10 {
            Boxes::LargeStraight
        } else if i == 11 {
            Boxes::Yahtzee
        } else {
            Boxes::Chance
        }
    }
}

/// How many dice of `s` show face `v`.
pub open spec fn count(s: Seq<u32>, v: u32) -> nat
    decreases s.len(),
{
    if s.len() == 0 {
        0
    } else {
        count(s.drop_last(), v) + if s.last() == v {
            1nat
        } else {
            0nat
        }
    }
}

/// The sum of the faces of `s`.
pub open spec fn sum(s: Seq<u32>) -> nat
    decreases s.len(),
{
    if s.len() == 0 {
        0
    } else {
        sum(s.drop_last()) + s.last() as nat
    }
}

/// Every face lies in 1..=6.
pub open spec fn valid_pips(s: Seq<u32>) -> bool {
    forall|i: int| 0 <= i < s.len() ==> 1 <= #[trigger] s[i] <= 6
}

/// A hand that the scoring rules apply to: five valid dice.
pub open spec fn scorable(s: Seq<u32>) -> bool {
    s.len() == HAND_SIZE && valid_pips(s)
}

/// Some die of `s` shows face `v`.
pub open spec fn has_face(s: Seq<u32>, v: int) -> bool {
    exists|i: int| 0 <= i < s.len() && s[i] == v
}

/// The faces `start`, `start + 1`, ..., `start + n - 1` all occur in `s`.
pub open spec fn has_run(s: Seq<u32>, start: int, n: int) -> bool {
    forall|d: int| 0 <= d < n ==> #[trigger] has_face(s, start + d)
}

/// At least `n` dice of `s` share one face.
pub open spec fn has_n_of_a_kind(s: Seq<u32>, n: nat) -> bool {
    exists|i: int| 0 <= i < s.len() && count(s, #[trigger] s[i]) >= n
}

/// Exactly two faces occur, one three times and one twice.
pub open spec fn is_full_house(s: Seq<u32>) -> bool {
    &&& exists|i: int| 0 <= i < s.len() && count(s, #[trigger] s[i]) == 3
    &&& exists|j: int| 0 <= j < s.len() && count(s, #[trigger] s[j]) == 2
}

/// Four consecutive faces occur.
pub open spec fn is_small_straight(s: Seq<u32>) -> bool {
    exists|k: int| #[trigger] has_run(s, k, 4)
}

/// Five consecutive faces occur.
pub open spec fn is_large_straight(s: Seq<u32>) -> bool {
    exists|k: int| #[trigger] has_run(s, k, 5)
}

/// All dice show one face.
pub open spec fn is_yahtzee(s: Seq<u32>) -> bool {
    forall|i: int| 0 <= i < s.len() ==> #[trigger] s[i] == s[0]
}

/// Face value counted by an upper-section category.
pub open spec fn upper_face(b: Boxes) -> nat {
    match b {
        Boxes::Aces => 1,
        Boxes::Twos => 2,
        Boxes::Threes => 3,
        Boxes::Fours => 4,
        Boxes::Fives => 5,
        Boxes::Sixes => 6,
        _ => 0,
    }
}

/// Score of an upper-section category: the sum of the dice showing `face`.
pub open spec fn upper_score(s: Seq<u32>, face: nat) -> nat {
    count(s, face as u32) * face
}

/// Score of the n-of-a-kind categories: the sum of all dice when `n` of them match.
pub open spec fn kind_score(s: Seq<u32>, n: nat) -> nat {
    if has_n_of_a_kind(s, n) {
        sum(s)
    } else {
        0
    }
}

/// The score that the hand `s` earns in category `b`.
pub open spec fn box_score(b: Boxes, s: Seq<u32>) -> nat {
    match b {
        Boxes::Aces | Boxes::Twos | Boxes::Threes | Boxes::Fours | Boxes::Fives | Boxes::Sixes => {
            upper_score(s, upper_face(b))
        },
        Boxes::ThreeOfaAKind => kind_score(s, 3),
        Boxes::FourOfaAKind => kind_score(s, 4),
        Boxes::FullHouse => if is_full_house(s) {
            FULL_HOUSE_SCORE as nat
        } else {
            0
        },
        Boxes::SmallStraight => if is_small_straight(s) {
            SMALL_STRAIGHT_SCORE as nat
        } else {
            0
        },
        Boxes::LargeStraight => if is_large_straight(s) {
            LARGE_STRAIGHT_SCORE as nat
        } else {
            0
        },
        Boxes::Yahtzee => if is_yahtzee(s) {
            YAHTZEE_SCORE as nat
        } else {
            0
        },
        Boxes::Chance => sum(s),
    }
}

/// No die shows more than six pips, so no count exceeds the number of dice.
pub proof fn lemma_count_le_len(s: Seq<u32>, v: u32)
    ensures
        count(s, v) <= s.len(),
    decreases s.len(),
{
    if s.len() > 0 {
        lemma_count_le_len(s.drop_last(), v);
    }
}

/// The sum of valid dice is at most six per die.
pub proof fn lemma_sum_le(s: Seq<u32>)
    requires
        valid_pips(s),
    ensures
        sum(s) <= 6 * s.len(),
    decreases s.len(),
{
    if s.len() > 0 {
        assert(valid_pips(s.drop_last()));
        lemma_sum_le(s.drop_last());
    }
}

/// Every category scores at most fifty on a valid hand.
pub proof fn lemma_box_score_le_50(b: Boxes, s: Seq<u32>)
    requires
        scorable(s),
    ensures
        box_score(b, s) <= 50,
{
    lemma_sum_le(s);
    lemma_count_le_len(s, upper_face(b) as u32);
    assert(count(s, upper_face(b) as u32) * upper_face(b) <= 5 * 6) by (nonlinear_arith)
        requires
            count(s, upper_face(b) as u32) <= 5,
            upper_face(b) <= 6,
    ;
}

/// The number of dice in `dice` that show `v`.
fn count_of(dice: &[u32], v: u32) -> (r: usize)
    ensures
        r == count(dice@, v),
{
    let mut c: usize = 0;
    let mut i: usize = 0;
    while i < dice.len()
        invariant
            i <= dice@.len(),
            c == count(dice@.subrange(0, i as int), v),
        decreases dice.len() - i,
    {
        assert(dice@.subrange(0, i + 1).drop_last() == dice@.subrange(0, i as int));
        proof {
            lemma_count_le_len(dice@.subrange(0, i as int), v);
        }
        if dice[i] == v {
            c = c + 1;
        }
        i = i + 1;
    }
    assert(dice@.subrange(0, i as int) == dice@);
    c
}

/// Sum of the faces of `dice`.
fn sum_of(dice: &[u32]) -> (r: u32)
    requires
        scorable(dice@),
    ensures
        r == sum(dice@),
{
    let mut s: u32 = 0;
    let mut i: usize = 0;
    while i < dice.len()
        invariant
            i <= dice@.len(),
            scorable(dice@),
            s == sum(dice@.subrange(0, i as int)),
            s <= 6 * i,
        decreases dice.len() - i,
    {
        assert(dice@.subrange(0, i + 1).drop_last() == dice@.subrange(0, i as int));
        assert(1 <= dice@[i as int] <= 6);
        s = s + dice[i];
        i = i + 1;
    }
    assert(dice@.subrange(0, i as int) == dice@);
    s
}

/// Whether some die of `dice` shows `v`.
fn has_face_of(dice: &[u32], v: u32) -> (r: bool)
    ensures
        r == has_face(dice@, v as int),
{
    let mut i: usize = 0;
    while i < dice.len()
        invariant
            i <= dice@.len(),
            forall|j: int| 0 <= j < i ==> dice@[j] != v,
        decreases dice.len() - i,
    {
        if dice[i] == v {
            return true;
        }
        i = i + 1;
    }
    false
}

/// The score a hand of five dice earns in category `b`.
pub fn scoring(b: Boxes, dice: &[u32]) -> (r: u32)
    requires
        scorable(dice@),
    ensures
        r == box_score(b, dice@),
        r <= 50,
{
    proof {
        lemma_box_score_le_50(b, dice@);
    }
    match b {
        Boxes::Aces => aces(dice),
        Boxes::Twos => twos(dice),
        Boxes::Threes => threes(dice),
        Boxes::Fours => fours(dice),
        Boxes::Fives => fives(dice),
        Boxes::Sixes => sixes(dice),
        Boxes::ThreeOfaAKind => three_of_a_kind(dice),
        Boxes::FourOfaAKind => four_of_a_kind(dice),
        Boxes::FullHouse => full_house(dice),
        Boxes::SmallStraight => small_straight(dice),
        Boxes::LargeStraight => large_straight(dice),
        Boxes::Yahtzee => yahtzee(dice),
        Boxes::Chance => chance(dice),
    }
}

fn aces(dice: &[u32]) -> (r: u32)
    requires
        scorable(dice@),
    ensures
        r == upper_score(dice@, 1),
{
    upper_section_scoring(dice, 1)
}

fn twos(dice: &[u32]) -> (r: u32)
    requires
        scorable(dice@),
    ensures
        r == upper_score(dice@, 2),
{
    upper_section_scoring(dice, 2)
}

fn threes(dice: &[u32]) -> (r: u32)
    requires
        scorable(dice@),
    ensures
        r == upper_score(dice@, 3),
{
    upper_section_scoring(dice, 3)
}

fn fours(dice: &[u32]) -> (r: u32)
    requires
        scorable(dice@),
    ensures
        r == upper_score(dice@, 4),
{
    upper_section_scoring(dice, 4)
}

fn fives(dice: &[u32]) -> (r: u32)
    requires
        scorable(dice@),
    ensures
        r == upper_score(dice@, 5),
{
    upper_section_scoring(dice, 5)
}

fn sixes(dice: &[u32]) -> (r: u32)
    requires
        scorable(dice@),
    ensures
        r == upper_score(dice@, 6),
{
    upper_section_scoring(dice, 6)
}

/// The sum of all dice if at least `n` of them show one face, else zero.
fn n_of_a_kind(dice: &[u32], n: u32) -> (r: u32)
    requires
        scorable(dice@),
    ensures
        r == kind_score(dice@, n as nat),
{
    let mut i: usize = 0;
    while i < dice.len()
        invariant
            i <= dice@.len(),
            scorable(dice@),
            forall|j: int| 0 <= j < i ==> count(dice@, #[trigger] dice@[j]) < n,
        decreases dice.len() - i,
    {
        if count_of(dice, dice[i]) >= n as usize {
            return sum_of(dice);
        }
        i = i + 1;
    }
    0
}

fn three_of_a_kind(dice: &[u32]) -> (r: u32)
    requires
        scorable(dice@),
    ensures
        r == kind_score(dice@, 3),
{
    n_of_a_kind(dice, 3)
}

fn four_of_a_kind(dice: &[u32]) -> (r: u32)
    requires
        scorable(dice@),
    ensures
        r == kind_score(dice@, 4),
{
    n_of_a_kind(dice, 4)
}

fn full_house(dice: &[u32]) -> (r: u32)
    requires
        scorable(dice@),
    ensures
        r == (if is_full_house(dice@) {
            FULL_HOUSE_SCORE
        } else {
            0
        }),
{
    let mut three = false;
    let mut two = false;
    let mut i: usize = 0;
    while i < dice.len()
        invariant
            i <= dice@.len(),
            three == exists|j: int| 0 <= j < i && count(dice@, #[trigger] dice@[j]) == 3,
            two == exists|j: int| 0 <= j < i && count(dice@, #[trigger] dice@[j]) == 2,
        decreases dice.len() - i,
    {
        let c = count_of(dice, dice[i]);
        if c == 3 {
            three = true;
        }
        if c == 2 {
            two = true;
        }
        i = i + 1;
    }
    if three && two {
        FULL_HOUSE_SCORE
    } else {
        0
    }
}

/// A run of `n` faces can start only where its first and last faces are valid.
proof fn lemma_run_bounds(s: Seq<u32>, k: int, n: int)
    requires
        valid_pips(s),
        n >= 1,
        has_run(s, k, n),
    ensures
        1 <= k,
        k + n - 1 <= 6,
{
    assert(has_face(s, k + 0));
    assert(has_face(s, k + (n - 1)));
    let i = choose|i: int| 0 <= i < s.len() && s[i] == k + 0;
    let j = choose|j: int| 0 <= j < s.len() && s[j] == k + (n - 1);
    assert(1 <= s[i] <= 6);
    assert(1 <= s[j] <= 6);
}

/// Whether `dice` shows each of the `n` faces from `start` on.
fn has_run_of(dice: &[u32], start: u32, n: u32) -> (r: bool)
    requires
        start <= 6,
        n <= 6,
    ensures
        r == has_run(dice@, start as int, n as int),
{
    let mut d: u32 = 0;
    while d < n
        invariant
            d <= n <= 6,
            start <= 6,
            forall|e: int| 0 <= e < d ==> #[trigger] has_face(dice@, start + e),
        decreases n - d,
    {
        if !has_face_of(dice, start + d) {
            assert(!has_face(dice@, start + d as int));
            return false;
        }
        d = d + 1;
    }
    true
}

/// Whether `dice` holds a run of `n` consecutive faces.
fn has_straight(dice: &[u32], n: u32) -> (r: bool)
    requires
        valid_pips(dice@),
        1 <= n <= 6,
    ensures
        r == exists|k: int| #[trigger] has_run(dice@, k, n as int),
{
    let mut k: u32 = 1;
    while k + n <= 7
        invariant
            1 <= k <= 7,
            1 <= n <= 6,
            valid_pips(dice@),
            forall|j: int| 1 <= j < k ==> !#[trigger] has_run(dice@, j, n as int),
        decreases 7 - k,
    {
        if has_run_of(dice, k, n) {
            return true;
        }
        k = k + 1;
    }
    assert forall|j: int| !#[trigger] has_run(dice@, j, n as int) by {
        if has_run(dice@, j, n as int) {
            lemma_run_bounds(dice@, j, n as int);
        }
    }
    false
}

fn small_straight(dice: &[u32]) -> (r: u32)
    requires
        scorable(dice@),
    ensures
        r == (if is_small_straight(dice@) {
            SMALL_STRAIGHT_SCORE
        } else {
            0
        }),
{
    if has_straight(dice, 4) {
        SMALL_STRAIGHT_SCORE
    } else {
        0
    }
}

fn large_straight(dice: &[u32]) -> (r: u32)
    requires
        scorable(dice@),
    ensures
        r == (if is_large_straight(dice@) {
            LARGE_STRAIGHT_SCORE
        } else {
            0
        }),
{
    if has_straight(dice, 5) {
        LARGE_STRAIGHT_SCORE
    } else {
        0
    }
}

fn yahtzee(dice: &[u32]) -> (r: u32)
    requires
        scorable(dice@),
    ensures
        r == (if is_yahtzee(dice@) {
            YAHTZEE_SCORE
        } else {
            0
        }),
{
    let mut i: usize = 1;
    while i < dice.len()
        invariant
            1 <= i <= dice@.len(),
            dice@.len() == HAND_SIZE,
            forall|j: int| 0 <= j < i ==> #[trigger] dice@[j] == dice@[0],
        decreases dice.len() - i,
    {
        if dice[i] != dice[0] {
            return 0;
        }
        i = i + 1;
    }
    YAHTZEE_SCORE
}

fn chance(dice: &[u32]) -> (r: u32)
    requires
        scorable(dice@),
    ensures
        r == sum(dice@),
{
    sum_of(dice)
}

/// The sum of the dice that show `spots`.
fn upper_section_scoring(dice: &[u32], spots: u32) -> (r: u32)
    requires
        scorable(dice@),
        1 <= spots <= 6,
    ensures
        r == upper_score(dice@, spots as nat),
{
    let c = count_of(dice, spots);
    proof {
        lemma_count_le_len(dice@, spots);
    }
    assert(c * spots <= 5 * 6) by (nonlinear_arith)
        requires
            c <= 5,
            spots <= 6,
    ;
    (c as u32) * spots
}

} // verus!
