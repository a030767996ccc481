//! The hand: up to five dice, each with a face and a held flag.

use crate::scoring::{valid_pips, HAND_SIZE};
use vstd::prelude::*;

verus! {

/// Relies on rand's `thread_rng` and `Rng::gen_range`: a value drawn from the non-empty
/// range `0..upper`.
#[verifier::external_body]
fn random_below(upper: usize) -> (r: usize)
    requires
        upper > 0,
    ensures
        r < upper,
{
    rand::Rng::gen_range(&mut rand::thread_rng(), 0..upper)
}

/// One die: its face and whether it is held.
#[derive(Clone, Copy, Debug, PartialEq, Eq, Structural)]
pub struct Die {
    pip: u32,
    is_held: bool,
}

/// Faces of the dice of `s`, in order.
pub open spec fn faces(s: Seq<Die>) -> Seq<u32> {
    s.map_values(|d: Die| d.face())
}

/// The held dice of `s`, in their order.
pub open spec fn kept(s: Seq<Die>) -> Seq<Die>
    decreases s.len(),
{
    if s.len() == 0 {
        Seq::empty()
    } else if s.last().held() {
        kept(s.drop_last()).push(s.last())
    } else {
        kept(s.drop_last())
    }
}

/// A full hand with every die held.
pub open spec fn all_held(s: Seq<Die>) -> bool {
    s.len() == HAND_SIZE && forall|i: int| 0 <= i < s.len() ==> #[trigger] s[i].held()
}

/// Dice freshly rolled: valid faces, none held.
pub open spec fn fresh(s: Seq<Die>) -> bool {
    valid_pips(faces(s)) && forall|i: int| 0 <= i < s.len() ==> !#[trigger] s[i].held()
}

/// The dice `s` show the faces `f`, in order, and none is held.
pub open spec fn shows(s: Seq<Die>, f: Seq<u32>) -> bool {
    &&& faces(s) == f
    &&& forall|i: int| 0 <= i < s.len() ==> !#[trigger] s[i].held()
}

/// Dice that show valid faces and are not held are fresh.
pub proof fn lemma_shows_fresh(s: Seq<Die>, f: Seq<u32>)
    requires
        shows(s, f),
        valid_pips(f),
    ensures
        fresh(s),
{
}

/// Each die is the same as in `s` but held as `h` says.
pub open spec fn all_set_held(s: Seq<Die>, h: bool) -> Seq<Die> {
    s.map_values(|d: Die| d.set_held(h))
}

/// The held dice are a part of the dice, so there are no more of them.
pub proof fn lemma_kept_len(s: Seq<Die>)
    ensures
        kept(s).len() <= s.len(),
        kept(s).len() == s.len() ==> forall|i: int| 0 <= i < s.len() ==> #[trigger] s[i].held(),
        forall|i: int| 0 <= i < kept(s).len() ==> #[trigger] kept(s)[i].held(),
        valid_pips(faces(s)) ==> valid_pips(faces(kept(s))),
    decreases s.len(),
{
    if s.len() > 0 {
        let p = s.drop_last();
        lemma_kept_len(p);
        if valid_pips(faces(s)) {
            assert forall|i: int| 0 <= i < p.len() implies 1 <= #[trigger] faces(p)[i] <= 6 by {
                assert(faces(p)[i] == faces(s)[i]);
            }
            assert(faces(s)[s.len() - 1] == s.last().face());
            let k = kept(s);
            assert forall|i: int| 0 <= i < k.len() implies 1 <= #[trigger] faces(k)[i] <= 6 by {
                if i < kept(p).len() {
                    assert(faces(k)[i] == faces(kept(p))[i]);
                }
            }
        }
        if kept(s).len() == s.len() {
            assert forall|i: int| 0 <= i < s.len() implies #[trigger] s[i].held() by {
                if i < s.len() - 1 {
                    assert(p[i] == s[i]);
                }
            }
        }
    }
}

/// `num` faces drawn at random.
pub fn random_faces(num: usize) -> (r: Vec<u32>)
    ensures
        r@.len() == num,
        valid_pips(r@),
{
    let mut v: Vec<u32> = Vec::new();
    let mut i: usize = 0;
    while i < num
        invariant
            i <= num,
            v@.len() == i,
            valid_pips(v@),
        decreases num - i,
    {
        let k = random_below(Die::PIPS.len());
        v.push(Die::PIPS[k]);
        i = i + 1;
    }
    v
}

impl Die {
    /// The faces that a die can show.
    pub const PIPS: [u32; 6] = [1, 2, 3, 4, 5, 6];

    /// The face this die shows.
    pub closed spec fn face(self) -> u32 {
        self.pip
    }

    /// Whether this die is held.
    pub closed spec fn held(self) -> bool {
        self.is_held
    }

    /// This die, held as `h` says.
    pub closed spec fn set_held(self, h: bool) -> Die {
        Die { is_held: h, ..self }
    }

    /// `set_held` keeps the face and sets the flag.
    pub proof fn lemma_set_held(self, h: bool)
        ensures
            self.set_held(h).face() == self.face(),
            self.set_held(h).held() == h,
            self.held() == h ==> self.set_held(h) == self,
    {
    }

    /// Dice that show the first `num` of `pips`, none held.
    pub fn dice_from_faces(pips: &[u32], num: usize) -> (r: Vec<Die>)
        requires
            num <= pips@.len(),
        ensures
            r@.len() == num,
            shows(r@, pips@.subrange(0, num as int)),
    {
        let mut v: Vec<Die> = Vec::new();
        let mut i: usize = 0;
        assert(faces(v@) =~= pips@.subrange(0, 0));
        while i < num
            invariant
                i <= num <= pips@.len(),
                v@.len() == i,
                shows(v@, pips@.subrange(0, i as int)),
            decreases num - i,
        {
            let d = Die { pip: pips[i], is_held: false };
            let ghost prev = v@;
            v.push(d);
            assert(faces(v@) =~= pips@.subrange(0, i + 1)) by {
                assert forall|j: int| 0 <= j < i implies faces(v@)[j] == faces(prev)[j] by {}
            }
            i = i + 1;
        }
        v
    }

    /// `num` dice with random faces, none held.
    pub fn gen_n_dice(num: usize) -> (r: Vec<Die>)
        ensures
            r@.len() == num,
            fresh(r@),
    {
        let f = random_faces(num);
        let r = Die::dice_from_faces(f.as_slice(), num);
        proof {
            assert(f@.subrange(0, num as int) =~= f@);
            lemma_shows_fresh(r@, f@);
        }
        r
    }

    /// The face this die shows.
    pub fn pip(&self) -> (r: u32)
        ensures
            r == self.face(),
    {
        self.pip
    }

    /// Holds or releases this die.
    pub fn hold(&mut self, hold: bool)
        ensures
            *final(self) == old(self).set_held(hold),
    {
        self.is_held = hold;
    }

    /// Whether this die is held.
    pub fn is_held(&self) -> (r: bool)
        ensures
            r == self.held(),
    {
        self.is_held
    }
}

/// Failures of operations on a hand.
#[derive(Debug)]
pub enum HandOpError {
    NoDie(usize),
    OutOfPossibleRange,
    NoDiceToRoll,
    NoDiceToReroll,
    TooBigHand,
    NotFullyFilled,
    ReturnShortHand(Vec<u32>),
}

impl HandOpError {
    /// The faces of a hand as `Hand::get_pips` reports them, also when the hand is short.
    pub fn unwrap_pips(pips: Result<Vec<u32>, HandOpError>) -> (r: Vec<u32>)
        requires
            pips is Ok || pips->Err_0 is ReturnShortHand,
        ensures
            pips is Ok ==> r@ == pips->Ok_0@,
            pips is Err ==> r@ == pips->Err_0->ReturnShortHand_0@,
    {
        match pips {
            Ok(p) => p,
            Err(HandOpError::ReturnShortHand(p)) => p,
            Err(_) => Vec::new(),
        }
    }
}

/// Up to five dice, in the order in which they were rolled.
pub struct Hand {
    dice: Vec<Die>,
}

impl Default for Hand {
    fn default() -> (r: Hand)
        ensures
            r.wf(),
            r@.len() == 0,
    {
        Hand::new()
    }
}

impl View for Hand {
    type V = Seq<Die>;

    closed spec fn view(&self) -> Seq<Die> {
        self.dice@
    }
}

impl Hand {
    /// Number of dice of a full hand.
    pub const DICE_NUM: usize = 5;

    /// At most five dice, each with a face in 1..=6.
    pub open spec fn wf(&self) -> bool {
        self@.len() <= HAND_SIZE && valid_pips(faces(self@))
    }

    /// An empty hand.
    pub fn new() -> (r: Hand)
        ensures
            r.wf(),
            r@.len() == 0,
    {
        Hand { dice: Vec::new() }
    }

    /// A hand of `num` random dice, none held.
    pub fn new_with_random_n_dice(num: usize) -> (r: Hand)
        requires
            num <= HAND_SIZE,
        ensures
            r.wf(),
            r@.len() == num,
            fresh(r@),
    {
        Hand { dice: Die::gen_n_dice(num) }
    }

    /// The dice, in order.
    pub fn get_dice(&self) -> (r: &Vec<Die>)
        ensures
            r@ == self@,
    {
        &self.dice
    }

    /// The faces of a full hand; a short hand gives its faces inside `ReturnShortHand`.
    pub fn get_pips(&self) -> (r: Result<Vec<u32>, HandOpError>)
        requires
            self.wf(),
        ensures
            self@.len() == HAND_SIZE ==> r is Ok && r->Ok_0@ == faces(self@),
            self@.len() != HAND_SIZE ==> r is Err && r->Err_0 is ReturnShortHand
                && r->Err_0->ReturnShortHand_0@ == faces(self@),
    {
        let mut pips: Vec<u32> = Vec::new();
        let mut i: usize = 0;
        while i < self.dice.len()
            invariant
                i <= self@.len(),
                pips@ == faces(self@).subrange(0, i as int),
            decreases self@.len() - i,
        {
            pips.push(self.dice[i].pip());
            assert(pips@ =~= faces(self@).subrange(0, i + 1));
            i = i + 1;
        }
        assert(pips@ =~= faces(self@));
        if pips.len() == Self::DICE_NUM {
            Ok(pips)
        } else {
            Err(HandOpError::ReturnShortHand(pips))
        }
    }

    /// Whether the die at `pos` is held; a position without a die is not held.
    pub fn is_held(&self, pos: usize) -> (r: Result<bool, HandOpError>)
        ensures
            pos >= HAND_SIZE ==> r is Err && r->Err_0 is OutOfPossibleRange,
            pos < HAND_SIZE ==> r is Ok && r->Ok_0 == (pos < self@.len() && self@[pos as int].held()),
    {
        if pos >= Self::DICE_NUM {
            return Err(HandOpError::OutOfPossibleRange);
        }
        if pos < self.dice.len() {
            Ok(self.dice[pos].is_held())
        } else {
            Ok(false)
        }
    }

    /// Whether the hand is full and every die is held.
    pub fn is_held_all(&self) -> (r: Result<bool, HandOpError>)
        ensures
            r is Ok,
            r->Ok_0 == all_held(self@),
    {
        if self.dice.len() != Self::DICE_NUM {
            return Ok(false);
        }
        let mut i: usize = 0;
        while i < self.dice.len()
            invariant
                i <= self@.len(),
                forall|j: int| 0 <= j < i ==> #[trigger] self@[j].held(),
            decreases self@.len() - i,
        {
            if !self.dice[i].is_held() {
                return Ok(false);
            }
            i = i + 1;
        }
        Ok(true)
    }

    /// Holds or releases the die at `pos`.
    pub fn hold(&mut self, pos: usize, hold: bool) -> (r: Result<(), HandOpError>)
        requires
            old(self).wf(),
        ensures
            final(self).wf(),
            pos >= HAND_SIZE ==> r is Err && r->Err_0 is OutOfPossibleRange,
            pos < HAND_SIZE && pos >= old(self)@.len() ==> r is Err && r->Err_0 == HandOpError::NoDie(pos),
            pos < old(self)@.len() ==> r is Ok,
            r is Ok ==> final(self)@ == old(self)@.update(pos as int, old(self)@[pos as int].set_held(hold)),
            r is Err ==> final(self)@ == old(self)@,
    {
        if pos >= Self::DICE_NUM {
            return Err(HandOpError::OutOfPossibleRange);
        }
        if pos >= self.dice.len() {
            return Err(HandOpError::NoDie(pos));
        }
        let mut d = self.dice[pos];
        d.hold(hold);
        self.dice.set(pos, d);
        proof {
            d.lemma_set_held(hold);
            assert(faces(self@) =~= faces(old(self)@));
        }
        Ok(())
    }

    /// Holds every die; fails, after holding them, when the hand is not full.
    pub fn hold_all(&mut self) -> (r: Result<(), HandOpError>)
        requires
            old(self).wf(),
        ensures
            final(self).wf(),
            final(self)@ == all_set_held(old(self)@, true),
            r is Ok <==> old(self)@.len() == HAND_SIZE,
            r is Err ==> r->Err_0 is NotFullyFilled,
    {
        let mut i: usize = 0;
        while i < self.dice.len()
            invariant
                i <= self@.len(),
                self@.len() == old(self)@.len(),
                forall|j: int| 0 <= j < i ==> #[trigger] self@[j] == old(self)@[j].set_held(true),
                forall|j: int| i <= j < self@.len() ==> #[trigger] self@[j] == old(self)@[j],
            decreases self@.len() - i,
        {
            let mut d = self.dice[i];
            d.hold(true);
            self.dice.set(i, d);
            i = i + 1;
        }
        proof {
            assert(self@ =~= all_set_held(old(self)@, true));
            assert forall|j: int| 0 <= j < self@.len() implies #[trigger] faces(self@)[j]
                == faces(old(self)@)[j] by {
                old(self)@[j].lemma_set_held(true);
            }
            assert(faces(self@) =~= faces(old(self)@));
        }
        if self.dice.len() == Self::DICE_NUM {
            Ok(())
        } else {
            Err(HandOpError::NotFullyFilled)
        }
    }

    /// Adds dice until the hand is full, showing the first of `pips` in order; fails on a full
    /// hand.
    pub fn fill_dice_with(&mut self, pips: &[u32]) -> (r: Result<(), HandOpError>)
        requires
            old(self).wf(),
            valid_pips(pips@),
            old(self)@.len() + pips@.len() >= HAND_SIZE,
        ensures
            final(self).wf(),
            r is Err <==> old(self)@.len() == HAND_SIZE,
            r is Err ==> r->Err_0 is NoDiceToRoll && final(self)@ == old(self)@,
            r is Ok ==> final(self)@.len() == HAND_SIZE,
            r is Ok ==> final(self)@.subrange(0, old(self)@.len() as int) == old(self)@,
            r is Ok ==> shows(
                final(self)@.subrange(old(self)@.len() as int, HAND_SIZE as int),
                pips@.subrange(0, HAND_SIZE - old(self)@.len()),
            ),
    {
        if self.dice.len() >= Self::DICE_NUM {
            return Err(HandOpError::NoDiceToRoll);
        }
        let num = Self::DICE_NUM - self.dice.len();
        let mut new_dice = Die::dice_from_faces(pips, num);
        let ghost added = new_dice@;
        self.dice.append(&mut new_dice);
        proof {
            let n = old(self)@.len() as int;
            assert(self@.subrange(0, n) =~= old(self)@);
            assert(self@.subrange(n, HAND_SIZE as int) =~= added);
            assert forall|i: int| 0 <= i < self@.len() implies 1 <= #[trigger] faces(self@)[i]
                <= 6 by {
                if i < n {
                    assert(faces(old(self)@)[i] == faces(self@)[i]);
                } else {
                    assert(faces(added)[i - n] == faces(self@)[i]);
                    assert(pips@.subrange(0, num as int)[i - n] == pips@[i - n]);
                }
            }
        }
        Ok(())
    }

    /// Adds random dice until the hand is full; fails on a full hand.
    pub fn fill_dice(&mut self) -> (r: Result<(), HandOpError>)
        requires
            old(self).wf(),
        ensures
            final(self).wf(),
            r is Err <==> old(self)@.len() == HAND_SIZE,
            r is Err ==> r->Err_0 is NoDiceToRoll && final(self)@ == old(self)@,
            r is Ok ==> final(self)@.len() == HAND_SIZE,
            r is Ok ==> final(self)@.subrange(0, old(self)@.len() as int) == old(self)@,
            r is Ok ==> fresh(final(self)@.subrange(old(self)@.len() as int, HAND_SIZE as int)),
    {
        if self.dice.len() >= Self::DICE_NUM {
            return Err(HandOpError::NoDiceToRoll);
        }
        let f = random_faces(Self::DICE_NUM - self.dice.len());
        let r = self.fill_dice_with(f.as_slice());
        proof {
            let n = old(self)@.len() as int;
            assert(f@.subrange(0, HAND_SIZE - n) =~= f@);
            lemma_shows_fresh(self@.subrange(n, HAND_SIZE as int), f@);
        }
        r
    }

    /// Appends the dice of `other`; fails, changing nothing, when the hand would hold more than
    /// five dice.
    pub fn add_dice(&mut self, other: &Hand) -> (r: Result<(), HandOpError>)
        requires
            old(self).wf(),
            other.wf(),
        ensures
            final(self).wf(),
            r is Err <==> old(self)@.len() + other@.len() > HAND_SIZE,
            r is Err ==> r->Err_0 is TooBigHand && final(self)@ == old(self)@,
            r is Ok ==> final(self)@ == old(self)@ + other@,
    {
        if self.dice.len() + other.dice.len() > Self::DICE_NUM {
            return Err(HandOpError::TooBigHand);
        }
        let mut i: usize = 0;
        while i < other.dice.len()
            invariant
                i <= other@.len(),
                old(self)@.len() + other@.len() <= HAND_SIZE,
                self@ == old(self)@ + other@.subrange(0, i as int),
            decreases other@.len() - i,
        {
            self.dice.push(other.dice[i]);
            assert(self@ =~= old(self)@ + other@.subrange(0, i + 1));
            i = i + 1;
        }
        proof {
            assert(other@.subrange(0, i as int) =~= other@);
            let n = old(self)@.len() as int;
            assert forall|j: int| 0 <= j < self@.len() implies 1 <= #[trigger] faces(self@)[j]
                <= 6 by {
                if j < n {
                    assert(faces(old(self)@)[j] == faces(self@)[j]);
                } else {
                    assert(faces(other@)[j - n] == faces(self@)[j]);
                }
            }
        }
        Ok(())
    }

    /// Drops every die that is not held, keeping the order of the others.
    pub fn remove_dice(&mut self)
        requires
            old(self).wf(),
        ensures
            final(self).wf(),
            final(self)@ == kept(old(self)@),
    {
        let mut rest: Vec<Die> = Vec::new();
        let mut i: usize = 0;
        while i < self.dice.len()
            invariant
                i <= self@.len(),
                rest@ == kept(self@.subrange(0, i as int)),
            decreases self@.len() - i,
        {
            assert(self@.subrange(0, i + 1).drop_last() == self@.subrange(0, i as int));
            let d = self.dice[i];
            if d.is_held() {
                rest.push(d);
            }
            i = i + 1;
        }
        assert(self@.subrange(0, i as int) == self@);
        self.dice = rest;
        proof {
            lemma_kept_len(old(self)@);
        }
    }

    /// Drops the dice that are not held and refills the hand with the first of `pips`; fails
    /// when every die of a full hand is held.
    pub fn reroll_dice_with(&mut self, pips: &[u32]) -> (r: Result<(), HandOpError>)
        requires
            old(self).wf(),
            valid_pips(pips@),
            pips@.len() >= HAND_SIZE,
        ensures
            final(self).wf(),
            r is Err <==> all_held(old(self)@),
            r is Err ==> r->Err_0 is NoDiceToReroll && final(self)@ == old(self)@,
            r is Ok ==> final(self)@.len() == HAND_SIZE,
            r is Ok ==> final(self)@.subrange(0, kept(old(self)@).len() as int) == kept(old(self)@),
            r is Ok ==> shows(
                final(self)@.subrange(kept(old(self)@).len() as int, HAND_SIZE as int),
                pips@.subrange(0, HAND_SIZE - kept(old(self)@).len()),
            ),
    {
        match self.is_held_all() {
            Ok(true) => {
                return Err(HandOpError::NoDiceToReroll);
            },
            _ => {},
        }
        self.remove_dice();
        proof {
            lemma_kept_len(old(self)@);
        }
        self.fill_dice_with(pips)
    }

    /// Drops the dice that are not held and refills the hand with random ones; fails when every
    /// die of a full hand is held.
    pub fn reroll_dice(&mut self) -> (r: Result<(), HandOpError>)
        requires
            old(self).wf(),
        ensures
            final(self).wf(),
            r is Err <==> all_held(old(self)@),
            r is Err ==> r->Err_0 is NoDiceToReroll && final(self)@ == old(self)@,
            r is Ok ==> final(self)@.len() == HAND_SIZE,
            r is Ok ==> final(self)@.subrange(0, kept(old(self)@).len() as int) == kept(old(self)@),
            r is Ok ==> fresh(final(self)@.subrange(kept(old(self)@).len() as int, HAND_SIZE as int)),
    {
        let f = random_faces(Self::DICE_NUM);
        let r = self.reroll_dice_with(f.as_slice());
        proof {
            lemma_kept_len(old(self)@);
            let k = kept(old(self)@).len() as int;
            if r is Ok {
                let tail = self@.subrange(k, HAND_SIZE as int);
                assert forall|i: int| 0 <= i < tail.len() implies 1 <= #[trigger] faces(tail)[i]
                    <= 6 by {
                    assert(faces(tail)[i] == f@.subrange(0, HAND_SIZE - k)[i]);
                    assert(f@.subrange(0, HAND_SIZE - k)[i] == f@[i]);
                }
            }
        }
        r
    }
}

} // verus!
