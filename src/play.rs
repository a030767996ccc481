//! One player's turn: the phases Init, Roll(n), SelectOrReroll(n) and Select, and the dice
//! that each step rolls or holds.

use crate::hand::{
    all_held, all_set_held, faces, fresh, kept, lemma_kept_len, lemma_shows_fresh, random_faces, shows,
    Hand,
};
use crate::scoring::{valid_pips, HAND_SIZE};
use vstd::prelude::*;

verus! {

/// Failures of a turn's phase transitions.
#[derive(Debug, Clone, Copy, PartialEq, Eq, Structural)]
pub enum PlayPhaseError {
    UnexpectedPlayPhase,
    UnexpectedRollCount,
    FinishedPlay,
    DisAllowedRoll,
    NoDiceToRoll,
}

/// The phase of a turn; the count is the number of rolls made so far.
#[derive(Debug, Clone, Copy, PartialEq, Eq, Structural)]
pub enum PlayPhase {
    Init,
    Roll(usize),
    SelectOrReroll(usize),
    Select,
}

impl PlayPhase {
    /// Roll count of the first roll.
    pub const INIT_ROLL_COUNT: usize = 1;

    /// Roll count of the last roll.
    pub const MAX_ROLL_COUNT: usize = 3;
}

/// The phase that `progress` moves to from `p`, `held` telling whether every die is held.
pub open spec fn next_phase(p: PlayPhase, held: bool) -> Result<PlayPhase, PlayPhaseError> {
    match p {
        PlayPhase::Init => Ok(PlayPhase::Roll(1)),
        PlayPhase::Roll(n) => if 1 <= n < 3 {
            Ok(PlayPhase::SelectOrReroll(n))
        } else if n == 3 {
            Ok(PlayPhase::Select)
        } else {
            Err(PlayPhaseError::UnexpectedRollCount)
        },
        PlayPhase::SelectOrReroll(n) => if 1 <= n < 3 {
            if !held {
                Ok(PlayPhase::Roll((n + 1) as usize))
            } else {
                Err(PlayPhaseError::NoDiceToRoll)
            }
        } else {
            Err(PlayPhaseError::UnexpectedRollCount)
        },
        PlayPhase::Select => Err(PlayPhaseError::FinishedPlay),
    }
}

/// Number of rolls made by the time a turn is in phase `p`.
pub open spec fn roll_count(p: PlayPhase) -> int {
    match p {
        PlayPhase::Init => 0,
        PlayPhase::Roll(n) => n as int,
        PlayPhase::SelectOrReroll(n) => n as int,
        PlayPhase::Select => 3,
    }
}

/// The phases that a turn can reach.
pub open spec fn valid_phase(p: PlayPhase) -> bool {
    match p {
        PlayPhase::Init | PlayPhase::Select => true,
        PlayPhase::Roll(n) => 1 <= n <= 3,
        PlayPhase::SelectOrReroll(n) => 1 <= n < 3,
    }
}

/// No turn rolls more than three times, and each step keeps or raises the roll count: a roll
/// raises it by exactly one, and from `Roll(3)` or `Select` no further roll is possible.
pub proof fn lemma_roll_cap(p: PlayPhase, held: bool)
    requires
        valid_phase(p),
    ensures
        next_phase(p, held) is Ok ==> valid_phase(next_phase(p, held)->Ok_0),
        next_phase(p, held) is Ok ==> roll_count(p) <= roll_count(next_phase(p, held)->Ok_0) <= 3,
        next_phase(p, held) matches Ok(PlayPhase::Roll(m)) ==> m == roll_count(p) + 1,
        p == PlayPhase::Roll(3) ==> next_phase(p, held) == Ok::<PlayPhase, PlayPhaseError>(
            PlayPhase::Select,
        ),
        p == PlayPhase::Select ==> next_phase(p, held) is Err,
{
}

/// One player's live turn.
pub struct Play {
    player_id: usize,
    hand: Hand,
    phase: PlayPhase,
}

impl Play {
    /// Number of rolls a turn allows.
    pub const MAX_ROLL_COUNT: usize = 3;

    /// The player whose turn this is.
    pub closed spec fn player(&self) -> usize {
        self.player_id
    }

    /// The dice of this turn.
    pub closed spec fn dice(&self) -> Hand {
        self.hand
    }

    /// The phase of this turn.
    pub closed spec fn phase(&self) -> PlayPhase {
        self.phase
    }

    /// A valid phase, with an empty hand before the first roll and a full one after it.
    pub open spec fn wf(&self) -> bool {
        &&& self.dice().wf()
        &&& valid_phase(self.phase())
        &&& self.phase() == PlayPhase::Init ==> self.dice()@.len() == 0
        &&& self.phase() != PlayPhase::Init ==> self.dice()@.len() == HAND_SIZE
    }

    /// A fresh turn for `player_id`, before the first roll.
    pub fn new(player_id: usize) -> (r: Play)
        ensures
            r.wf(),
            r.player() == player_id,
            r.phase() == PlayPhase::Init,
    {
        Play { player_id, hand: Hand::new_with_random_n_dice(0), phase: PlayPhase::Init }
    }

    /// Replaces the hand by five dice showing the first five of `pips`.
    fn start_first_roll(&mut self, pips: &[u32])
        requires
            valid_pips(pips@),
            pips@.len() >= HAND_SIZE,
        ensures
            final(self).player() == old(self).player(),
            final(self).phase() == old(self).phase(),
            final(self).dice().wf(),
            final(self).dice()@.len() == HAND_SIZE,
            shows(final(self).dice()@, pips@.subrange(0, HAND_SIZE as int)),
    {
        let mut hand = Hand::new();
        let filled = hand.fill_dice_with(pips);
        assert(filled is Ok);
        assert(hand@.subrange(0, HAND_SIZE as int) =~= hand@);
        self.hand = hand;
    }

    /// Rerolls the dice that are not held, the new ones showing the first of `pips`. Allowed
    /// only in a phase `Roll(n)`; in any other phase it fails with `DisAllowedRoll` and changes
    /// nothing.
    pub fn reroll_dice_with(&mut self, pips: &[u32]) -> (r: Result<(), PlayPhaseError>)
        requires
            old(self).wf(),
            valid_pips(pips@),
            pips@.len() >= HAND_SIZE,
        ensures
            final(self).wf(),
            final(self).player() == old(self).player(),
            final(self).phase() == old(self).phase(),
            r is Ok <==> old(self).phase() is Roll && !all_held(old(self).dice()@),
            r is Err ==> final(self).dice()@ == old(self).dice()@,
            r is Err ==> r->Err_0 == (if old(self).phase() is Roll {
                PlayPhaseError::NoDiceToRoll
            } else {
                PlayPhaseError::DisAllowedRoll
            }),
            r is Ok ==> final(self).dice()@.len() == HAND_SIZE,
            r is Ok ==> final(self).dice()@.subrange(0, kept(old(self).dice()@).len() as int)
                == kept(old(self).dice()@),
            r is Ok ==> shows(
                final(self).dice()@.subrange(kept(old(self).dice()@).len() as int, HAND_SIZE as int),
                pips@.subrange(0, HAND_SIZE - kept(old(self).dice()@).len()),
            ),
    {
        proof {
            lemma_kept_len(self.dice()@);
        }
        if let PlayPhase::Roll(..) = self.phase {
            match self.hand.reroll_dice_with(pips) {
                Ok(()) => Ok(()),
                Err(_) => Err(PlayPhaseError::NoDiceToRoll),
            }
        } else {
            Err(PlayPhaseError::DisAllowedRoll)
        }
    }

    /// Rerolls the dice that are not held with random faces. Allowed only in a phase
    /// `Roll(n)`; in any other phase it fails with `DisAllowedRoll` and changes nothing.
    pub fn reroll_dice(&mut self) -> (r: Result<(), PlayPhaseError>)
        requires
            old(self).wf(),
        ensures
            final(self).wf(),
            final(self).player() == old(self).player(),
            final(self).phase() == old(self).phase(),
            r is Ok <==> old(self).phase() is Roll && !all_held(old(self).dice()@),
            r is Err ==> final(self).dice()@ == old(self).dice()@,
            r is Err ==> r->Err_0 == (if old(self).phase() is Roll {
                PlayPhaseError::NoDiceToRoll
            } else {
                PlayPhaseError::DisAllowedRoll
            }),
            r is Ok ==> final(self).dice()@.len() == HAND_SIZE,
            r is Ok ==> final(self).dice()@.subrange(0, kept(old(self).dice()@).len() as int)
                == kept(old(self).dice()@),
            r is Ok ==> fresh(
                final(self).dice()@.subrange(kept(old(self).dice()@).len() as int, HAND_SIZE as int),
            ),
    {
        let f = random_faces(Hand::DICE_NUM);
        let r = self.reroll_dice_with(f.as_slice());
        proof {
            lemma_kept_len(old(self).dice()@);
            let k = kept(old(self).dice()@).len() as int;
            if r is Ok {
                let tail = self.dice()@.subrange(k, HAND_SIZE as int);
                assert forall|i: int| 0 <= i < tail.len() implies 1 <= #[trigger] faces(tail)[i]
                    <= 6 by {
                    assert(faces(tail)[i] == f@.subrange(0, HAND_SIZE - k)[i]);
                }
            }
        }
        r
    }

    /// The phase that `progress` would move to.
    fn transition_phase(&self) -> (r: Result<PlayPhase, PlayPhaseError>)
        requires
            self.wf(),
        ensures
            r == next_phase(self.phase(), all_held(self.dice()@)),
    {
        match self.phase {
            PlayPhase::Init => Ok(PlayPhase::Roll(PlayPhase::INIT_ROLL_COUNT)),
            PlayPhase::Roll(count) => {
                if PlayPhase::INIT_ROLL_COUNT <= count && count < PlayPhase::MAX_ROLL_COUNT {
                    Ok(PlayPhase::SelectOrReroll(count))
                } else if count == Self::MAX_ROLL_COUNT {
                    Ok(PlayPhase::Select)
                } else {
                    Err(PlayPhaseError::UnexpectedRollCount)
                }
            },
            PlayPhase::SelectOrReroll(count) => {
                if PlayPhase::INIT_ROLL_COUNT <= count && count < PlayPhase::MAX_ROLL_COUNT {
                    if !self.get_is_held_all() {
                        Ok(PlayPhase::Roll(count + 1))
                    } else {
                        Err(PlayPhaseError::NoDiceToRoll)
                    }
                } else {
                    Err(PlayPhaseError::UnexpectedRollCount)
                }
            },
            PlayPhase::Select => Err(PlayPhaseError::FinishedPlay),
        }
    }

    /// Advances the turn by one step, as `progress` does, the dice rolled showing the first of
    /// `pips` in order.
    pub fn progress_with(&mut self, pips: &[u32]) -> (r: Result<(), PlayPhaseError>)
        requires
            old(self).wf(),
            valid_pips(pips@),
            pips@.len() >= HAND_SIZE,
        ensures
            final(self).wf(),
            final(self).player() == old(self).player(),
            r is Ok <==> next_phase(old(self).phase(), all_held(old(self).dice()@)) is Ok,
            r is Err ==> r->Err_0 == next_phase(old(self).phase(), all_held(old(self).dice()@))->Err_0,
            r is Err ==> final(self).phase() == old(self).phase() && final(self).dice()@
                == old(self).dice()@,
            r is Ok ==> final(self).phase() == next_phase(
                old(self).phase(),
                all_held(old(self).dice()@),
            )->Ok_0,
            r is Ok && old(self).phase() is Init ==> shows(
                final(self).dice()@,
                pips@.subrange(0, HAND_SIZE as int),
            ),
            r is Ok && (old(self).phase() is Roll) ==> final(self).dice()@ == all_set_held(
                old(self).dice()@,
                true,
            ),
            r is Ok && (old(self).phase() is SelectOrReroll) ==> final(self).dice()@.subrange(
                0,
                kept(old(self).dice()@).len() as int,
            ) == kept(old(self).dice()@) && shows(
                final(self).dice()@.subrange(kept(old(self).dice()@).len() as int, HAND_SIZE as int),
                pips@.subrange(0, HAND_SIZE - kept(old(self).dice()@).len()),
            ),
    {
        let next = self.transition_phase()?;
        self.phase = next;
        match self.phase {
            PlayPhase::Roll(count) => {
                if count == PlayPhase::INIT_ROLL_COUNT {
                    self.start_first_roll(pips);
                } else {
                    let rolled = self.reroll_dice_with(pips);
                    proof {
                        lemma_kept_len(old(self).dice()@);
                    }
                    assert(rolled is Ok);
                }
            },
            PlayPhase::SelectOrReroll(..) | PlayPhase::Select => self.hold_all_dice(),
            PlayPhase::Init => {},
        }
        Ok(())
    }

    /// Advances the turn by one step: the first roll from `Init`, holding every die after a
    /// roll, and rerolling the dice that are not held from `SelectOrReroll`. A refused step
    /// changes nothing.
    pub fn progress(&mut self) -> (r: Result<(), PlayPhaseError>)
        requires
            old(self).wf(),
        ensures
            final(self).wf(),
            final(self).player() == old(self).player(),
            r is Ok <==> next_phase(old(self).phase(), all_held(old(self).dice()@)) is Ok,
            r is Err ==> r->Err_0 == next_phase(old(self).phase(), all_held(old(self).dice()@))->Err_0,
            r is Err ==> final(self).phase() == old(self).phase() && final(self).dice()@
                == old(self).dice()@,
            r is Ok ==> final(self).phase() == next_phase(
                old(self).phase(),
                all_held(old(self).dice()@),
            )->Ok_0,
            r is Ok && old(self).phase() is Init ==> fresh(final(self).dice()@),
            r is Ok && (old(self).phase() is Roll) ==> final(self).dice()@ == all_set_held(
                old(self).dice()@,
                true,
            ),
            r is Ok && (old(self).phase() is SelectOrReroll) ==> final(self).dice()@.subrange(
                0,
                kept(old(self).dice()@).len() as int,
            ) == kept(old(self).dice()@) && fresh(
                final(self).dice()@.subrange(kept(old(self).dice()@).len() as int, HAND_SIZE as int),
            ),
    {
        let f = random_faces(Hand::DICE_NUM);
        let r = self.progress_with(f.as_slice());
        proof {
            lemma_kept_len(old(self).dice()@);
            let k = kept(old(self).dice()@).len() as int;
            if r is Ok && old(self).phase() is Init {
                assert(f@.subrange(0, HAND_SIZE as int) =~= f@);
                lemma_shows_fresh(self.dice()@, f@);
            }
            if r is Ok && old(self).phase() is SelectOrReroll {
                let tail = self.dice()@.subrange(k, HAND_SIZE as int);
                assert forall|i: int| 0 <= i < tail.len() implies 1 <= #[trigger] faces(tail)[i]
                    <= 6 by {
                    assert(faces(tail)[i] == f@.subrange(0, HAND_SIZE - k)[i]);
                }
            }
        }
        r
    }

    /// The player whose turn this is.
    pub fn get_player_id(&self) -> (r: usize)
        ensures
            r == self.player(),
    {
        self.player_id
    }

    /// The dice of this turn.
    pub fn get_hand(&self) -> (r: &Hand)
        ensures
            *r == self.dice(),
    {
        &self.hand
    }

    /// The dice of this turn, to change in place.
    pub fn get_mut_hand(&mut self) -> (r: &mut Hand)
        ensures
            *r == old(self).dice(),
            final(self).dice() == *final(r),
            final(self).player() == old(self).player(),
            final(self).phase() == old(self).phase(),
    {
        &mut self.hand
    }

    /// Whether the die at `pos` is held; a position without a die is not held.
    pub fn get_is_held(&self, pos: usize) -> (r: bool)
        requires
            pos < HAND_SIZE,
        ensures
            r == (pos < self.dice()@.len() && self.dice()@[pos as int].held()),
    {
        match self.hand.is_held(pos) {
            Ok(h) => h,
            Err(_) => false,
        }
    }

    /// Whether the hand is full and every die is held.
    pub fn get_is_held_all(&self) -> (r: bool)
        ensures
            r == all_held(self.dice()@),
    {
        match self.hand.is_held_all() {
            Ok(h) => h,
            Err(_) => false,
        }
    }

    /// Holds or releases the die at `pos`; allowed only while the player may reroll.
    pub fn set_is_held(&mut self, pos: usize, is_held: bool) -> (r: Result<(), PlayPhaseError>)
        requires
            old(self).wf(),
            pos < HAND_SIZE,
        ensures
            final(self).wf(),
            final(self).player() == old(self).player(),
            final(self).phase() == old(self).phase(),
            r is Ok <==> old(self).phase() is SelectOrReroll,
            r is Err ==> r->Err_0 == PlayPhaseError::UnexpectedPlayPhase && final(self).dice()@
                == old(self).dice()@,
            r is Ok ==> final(self).dice()@ == old(self).dice()@.update(
                pos as int,
                old(self).dice()@[pos as int].set_held(is_held),
            ),
    {
        if let PlayPhase::SelectOrReroll(..) = self.phase {
            let held = self.hand.hold(pos, is_held);
            assert(held is Ok);
            Ok(())
        } else {
            Err(PlayPhaseError::UnexpectedPlayPhase)
        }
    }

    /// Holds every die.
    pub fn hold_all_dice(&mut self)
        requires
            old(self).dice().wf(),
        ensures
            final(self).dice().wf(),
            final(self).dice()@ == all_set_held(old(self).dice()@, true),
            final(self).player() == old(self).player(),
            final(self).phase() == old(self).phase(),
    {
        let _ = self.hand.hold_all();
    }

    /// The phase of this turn.
    pub fn get_phase(&self) -> (r: &PlayPhase)
        ensures
            *r == self.phase(),
    {
        &self.phase
    }
}

} // verus!
