use yatzee::hand::HandOpError;
use yatzee::play::{Play, PlayPhase, PlayPhaseError};

#[test]
fn a_turn_rolls_at_most_three_times() {
    let mut play = Play::new(0);
    assert_eq!(*play.get_phase(), PlayPhase::Init);
    assert_eq!(play.get_hand().get_dice().len(), 0);

    play.progress().unwrap();
    assert_eq!(*play.get_phase(), PlayPhase::Roll(1));
    assert_eq!(play.get_hand().get_dice().len(), 5);

    play.progress().unwrap();
    assert_eq!(*play.get_phase(), PlayPhase::SelectOrReroll(1));
    assert!(play.get_is_held_all());

    assert_eq!(play.progress(), Err(PlayPhaseError::NoDiceToRoll));
    assert_eq!(*play.get_phase(), PlayPhase::SelectOrReroll(1));

    play.set_is_held(0, false).unwrap();
    play.progress().unwrap();
    assert_eq!(*play.get_phase(), PlayPhase::Roll(2));
    play.progress().unwrap();
    assert_eq!(*play.get_phase(), PlayPhase::SelectOrReroll(2));
    play.set_is_held(4, false).unwrap();
    play.progress().unwrap();
    assert_eq!(*play.get_phase(), PlayPhase::Roll(3));
    play.progress().unwrap();
    assert_eq!(*play.get_phase(), PlayPhase::Select);
    assert!(play.get_is_held_all());

    assert_eq!(play.progress(), Err(PlayPhaseError::FinishedPlay));
    assert_eq!(*play.get_phase(), PlayPhase::Select);
}

#[test]
fn reroll_keeps_held_dice_in_front() {
    let mut play = Play::new(2);
    play.progress().unwrap();
    play.progress().unwrap();
    let before = HandOpError::unwrap_pips(play.get_hand().get_pips());
    play.set_is_held(0, false).unwrap();
    play.set_is_held(2, false).unwrap();
    play.progress().unwrap();
    let after = HandOpError::unwrap_pips(play.get_hand().get_pips());
    assert_eq!(after.len(), 5);
    assert_eq!(after[0..3], [before[1], before[3], before[4]]);
    assert!(play.get_is_held(0) && play.get_is_held(1) && play.get_is_held(2));
    assert!(!play.get_is_held(3) && !play.get_is_held(4));
    assert_eq!(play.get_player_id(), 2);
}

#[test]
fn holding_is_refused_outside_select_or_reroll() {
    let mut play = Play::new(1);
    assert_eq!(play.set_is_held(0, true), Err(PlayPhaseError::UnexpectedPlayPhase));
    play.progress().unwrap();
    assert_eq!(play.set_is_held(0, true), Err(PlayPhaseError::UnexpectedPlayPhase));
    assert!(!play.get_is_held(0));
    play.progress().unwrap();
    play.set_is_held(3, false).unwrap();
    assert!(!play.get_is_held(3));
    assert!(!play.get_is_held_all());
}

#[test]
fn hold_all_dice_freezes_the_hand() {
    let mut play = Play::new(0);
    play.progress().unwrap();
    assert!(!play.get_is_held_all());
    play.hold_all_dice();
    assert!(play.get_is_held_all());
    play.get_mut_hand().hold(1, false).unwrap();
    assert!(!play.get_is_held(1));
}

#[test]
fn reroll_is_allowed_only_while_rolling() {
    let mut play = Play::new(0);
    assert_eq!(play.reroll_dice(), Err(PlayPhaseError::DisAllowedRoll));
    assert_eq!(*play.get_phase(), PlayPhase::Init);
    assert_eq!(play.get_hand().get_dice().len(), 0);

    play.progress_with(&[1, 2, 3, 4, 5]).unwrap();
    play.reroll_dice_with(&[6, 6, 6, 6, 6]).unwrap();
    assert_eq!(*play.get_phase(), PlayPhase::Roll(1));
    assert_eq!(
        HandOpError::unwrap_pips(play.get_hand().get_pips()),
        vec![6, 6, 6, 6, 6]
    );
    play.reroll_dice().unwrap();
    assert_eq!(play.get_hand().get_dice().len(), 5);

    play.progress().unwrap();
    assert_eq!(play.reroll_dice(), Err(PlayPhaseError::DisAllowedRoll));
    play.progress().ok();
    play.set_is_held(0, false).unwrap();
    play.progress().unwrap();
    play.progress().unwrap();
    play.set_is_held(0, false).unwrap();
    play.progress().unwrap();
    play.progress().unwrap();
    assert_eq!(*play.get_phase(), PlayPhase::Select);
    let before = HandOpError::unwrap_pips(play.get_hand().get_pips());
    assert_eq!(play.reroll_dice(), Err(PlayPhaseError::DisAllowedRoll));
    assert_eq!(HandOpError::unwrap_pips(play.get_hand().get_pips()), before);
}
