use yatzee::hand::{Die, Hand, HandOpError};

#[test]
fn new_test() {
    for num in 0..=Hand::DICE_NUM {
        let h = Hand::new_with_random_n_dice(num);
        assert_eq!(h.get_dice().len(), num);
        for d in h.get_dice().iter() {
            assert!(Die::PIPS.contains(&d.pip()));
            assert!(!d.is_held());
        }
    }
}

#[test]
fn hold_test() {
    let pos = 3;
    let mut h = Hand::new_with_random_n_dice(pos + 1);

    let is_held = true;
    h.hold(pos, is_held).unwrap();
    assert_eq!(h.is_held(pos).unwrap(), is_held);
}

#[test]
fn fill_dice_test() {
    let mut h0 = Hand::new_with_random_n_dice(0);
    h0.fill_dice().unwrap();
    assert_eq!(h0.get_dice().len(), Hand::DICE_NUM);

    const NUM: usize = 3;
    let mut h0 = Hand::new_with_random_n_dice(NUM);
    let org = HandOpError::unwrap_pips(h0.get_pips());
    let holds = [true, false, true];
    holds
        .iter()
        .enumerate()
        .for_each(|(p, &h)| h0.hold(p, h).unwrap());
    h0.fill_dice().unwrap();
    assert_eq!(h0.get_dice().len(), Hand::DICE_NUM);
    assert_eq!(HandOpError::unwrap_pips(h0.get_pips())[0..NUM], org[..]);

    let mut h0 = Hand::new_with_random_n_dice(Hand::DICE_NUM);
    let holds = [false; Hand::DICE_NUM];
    holds
        .iter()
        .enumerate()
        .for_each(|(p, &h)| h0.hold(p, h).unwrap());
    match h0.fill_dice() {
        Ok(..) => panic!("Must not return Ok"),
        Err(e) => match e {
            HandOpError::NoDiceToRoll => (),
            _ => panic!("Shuld return HandOpError::NoDiceToRoll"),
        },
    }
}

#[test]
fn reroll_dice_test() {
    let mut h0 = Hand::new_with_random_n_dice(0);
    h0.reroll_dice().unwrap();
    assert_eq!(h0.get_dice().len(), Hand::DICE_NUM);

    const NUM: usize = 3;
    let mut h0 = Hand::new_with_random_n_dice(NUM);
    let org = HandOpError::unwrap_pips(h0.get_pips());
    let holds = [true, false, true];
    holds
        .iter()
        .enumerate()
        .for_each(|(p, &h)| h0.hold(p, h).unwrap());
    h0.reroll_dice().unwrap();
    assert_eq!(h0.get_dice().len(), Hand::DICE_NUM);
    let hold_cnt = holds.iter().filter(|&&h| h).count();
    assert_eq!(
        HandOpError::unwrap_pips(h0.get_pips())[0..hold_cnt],
        [org[0], org[2]]
    );

    let mut h0 = Hand::new_with_random_n_dice(Hand::DICE_NUM);
    let org = HandOpError::unwrap_pips(h0.get_pips());
    let holds = [true, false, true, true, false];
    holds
        .iter()
        .enumerate()
        .for_each(|(p, &h)| h0.hold(p, h).unwrap());
    h0.reroll_dice().unwrap();
    assert_eq!(h0.get_dice().len(), Hand::DICE_NUM);
    let hold_cnt = holds.iter().filter(|&&h| h).count();
    assert_eq!(
        HandOpError::unwrap_pips(h0.get_pips())[0..hold_cnt],
        [org[0], org[2], org[3]]
    );

    let mut h0 = Hand::new_with_random_n_dice(Hand::DICE_NUM);
    let holds = [true; Hand::DICE_NUM];
    holds
        .iter()
        .enumerate()
        .for_each(|(p, &h)| h0.hold(p, h).unwrap());
    match h0.reroll_dice() {
        Ok(..) => panic!("Must not return Ok"),
        Err(e) => match e {
            HandOpError::NoDiceToReroll => (),
            _ => panic!("Shuld return HandOpError::NoDiceToReroll"),
        },
    }
}

#[test]
fn remove_dice_test() {
    let mut h0 = Hand::new_with_random_n_dice(5);
    let org = HandOpError::unwrap_pips(h0.get_pips());
    let rms = [true, true, false, false, false];
    rms.iter()
        .enumerate()
        .for_each(|(p, &rm)| h0.hold(p, !rm).unwrap());
    h0.remove_dice();
    assert_eq!(
        HandOpError::unwrap_pips(h0.get_pips()),
        [org[2], org[3], org[4]]
    );

    let mut h1 = Hand::new_with_random_n_dice(5);
    let org = HandOpError::unwrap_pips(h1.get_pips());
    let rms = [true, false, true, true, false];
    rms.iter()
        .enumerate()
        .for_each(|(p, &rm)| h1.hold(p, !rm).unwrap());
    h1.remove_dice();
    assert_eq!(HandOpError::unwrap_pips(h1.get_pips()), [org[1], org[4]]);

    let mut h2 = Hand::new_with_random_n_dice(4);
    let org = HandOpError::unwrap_pips(h2.get_pips());
    let rms = [true, false, true, false];
    rms.iter()
        .enumerate()
        .for_each(|(p, &rm)| h2.hold(p, !rm).unwrap());
    h2.remove_dice();
    assert_eq!(HandOpError::unwrap_pips(h2.get_pips()), [org[1], org[3]]);
    let rms = [false, true];
    rms.iter()
        .enumerate()
        .for_each(|(p, &rm)| h2.hold(p, !rm).unwrap());
    h2.remove_dice();
    assert_eq!(HandOpError::unwrap_pips(h2.get_pips()), [org[1]]);
}

#[test]
fn random_hands_have_valid_faces_for_every_size() {
    for _ in 0..200 {
        for num in 0..=Hand::DICE_NUM {
            let h = Hand::new_with_random_n_dice(num);
            assert_eq!(h.get_dice().len(), num);
            assert!(h.get_dice().iter().all(|d| (1..=6).contains(&d.pip())));
        }
    }
}

#[test]
fn reroll_restores_five_and_keeps_held_order() {
    for _ in 0..100 {
        let mut h = Hand::new_with_random_n_dice(5);
        let org = HandOpError::unwrap_pips(h.get_pips());
        h.hold(1, true).unwrap();
        h.hold(4, true).unwrap();
        h.reroll_dice().unwrap();
        let now = HandOpError::unwrap_pips(h.get_pips());
        assert_eq!(now.len(), 5);
        assert_eq!(now[0..2], [org[1], org[4]]);
        assert!(h.is_held(0).unwrap() && h.is_held(1).unwrap());
        assert!(!h.is_held(2).unwrap() && !h.is_held(3).unwrap() && !h.is_held(4).unwrap());
    }
}

#[test]
fn hold_rejects_positions_out_of_range_and_missing_dice() {
    let mut h = Hand::new_with_random_n_dice(2);
    assert!(matches!(h.hold(5, true), Err(HandOpError::OutOfPossibleRange)));
    assert!(matches!(h.hold(3, true), Err(HandOpError::NoDie(3))));
    assert!(matches!(h.is_held(7), Err(HandOpError::OutOfPossibleRange)));
    assert_eq!(h.is_held(4).unwrap(), false);
}

#[test]
fn hold_all_on_short_hand_reports_not_fully_filled() {
    let mut h = Hand::new_with_random_n_dice(3);
    assert!(matches!(h.hold_all(), Err(HandOpError::NotFullyFilled)));
    assert!(h.get_dice().iter().all(|d| d.is_held()));
    assert_eq!(h.is_held_all().unwrap(), false);

    let mut full = Hand::new_with_random_n_dice(5);
    full.hold_all().unwrap();
    assert_eq!(full.is_held_all().unwrap(), true);
}

#[test]
fn short_hand_pips_come_back_in_return_short_hand() {
    let h = Hand::new_with_random_n_dice(2);
    match h.get_pips() {
        Err(HandOpError::ReturnShortHand(p)) => assert_eq!(p.len(), 2),
        _ => panic!("a short hand must not give Ok"),
    }
    assert!(Hand::new().get_dice().is_empty());
}

#[test]
fn given_faces_fill_and_reroll_in_order() {
    let mut h = Hand::new();
    h.fill_dice_with(&[2, 5, 5, 1, 6, 4]).unwrap();
    assert_eq!(HandOpError::unwrap_pips(h.get_pips()), vec![2, 5, 5, 1, 6]);
    assert!(matches!(h.fill_dice_with(&[1, 1, 1, 1, 1]), Err(HandOpError::NoDiceToRoll)));

    h.hold(1, true).unwrap();
    h.hold(3, true).unwrap();
    h.reroll_dice_with(&[3, 4, 6, 6, 6]).unwrap();
    assert_eq!(HandOpError::unwrap_pips(h.get_pips()), vec![5, 1, 3, 4, 6]);
    assert!(h.is_held(0).unwrap() && h.is_held(1).unwrap());
    assert!(!h.is_held(2).unwrap());

    h.hold_all().unwrap();
    assert!(matches!(
        h.reroll_dice_with(&[1, 1, 1, 1, 1]),
        Err(HandOpError::NoDiceToReroll)
    ));
    assert_eq!(HandOpError::unwrap_pips(h.get_pips()), vec![5, 1, 3, 4, 6]);
}

#[test]
fn add_dice_appends_until_five() {
    let mut a = Hand::new();
    a.fill_dice_with(&[1, 2, 3, 4, 5]).unwrap();
    a.hold(0, true).unwrap();
    a.hold(4, true).unwrap();
    a.remove_dice();
    let mut b = Hand::new();
    b.add_dice(&a).unwrap();
    b.add_dice(&a).unwrap();
    assert_eq!(HandOpError::unwrap_pips(b.get_pips()), vec![1, 5, 1, 5]);
    assert!(matches!(b.add_dice(&a), Err(HandOpError::TooBigHand)));
    assert_eq!(b.get_dice().len(), 4);
}

#[test]
fn random_faces_are_dice_faces() {
    let f = yatzee::hand::random_faces(500);
    assert_eq!(f.len(), 500);
    assert!(f.iter().all(|p| (1..=6).contains(p)));
    assert!(f.iter().any(|&p| p != f[0]));
}
