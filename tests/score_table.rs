use yatzee::hand::Die;
use yatzee::score_table::{Record, RecordError, ScoreTable};
use yatzee::scoring::Boxes;

#[test]
fn test_record() {
    let mut record = Record::new();
    assert!(!record.is_filled());

    let score: u32 = 32;
    record.fill(score).unwrap();
    assert_eq!(record.get_score(), &Some(score));
    assert!(record.is_filled());
}

#[test]
fn test_score_table() {
    let mut score_table = ScoreTable::new();
    let b = Boxes::Chance;
    let score: u32 = 21;

    assert!(!score_table.has_score_in(b));

    score_table.confirm_score(b, score).unwrap();
    assert!(score_table.has_score_in(b));
    assert_eq!(score_table.get_score(b), &Some(score));
}

#[test]
fn test_get_total_upper_score() {
    let mut score_table = ScoreTable::new();
    for &(b, p) in ScoreTable::BONUS_TARGETS.iter() {
        score_table.confirm_score(b, p * 3).unwrap();
    }

    assert_eq!(
        score_table.get_total_upper_score(),
        ScoreTable::BONUS_THRESHOLD
    );

    let mut score_table = ScoreTable::new();
    for &(b, p) in ScoreTable::BONUS_TARGETS.iter() {
        score_table.confirm_score(b, p * 2).unwrap();
    }

    assert_eq!(
        score_table.get_total_upper_score(),
        Die::PIPS.iter().sum::<u32>() * 2
    );

    let mut score_table = ScoreTable::new();
    for &(b, p) in ScoreTable::BONUS_TARGETS[1..].iter() {
        score_table.confirm_score(b, p * 3).unwrap();
    }

    assert_eq!(
        score_table.get_total_upper_score(),
        Die::PIPS[1..].iter().sum::<u32>() * 3
    );

    let mut score_table = ScoreTable::new();
    for &(b, p) in ScoreTable::BONUS_TARGETS[1..].iter() {
        score_table.confirm_score(b, p * 2).unwrap();
    }

    assert_eq!(
        score_table.get_total_upper_score(),
        Die::PIPS[1..].iter().sum::<u32>() * 2
    );
}

#[test]
fn test_get_total_upper_score_if_filled_by() {
    let mut score_table = ScoreTable::new();
    for &(b, p) in ScoreTable::BONUS_TARGETS.iter() {
        score_table.confirm_score(b, p * 3).unwrap();
    }

    assert_eq!(
        score_table.get_total_upper_score_if_filled_by(Boxes::Chance, 20),
        ScoreTable::BONUS_THRESHOLD
    );

    let mut score_table = ScoreTable::new();
    for &(b, p) in ScoreTable::BONUS_TARGETS.iter() {
        score_table.confirm_score(b, p * 2).unwrap();
    }

    assert_eq!(
        score_table.get_total_upper_score_if_filled_by(Boxes::Chance, 20),
        Die::PIPS.iter().sum::<u32>() * 2
    );

    let mut score_table = ScoreTable::new();
    for &(b, p) in ScoreTable::BONUS_TARGETS[1..].iter() {
        score_table.confirm_score(b, p * 3).unwrap();
    }

    let (b, p) = ScoreTable::BONUS_TARGETS[0];
    assert_eq!(
        score_table.get_total_upper_score_if_filled_by(b, p * 3),
        Die::PIPS.iter().sum::<u32>() * 3
    );
    assert_eq!(
        score_table.get_total_upper_score_if_filled_by(b, p * 2),
        Die::PIPS[1..].iter().sum::<u32>() * 3 + 2
    );
}

#[test]
fn test_calculate_bonus() {
    let mut score_table = ScoreTable::new();
    for &(b, p) in ScoreTable::BONUS_TARGETS.iter() {
        score_table.confirm_score(b, p * 3).unwrap();
    }

    assert_eq!(score_table.calculate_bonus(), Some(ScoreTable::BONUS_POINT));

    let mut score_table = ScoreTable::new();
    for &(b, p) in ScoreTable::BONUS_TARGETS.iter() {
        score_table.confirm_score(b, p * 2).unwrap();
    }

    assert_eq!(score_table.calculate_bonus(), Some(0));

    let mut score_table = ScoreTable::new();
    for &(b, p) in ScoreTable::BONUS_TARGETS[1..].iter() {
        score_table.confirm_score(b, p * 3).unwrap();
    }

    assert_eq!(score_table.calculate_bonus(), None);

    let mut score_table = ScoreTable::new();
    for &(b, p) in ScoreTable::BONUS_TARGETS[1..].iter() {
        score_table.confirm_score(b, p * 2).unwrap();
    }

    assert_eq!(score_table.calculate_bonus(), Some(0));
}

#[test]
fn test_calculate_bonus_if_filled_by() {
    let mut score_table = ScoreTable::new();
    for &(b, p) in ScoreTable::BONUS_TARGETS.iter() {
        score_table.confirm_score(b, p * 3).unwrap();
    }

    let result = score_table.calculate_bonus_if_filled_by(Boxes::Chance, 20);
    assert_eq!(result, Some(ScoreTable::BONUS_POINT));

    let mut score_table = ScoreTable::new();
    for &(b, p) in ScoreTable::BONUS_TARGETS.iter() {
        score_table.confirm_score(b, p * 2).unwrap();
    }

    let result = score_table.calculate_bonus_if_filled_by(Boxes::Chance, 20);
    assert_eq!(result, Some(0));

    let mut score_table = ScoreTable::new();
    for &(b, p) in ScoreTable::BONUS_TARGETS[1..].iter() {
        score_table.confirm_score(b, p * 3).unwrap();
    }

    let (b, p) = ScoreTable::BONUS_TARGETS[0];
    let result = score_table.calculate_bonus_if_filled_by(b, p * 2);
    assert_eq!(result, Some(0));
    let result = score_table.calculate_bonus_if_filled_by(b, p * 3);
    assert_eq!(result, Some(ScoreTable::BONUS_POINT));
}

#[test]
fn test_get_total_score() {
    let mut score_table = ScoreTable::new();
    for &(b, p) in ScoreTable::BONUS_TARGETS.iter() {
        score_table.confirm_score(b, p * 3).unwrap();
    }

    assert_eq!(
        score_table.get_total_score(),
        ScoreTable::BONUS_POINT + ScoreTable::BONUS_THRESHOLD
    );

    let mut score_table = ScoreTable::new();
    for &(b, p) in ScoreTable::BONUS_TARGETS.iter() {
        score_table.confirm_score(b, p * 2).unwrap();
    }

    assert_eq!(
        score_table.get_total_score(),
        Die::PIPS.iter().sum::<u32>() * 2
    );

    let mut score_table = ScoreTable::new();
    for &(b, p) in ScoreTable::BONUS_TARGETS[1..].iter() {
        score_table.confirm_score(b, p * 3).unwrap();
    }

    assert_eq!(
        score_table.get_total_score(),
        Die::PIPS[1..].iter().sum::<u32>() * 3
    );

    let mut score_table = ScoreTable::new();
    for &(b, p) in ScoreTable::BONUS_TARGETS[1..].iter() {
        score_table.confirm_score(b, p * 2).unwrap();
    }

    assert_eq!(
        score_table.get_total_score(),
        Die::PIPS[1..].iter().sum::<u32>() * 2
    );
}

#[test]
fn test_get_total_score_if_filled_by() {
    let mut score_table = ScoreTable::new();
    for &(b, p) in ScoreTable::BONUS_TARGETS.iter() {
        score_table.confirm_score(b, p * 3).unwrap();
    }

    assert_eq!(
        score_table.get_total_score_if_filled_by(Boxes::Chance, 20),
        ScoreTable::BONUS_POINT + ScoreTable::BONUS_THRESHOLD + 20
    );

    let mut score_table = ScoreTable::new();
    for &(b, p) in ScoreTable::BONUS_TARGETS.iter() {
        score_table.confirm_score(b, p * 2).unwrap();
    }

    assert_eq!(
        score_table.get_total_score_if_filled_by(Boxes::Chance, 20),
        Die::PIPS.iter().sum::<u32>() * 2 + 20
    );

    let mut score_table = ScoreTable::new();
    for &(b, p) in ScoreTable::BONUS_TARGETS[1..].iter() {
        score_table.confirm_score(b, p * 3).unwrap();
    }

    let (b, p) = ScoreTable::BONUS_TARGETS[0];
    assert_eq!(
        score_table.get_total_score_if_filled_by(b, p * 3),
        Die::PIPS.iter().sum::<u32>() * 3 + ScoreTable::BONUS_POINT
    );
    assert_eq!(
        score_table.get_total_score_if_filled_by(b, p * 2),
        Die::PIPS[1..].iter().sum::<u32>() * 3 + 2
    );
}

#[test]
fn confirming_a_category_twice_fails_and_keeps_the_first_score() {
    let mut t = ScoreTable::new();
    t.confirm_score(Boxes::Yahtzee, 50).unwrap();
    assert_eq!(
        t.confirm_score(Boxes::Yahtzee, 0),
        Err(RecordError::TryToFillFilledRecord)
    );
    assert_eq!(t.get_score(Boxes::Yahtzee), &Some(50));
    assert_eq!(t.get_num_filled_scores(), 1);

    let mut r = Record::new_with_score(7);
    assert_eq!(r.fill(9), Err(RecordError::TryToFillFilledRecord));
    assert_eq!(r.get_score(), &Some(7));
}

#[test]
fn bonus_undecided_with_only_aces_filled() {
    let mut t = ScoreTable::new();
    t.confirm_score(Boxes::Aces, 3).unwrap();
    assert_eq!(t.calculate_bonus(), None);
    assert_eq!(t.get_total_score(), 3);
}

#[test]
fn bonus_is_zero_once_threshold_is_unreachable_before_table_is_full() {
    let mut t = ScoreTable::new();
    t.confirm_score(Boxes::Sixes, 0).unwrap();
    t.confirm_score(Boxes::Fives, 0).unwrap();
    assert_eq!(t.calculate_bonus(), Some(0));
    let mut t = ScoreTable::new();
    t.confirm_score(Boxes::Sixes, 6).unwrap();
    t.confirm_score(Boxes::Fives, 15).unwrap();
    assert_eq!(t.calculate_bonus(), None);
}

#[test]
fn projections_do_not_mutate_and_match_a_real_confirm() {
    let mut t = ScoreTable::new();
    t.confirm_score(Boxes::Aces, 3).unwrap();
    t.confirm_score(Boxes::Twos, 6).unwrap();
    t.confirm_score(Boxes::Threes, 9).unwrap();
    t.confirm_score(Boxes::Fours, 12).unwrap();
    t.confirm_score(Boxes::Fives, 15).unwrap();
    let before = t.get_total_score();
    let projected_total = t.get_total_score_if_filled_by(Boxes::Sixes, 18);
    let projected_bonus = t.calculate_bonus_if_filled_by(Boxes::Sixes, 18);
    let projected_upper = t.get_total_upper_score_if_filled_by(Boxes::Sixes, 18);
    assert_eq!(t.get_total_score(), before);
    assert!(!t.has_score_in(Boxes::Sixes));
    t.confirm_score(Boxes::Sixes, 18).unwrap();
    assert_eq!(t.get_total_score(), projected_total);
    assert_eq!(t.calculate_bonus(), projected_bonus);
    assert_eq!(t.get_total_upper_score(), projected_upper);
    assert_eq!(projected_total, 63 + 35);
    assert_eq!(t.get_total_score_if_filled_by(Boxes::Sixes, 0), 98);
}

#[test]
fn full_table_reports_all_scores() {
    let mut t = ScoreTable::new();
    let all = [
        Boxes::Aces,
        Boxes::Twos,
        Boxes::Threes,
        Boxes::Fours,
        Boxes::Fives,
        Boxes::Sixes,
        Boxes::ThreeOfaAKind,
        Boxes::FourOfaAKind,
        Boxes::FullHouse,
        Boxes::SmallStraight,
        Boxes::LargeStraight,
        Boxes::Yahtzee,
    ];
    for b in all {
        t.confirm_score(b, 1).unwrap();
        assert!(!t.has_all_scores());
    }
    t.confirm_score(Boxes::Chance, 1).unwrap();
    assert!(t.has_all_scores());
    assert_eq!(t.get_num_filled_scores(), 13);
    assert_eq!(t.get_total_score(), 13);
}
