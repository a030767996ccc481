use yatzee::scoring::{
    scoring, Boxes, FULL_HOUSE_SCORE, LARGE_STRAIGHT_SCORE, SMALL_STRAIGHT_SCORE, YAHTZEE_SCORE,
};

#[test]
fn upper_section_scoring_test() {
    let dice: [u32; 5] = [1, 3, 3, 3, 6];
    assert_eq!(scoring(Boxes::Threes, &dice), 9);
}

#[test]
fn three_of_a_kind_test() {
    let dice: [u32; 5] = [1, 3, 3, 3, 6];
    assert_eq!(scoring(Boxes::ThreeOfaAKind, &dice), 16);

    let dice: [u32; 5] = [1, 3, 3, 3, 3];
    assert_eq!(scoring(Boxes::ThreeOfaAKind, &dice), 13);

    let dice: [u32; 5] = [1, 2, 3, 3, 6];
    assert_eq!(scoring(Boxes::ThreeOfaAKind, &dice), 0);
}

#[test]
fn four_of_a_kind_test() {
    let dice: [u32; 5] = [1, 3, 3, 3, 3];
    assert_eq!(scoring(Boxes::FourOfaAKind, &dice), 13);

    let dice: [u32; 5] = [3, 3, 3, 3, 3];
    assert_eq!(scoring(Boxes::FourOfaAKind, &dice), 15);

    let dice: [u32; 5] = [1, 2, 3, 3, 6];
    assert_eq!(scoring(Boxes::FourOfaAKind, &dice), 0);
}

#[test]
fn full_house_test() {
    let dice: [u32; 5] = [4, 3, 3, 4, 3];
    assert_eq!(scoring(Boxes::FullHouse, &dice), FULL_HOUSE_SCORE);

    let dice: [u32; 5] = [5, 5, 5, 5, 5];
    assert_eq!(scoring(Boxes::FullHouse, &dice), 0);

    let dice: [u32; 5] = [4, 5, 1, 4, 5];
    assert_eq!(scoring(Boxes::FullHouse, &dice), 0);
}

#[test]
fn small_straight_test() {
    let dice: [u32; 5] = [5, 3, 4, 4, 2];
    assert_eq!(scoring(Boxes::SmallStraight, &dice), SMALL_STRAIGHT_SCORE);

    let dice: [u32; 5] = [2, 4, 4, 6, 4];
    assert_eq!(scoring(Boxes::SmallStraight, &dice), 0);
}

#[test]
fn large_straight_test() {
    let dice: [u32; 5] = [5, 3, 1, 4, 2];
    assert_eq!(scoring(Boxes::LargeStraight, &dice), LARGE_STRAIGHT_SCORE);

    let dice: [u32; 5] = [2, 3, 4, 1, 4];
    assert_eq!(scoring(Boxes::LargeStraight, &dice), 0);
}

#[test]
fn yahtzee_test() {
    let dice: [u32; 5] = [4, 4, 4, 4, 4];
    assert_eq!(scoring(Boxes::Yahtzee, &dice), YAHTZEE_SCORE);

    let dice: [u32; 5] = [2, 3, 5, 1, 4];
    assert_eq!(scoring(Boxes::Yahtzee, &dice), 0);
}

#[test]
fn chance_test() {
    let dice: [u32; 5] = [1, 3, 5, 2, 6];
    assert_eq!(scoring(Boxes::Chance, &dice), 17);
}

#[test]
fn scoring_examples_of_each_rule() {
    assert_eq!(scoring(Boxes::ThreeOfaAKind, &[1, 3, 3, 3, 6]), 16);
    assert_eq!(scoring(Boxes::FourOfaAKind, &[3, 3, 3, 3, 3]), 15);
    assert_eq!(scoring(Boxes::FullHouse, &[3, 3, 4, 4, 4]), 25);
    assert_eq!(scoring(Boxes::FullHouse, &[5, 5, 5, 5, 5]), 0);
    assert_eq!(scoring(Boxes::SmallStraight, &[2, 3, 4, 4, 5]), 30);
    assert_eq!(scoring(Boxes::LargeStraight, &[1, 2, 3, 4, 5]), 40);
    assert_eq!(scoring(Boxes::Yahtzee, &[4, 4, 4, 4, 4]), 50);
    assert_eq!(scoring(Boxes::Chance, &[1, 2, 3, 5, 6]), 17);
}

#[test]
fn upper_categories_count_their_face_only() {
    let dice = [6, 1, 6, 2, 6];
    assert_eq!(scoring(Boxes::Aces, &dice), 1);
    assert_eq!(scoring(Boxes::Twos, &dice), 2);
    assert_eq!(scoring(Boxes::Threes, &dice), 0);
    assert_eq!(scoring(Boxes::Fours, &dice), 0);
    assert_eq!(scoring(Boxes::Fives, &dice), 0);
    assert_eq!(scoring(Boxes::Sixes, &dice), 18);
}

#[test]
fn full_house_needs_three_and_two() {
    assert_eq!(scoring(Boxes::FullHouse, &[2, 2, 2, 2, 5]), 0);
    assert_eq!(scoring(Boxes::FullHouse, &[6, 1, 6, 1, 6]), 25);
}

#[test]
fn straights_at_every_start() {
    assert_eq!(scoring(Boxes::SmallStraight, &[1, 2, 3, 4, 6]), 30);
    assert_eq!(scoring(Boxes::SmallStraight, &[6, 5, 4, 3, 3]), 30);
    assert_eq!(scoring(Boxes::SmallStraight, &[1, 2, 3, 5, 6]), 0);
    assert_eq!(scoring(Boxes::LargeStraight, &[6, 2, 3, 4, 5]), 40);
    assert_eq!(scoring(Boxes::LargeStraight, &[1, 2, 3, 4, 6]), 0);
    assert_eq!(scoring(Boxes::LargeStraight, &[1, 2, 3, 4, 5]), 40);
}

#[test]
fn category_order_and_cycles() {
    assert_eq!(Boxes::Aces.index(), 0);
    assert_eq!(Boxes::Chance.index(), 12);
    assert_eq!(Boxes::from_index(8), Boxes::FullHouse);
    assert_eq!(Boxes::Chance.next_cycle(), Boxes::Aces);
    assert_eq!(Boxes::Aces.previous_cycle(), Boxes::Chance);
    assert_eq!(Boxes::Sixes.next_cycle(), Boxes::ThreeOfaAKind);
    assert_eq!(Boxes::ThreeOfaAKind.label(), "Three of a kind");
}
