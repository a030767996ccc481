use yatzee::app::{App, AppReturn, AppState, NumPlayersSelection, PlayCursorPos};
use yatzee::events::Actions;
use yatzee::game_data::GameData;
use yatzee::hand::HandOpError;
use yatzee::play::Play;
use yatzee::scoring::{scoring, Boxes};

#[test]
fn two_players_committing_chance_sums_every_turn() {
    let mut game = GameData::new(2);
    let mut totals = [0u32; 2];
    let mut turns = 0;
    while !game.is_game_over() {
        let pid = game.current_player_id();
        let mut play = Play::new(pid);
        play.progress().unwrap();
        play.progress().unwrap();
        let dice = HandOpError::unwrap_pips(play.get_hand().get_pips());
        let score = scoring(Boxes::Chance, &dice);
        assert_eq!(score, dice.iter().sum::<u32>());
        let table = game.get_score_table(pid);
        let b = (0..13)
            .map(Boxes::from_index)
            .find(|&b| !table.has_score_in(b))
            .unwrap();
        game.confirm_score(pid, b, score).unwrap();
        totals[pid] += score;
        turns += 1;
        if !game.is_game_over() {
            assert_eq!(game.current_player_id(), game.next_player_id(pid));
        }
    }
    assert_eq!(turns, 26);
    for pid in 0..2 {
        let t = game.get_score_table(pid);
        assert!(t.has_all_scores());
        let bonus = t.calculate_bonus().unwrap();
        assert_eq!(t.get_total_score(), totals[pid] + bonus);
    }
}

#[test]
fn current_player_resumes_after_the_player_behind() {
    let mut game = GameData::new(2);
    assert_eq!(game.current_player_id(), 0);
    game.confirm_score(0, Boxes::Chance, 20).unwrap();
    assert_eq!(game.current_player_id(), 1);
    game.confirm_score(1, Boxes::Chance, 11).unwrap();
    assert_eq!(game.current_player_id(), 0);

    let mut four = GameData::new(4);
    four.confirm_score(0, Boxes::Aces, 1).unwrap();
    four.confirm_score(1, Boxes::Aces, 1).unwrap();
    assert_eq!(four.current_player_id(), 2);
    assert_eq!(four.next_player_id(3), 0);
    assert_eq!(four.get_num_players(), 4);
}

#[test]
fn game_over_only_when_every_table_is_full() {
    let mut game = GameData::new(2);
    for i in 0..13 {
        game.confirm_score(0, Boxes::from_index(i), 0).unwrap();
    }
    assert!(!game.is_game_over());
    for i in 0..13 {
        game.confirm_score(1, Boxes::from_index(i), 0).unwrap();
    }
    assert!(game.is_game_over());
}

fn play_cursor(app: &App) -> PlayCursorPos {
    *app.get_state().get_play_cursor_pos().unwrap()
}

#[test]
fn app_plays_a_two_player_game_to_the_result_screen() {
    let mut app = App::new();
    assert!(app.get_game_data().is_err());
    assert_eq!(app.do_action(Actions::Select).unwrap(), AppReturn::Continue);
    assert!(matches!(
        app.get_state(),
        AppState::SelectNumPlayers(NumPlayersSelection::NumPlayers(1))
    ));
    app.do_action(Actions::Down).unwrap();
    app.do_action(Actions::Select).unwrap();
    assert_eq!(app.get_game_data().unwrap().get_num_players(), 2);

    let mut commits = 0;
    while !matches!(app.get_state(), AppState::Result) {
        app.do_action(Actions::Pass).unwrap();
        assert_eq!(play_cursor(&app), PlayCursorPos::Roll);
        app.do_action(Actions::Select).unwrap();
        app.do_action(Actions::Select).unwrap();
        assert_eq!(play_cursor(&app), PlayCursorPos::Hand(0));
        app.do_action(Actions::Up).unwrap();
        assert_eq!(play_cursor(&app), PlayCursorPos::Hand(0));
        app.do_action(Actions::Left).unwrap();
        app.do_action(Actions::Left).unwrap();
        app.do_action(Actions::Right).unwrap();
        app.do_action(Actions::Right).unwrap();
        app.do_action(Actions::Right).unwrap();
        app.do_action(Actions::Right).unwrap();
        assert_eq!(play_cursor(&app), PlayCursorPos::Hand(4));
        app.do_action(Actions::Right).unwrap();
        let pid = app.get_state().get_play_data().unwrap().get_player_id();
        let dice = HandOpError::unwrap_pips(
            app.get_state().get_play_data().unwrap().get_hand().get_pips(),
        );
        let b = match play_cursor(&app) {
            PlayCursorPos::Table(b) => b,
            _ => panic!("cursor must be in the table"),
        };
        assert!(!app.get_game_data().unwrap().get_score_table(pid).has_score_in(b));
        app.do_action(Actions::Select).unwrap();
        commits += 1;
        assert_eq!(
            app.get_game_data().unwrap().get_score_table(pid).get_score(b),
            &Some(scoring(b, &dice))
        );
    }
    assert_eq!(commits, 26);
    let game = app.get_game_data().unwrap();
    assert!(game.is_game_over());
    assert_eq!(app.do_action(Actions::Select).unwrap(), AppReturn::Exit);
}

#[test]
fn app_menus_move_and_exit() {
    let mut app = App::new();
    app.do_action(Actions::Down).unwrap();
    assert_eq!(app.do_action(Actions::Select).unwrap(), AppReturn::Exit);

    let mut app = App::new();
    app.do_action(Actions::Select).unwrap();
    app.do_action(Actions::Up).unwrap();
    assert!(matches!(
        app.get_state(),
        AppState::SelectNumPlayers(NumPlayersSelection::Back)
    ));
    app.do_action(Actions::Up).unwrap();
    assert!(matches!(
        app.get_state(),
        AppState::SelectNumPlayers(NumPlayersSelection::NumPlayers(4))
    ));
    app.do_action(Actions::Down).unwrap();
    app.do_action(Actions::Select).unwrap();
    assert!(matches!(app.get_state(), AppState::StartMenu(..)));
    assert_eq!(app.do_action(Actions::Exit).unwrap(), AppReturn::Exit);
}

#[test]
fn app_score_table_cursor_skips_filled_categories() {
    let mut app = App::new();
    app.do_action(Actions::Select).unwrap();
    app.do_action(Actions::Select).unwrap();
    app.do_action(Actions::Pass).unwrap();
    app.do_action(Actions::Select).unwrap();
    app.do_action(Actions::Select).unwrap();
    app.do_action(Actions::Up).unwrap();
    app.do_action(Actions::Down).unwrap();
    assert_eq!(play_cursor(&app), PlayCursorPos::Dust(0));
    app.do_action(Actions::Up).unwrap();
    app.do_action(Actions::Left).unwrap();
    for _ in 0..5 {
        app.do_action(Actions::Right).unwrap();
    }
    assert_eq!(play_cursor(&app), PlayCursorPos::Table(Boxes::Aces));
    app.do_action(Actions::Up).unwrap();
    assert_eq!(play_cursor(&app), PlayCursorPos::Table(Boxes::Chance));
    app.do_action(Actions::Down).unwrap();
    app.do_action(Actions::Down).unwrap();
    assert_eq!(play_cursor(&app), PlayCursorPos::Table(Boxes::Twos));
    app.do_action(Actions::Select).unwrap();
    assert!(app.get_game_data().unwrap().get_score_table(0).has_score_in(Boxes::Twos));

    app.do_action(Actions::Pass).unwrap();
    app.do_action(Actions::Select).unwrap();
    app.do_action(Actions::Select).unwrap();
    for _ in 0..5 {
        app.do_action(Actions::Right).unwrap();
    }
    assert_eq!(play_cursor(&app), PlayCursorPos::Table(Boxes::Aces));
    app.do_action(Actions::Down).unwrap();
    assert_eq!(play_cursor(&app), PlayCursorPos::Table(Boxes::Threes));
}

#[test]
fn two_player_chance_game_with_given_dice_sums_exactly() {
    let rolls: Vec<[u32; 5]> = (0..26u32)
        .map(|t| {
            [
                1 + t % 6,
                1 + (t + 1) % 6,
                1 + (t * 2) % 6,
                1 + (t * 5 + 3) % 6,
                1 + (t + 4) % 6,
            ]
        })
        .collect();
    let mut game = GameData::new(2);
    let mut raw = [0u32; 2];
    for (turn, roll) in rolls.iter().enumerate() {
        assert!(!game.is_game_over());
        let pid = game.current_player_id();
        assert_eq!(pid, turn % 2);
        let mut play = Play::new(pid);
        play.progress_with(roll).unwrap();
        play.progress_with(roll).unwrap();
        let dice = HandOpError::unwrap_pips(play.get_hand().get_pips());
        assert_eq!(dice, roll.to_vec());
        let score = scoring(Boxes::Chance, &dice);
        let b = Boxes::from_index(turn / 2);
        game.confirm_score(pid, b, score).unwrap();
        raw[pid] += roll.iter().sum::<u32>();
    }
    assert!(game.is_game_over());
    for pid in 0..2 {
        let t = game.get_score_table(pid);
        assert_eq!(t.get_num_filled_scores(), 13);
        let upper: u32 = (0..6).map(|i| rolls[2 * i + pid].iter().sum::<u32>()).sum();
        let bonus = if upper >= 63 { 35 } else { 0 };
        assert_eq!(t.get_total_upper_score(), upper);
        assert_eq!(t.get_total_score(), raw[pid] + bonus);
    }
}
