//! The game's controller: start menu, choice of the number of players, the turns with their
//! cursor, and the result screen, driven one abstract action at a time.

use crate::events::Actions;
use crate::game_data::{current_player, is_full, GameData};
use crate::hand::{all_held, all_set_held, faces, fresh, kept, Die, HandOpError};
use crate::play::{next_phase, roll_count, Play, PlayPhase, PlayPhaseError};
use crate::score_table::{lemma_lower_fill_adds_score, total_of, valid_table, RecordError};
use crate::scoring::{box_index, box_score, lemma_sum_le, scoring, sum, Boxes, HAND_SIZE, NUM_BOXES};
use vstd::prelude::*;

verus! {

/// Whether the program goes on after an action.
#[derive(Clone, Copy, Debug, PartialEq, Eq, Structural)]
pub enum AppReturn {
    Exit,
    Continue,
}

/// Raised by a score-table move while the cursor is elsewhere.
#[derive(Clone, Copy, Debug, PartialEq, Eq, Structural)]
pub enum PlayCursorPosError {
    NotInTable,
}

/// Where the cursor stands during a turn: the roll button, a die of the hand, the slot below
/// a die, a category of the score table, or nowhere.
#[derive(Clone, Copy, Debug, PartialEq, Eq, Structural)]
pub enum PlayCursorPos {
    Roll,
    Hand(usize),
    Dust(usize),
    Table(Boxes),
    Disappear,
}

/// The entries of the start menu.
#[derive(Clone, Copy, Debug, PartialEq, Eq, Structural)]
pub enum StartMenuSelection {
    Play,
    Exit,
}

impl StartMenuSelection {
    /// The text of this entry.
    pub fn label(self) -> &'static str {
        match self {
            StartMenuSelection::Play => "Play",
            StartMenuSelection::Exit => "Exit",
        }
    }
}

/// Fewest players of a game.
pub const LOWEST_PLAYER_ID: usize = 1;

/// Most players of a game.
pub const HIGHEST_PLAYER_ID: usize = 4;

/// The entries of the screen that chooses the number of players.
#[derive(Clone, Copy, Debug, PartialEq, Eq, Structural)]
pub enum NumPlayersSelection {
    NumPlayers(usize),
    Back,
}

/// The screen the program shows, with what it needs.
pub enum AppState {
    StartMenu(StartMenuSelection),
    SelectNumPlayers(NumPlayersSelection),
    Play(Option<Play>, PlayCursorPos),
    Result,
}

/// Raised when an action does not fit the screen.
#[derive(Clone, Copy, Debug, PartialEq, Eq, Structural)]
pub enum AppStateError {
    UnexpectedState,
    NoPlayData,
    ExistPlayData,
    TryToConfirmFilledBox,
}

/// Failures of the controller.
#[derive(Debug)]
pub enum AppError {
    NoGameData,
    State(AppStateError),
    Cursor(PlayCursorPosError),
    Phase(PlayPhaseError),
    Hand(HandOpError),
    Record(RecordError),
}

/// A game that is under way: well-formed, for one to four players.
pub open spec fn game_ready(g: Option<GameData>) -> bool {
    &&& g is Some
    &&& g->Some_0.wf()
    &&& LOWEST_PLAYER_ID <= g->Some_0.players() <= HIGHEST_PLAYER_ID
}

/// A cursor on a die names one of the five positions.
pub open spec fn valid_cursor(pos: PlayCursorPos) -> bool {
    match pos {
        PlayCursorPos::Hand(p) => p < HAND_SIZE,
        PlayCursorPos::Dust(p) => p < HAND_SIZE,
        _ => true,
    }
}

/// The states that the controller can reach, given its game.
pub open spec fn valid_state(s: AppState, g: Option<GameData>) -> bool {
    match s {
        AppState::StartMenu(_) => true,
        AppState::SelectNumPlayers(sel) => match sel {
            NumPlayersSelection::NumPlayers(n) => LOWEST_PLAYER_ID <= n <= HIGHEST_PLAYER_ID,
            NumPlayersSelection::Back => true,
        },
        AppState::Play(play, pos) => {
            &&& game_ready(g)
            &&& valid_cursor(pos)
            &&& play is Some ==> play->Some_0.wf() && play->Some_0.player()
                < g->Some_0.players()
        },
        AppState::Result => game_ready(g),
    }
}

/// The other entry of the start menu.
pub open spec fn other_entry(sel: StartMenuSelection) -> StartMenuSelection {
    match sel {
        StartMenuSelection::Play => StartMenuSelection::Exit,
        StartMenuSelection::Exit => StartMenuSelection::Play,
    }
}

/// The entry above `sel` on the players screen, `Back` standing above one player.
pub open spec fn num_players_up(sel: NumPlayersSelection) -> NumPlayersSelection {
    match sel {
        NumPlayersSelection::NumPlayers(n) => if n == LOWEST_PLAYER_ID {
            NumPlayersSelection::Back
        } else {
            NumPlayersSelection::NumPlayers((n - 1) as usize)
        },
        NumPlayersSelection::Back => NumPlayersSelection::NumPlayers(HIGHEST_PLAYER_ID),
    }
}

/// The entry below `sel` on the players screen, `Back` standing below four players.
pub open spec fn num_players_down(sel: NumPlayersSelection) -> NumPlayersSelection {
    match sel {
        NumPlayersSelection::NumPlayers(n) => if n < HIGHEST_PLAYER_ID {
            NumPlayersSelection::NumPlayers((n + 1) as usize)
        } else {
            NumPlayersSelection::Back
        },
        NumPlayersSelection::Back => NumPlayersSelection::NumPlayers(LOWEST_PLAYER_ID),
    }
}

/// The first unfilled category of table `t` is at position `k`.
pub open spec fn first_open_at(t: Seq<Option<u32>>, k: int) -> bool {
    &&& 0 <= k < NUM_BOXES
    &&& t[k] is None
    &&& forall|j: int| 0 <= j < k ==> #[trigger] t[j] is Some
}

/// The position next to `j` in the table, going down (`down`) or up, round the ends.
pub open spec fn neighbour(j: int, down: bool) -> int {
    if down {
        if j + 1 == NUM_BOXES {
            0
        } else {
            j + 1
        }
    } else {
        if j == 0 {
            NUM_BOXES - 1
        } else {
            j - 1
        }
    }
}

/// The position reached from `i` after `k` moves in one direction.
pub open spec fn walk(i: int, down: bool, k: nat) -> int
    decreases k,
{
    if k == 0 {
        i
    } else {
        neighbour(walk(i, down, (k - 1) as nat), down)
    }
}

/// Walking from `i`, the `k`-th move reaches the first unfilled position, or `k` is thirteen
/// (a full round) and every other position is filled.
pub open spec fn open_after(t: Seq<Option<u32>>, i: int, down: bool, k: nat) -> bool {
    &&& 1 <= k <= NUM_BOXES
    &&& (k == NUM_BOXES || t[walk(i, down, k)] is None)
    &&& forall|m: nat| 1 <= m < k ==> #[trigger] t[walk(i, down, m)] is Some
}

/// Walking from position `i`, position `c` is where the cursor stops: the first unfilled
/// position, or the end of a full round.
pub open spec fn next_open_at(t: Seq<Option<u32>>, i: int, down: bool, c: int) -> bool {
    exists|k: nat| #[trigger] open_after(t, i, down, k) && c == walk(i, down, k)
}

/// A walk stays inside the table.
pub proof fn lemma_walk_bounds(i: int, down: bool, k: nat)
    requires
        0 <= i < NUM_BOXES,
    ensures
        0 <= walk(i, down, k) < NUM_BOXES,
    decreases k,
{
    if k > 0 {
        lemma_walk_bounds(i, down, (k - 1) as nat);
    }
}

/// A game screen whose turn for `player_id` has just begun, the cursor at `pos`.
pub open spec fn fresh_turn(s: AppState, player_id: usize, pos: PlayCursorPos) -> bool {
    s matches AppState::Play(Some(p), q) && q == pos && p.wf() && p.player() == player_id
        && p.phase() == PlayPhase::Init
}

impl AppState {
    /// The start menu with `Play` selected.
    fn initialized_start_menu_state() -> (r: AppState)
        ensures
            r == AppState::StartMenu(StartMenuSelection::Play),
    {
        AppState::StartMenu(StartMenuSelection::Play)
    }

    /// The players screen with one player selected.
    fn initialized_select_num_players_state() -> (r: AppState)
        ensures
            r == AppState::SelectNumPlayers(NumPlayersSelection::NumPlayers(LOWEST_PLAYER_ID)),
    {
        AppState::SelectNumPlayers(NumPlayersSelection::NumPlayers(LOWEST_PLAYER_ID))
    }

    /// A game screen between turns.
    fn initialized_play_state() -> (r: AppState)
        ensures
            r == AppState::Play(None, PlayCursorPos::Disappear),
    {
        AppState::Play(None, PlayCursorPos::Disappear)
    }

    /// The live turn.
    pub fn get_play_data(&self) -> (r: Result<&Play, AppStateError>)
        ensures
            match *self {
                AppState::Play(Some(p), _) => r is Ok && *r->Ok_0 == p,
                AppState::Play(None, _) => r == Err::<&Play, AppStateError>(
                    AppStateError::NoPlayData,
                ),
                _ => r == Err::<&Play, AppStateError>(AppStateError::UnexpectedState),
            },
    {
        match self {
            AppState::Play(Some(play), _) => Ok(play),
            AppState::Play(None, _) => Err(AppStateError::NoPlayData),
            _ => Err(AppStateError::UnexpectedState),
        }
    }

    /// Starts a turn for `player_id` on a game screen between turns.
    fn initialize_play_data(&mut self, player_id: usize) -> (r: Result<(), AppStateError>)
        ensures
            match *old(self) {
                AppState::Play(None, pos) => r is Ok && fresh_turn(*final(self), player_id, pos),
                AppState::Play(Some(_), _) => r == Err::<(), AppStateError>(
                    AppStateError::ExistPlayData,
                ) && *final(self) == *old(self),
                _ => r == Err::<(), AppStateError>(AppStateError::UnexpectedState) && *final(self) == *old(self),
            },
    {
        let mut st = AppState::Result;
        core::mem::swap(self, &mut st);
        match st {
            AppState::Play(None, pos) => {
                *self = AppState::Play(Some(Play::new(player_id)), pos);
                Ok(())
            },
            AppState::Play(Some(play), pos) => {
                *self = AppState::Play(Some(play), pos);
                Err(AppStateError::ExistPlayData)
            },
            other => {
                *self = other;
                Err(AppStateError::UnexpectedState)
            },
        }
    }

    /// Ends the live turn: back to a game screen between turns.
    fn cleanup_play_data(&mut self) -> (r: Result<(), AppStateError>)
        ensures
            *old(self) is Play ==> r is Ok && *final(self) == AppState::Play(
                None,
                PlayCursorPos::Disappear,
            ),
            !(*old(self) is Play) ==> r == Err::<(), AppStateError>(AppStateError::UnexpectedState)
                && *final(self) == *old(self),
    {
        if let AppState::Play(..) = self {
            *self = Self::initialized_play_state();
            Ok(())
        } else {
            Err(AppStateError::UnexpectedState)
        }
    }

    /// The cursor of the game screen.
    pub fn get_play_cursor_pos(&self) -> (r: Result<&PlayCursorPos, AppStateError>)
        ensures
            match *self {
                AppState::Play(_, pos) => r is Ok && *r->Ok_0 == pos,
                _ => r == Err::<&PlayCursorPos, AppStateError>(AppStateError::UnexpectedState),
            },
    {
        match self {
            AppState::Play(_, pos) => Ok(pos),
            _ => Err(AppStateError::UnexpectedState),
        }
    }

    /// Moves the cursor of the game screen.
    fn set_play_cursor_pos(&mut self, new_pos: PlayCursorPos) -> (r: Result<(), AppStateError>)
        ensures
            match *old(self) {
                AppState::Play(p, _) => r is Ok && *final(self) == AppState::Play(p, new_pos),
                _ => r == Err::<(), AppStateError>(AppStateError::UnexpectedState) && *final(self) == *old(self),
            },
    {
        let mut st = AppState::Result;
        core::mem::swap(self, &mut st);
        match st {
            AppState::Play(play, _) => {
                *self = AppState::Play(play, new_pos);
                Ok(())
            },
            other => {
                *self = other;
                Err(AppStateError::UnexpectedState)
            },
        }
    }
}

/// The action was handled and `v` tells whether the program goes on.
pub open spec fn answered(r: Result<AppReturn, AppError>, v: AppReturn) -> bool {
    r is Ok && r->Ok_0 == v
}

/// A commit would go through: a live turn past its first roll, the cursor on a category that
/// the player has not filled.
pub open spec fn can_commit(s: AppState, g: Option<GameData>) -> bool {
    &&& has_turn(s)
    &&& cursor_of(s) is Table
    &&& turn_of(s).phase() != PlayPhase::Init
    &&& g->Some_0.tables()[turn_of(s).player() as int][box_index(cursor_of(s)->Table_0)] is None
}

/// The game screen shows a live turn.
pub open spec fn has_turn(s: AppState) -> bool {
    s is Play && s->Play_0 is Some
}

/// The live turn of a game screen.
pub open spec fn turn_of(s: AppState) -> Play {
    s->Play_0->Some_0
}

/// The cursor of a game screen.
pub open spec fn cursor_of(s: AppState) -> PlayCursorPos {
    s->Play_1
}

/// The tables after category `b` of player `pid` is filled with the score of `dice` there.
pub open spec fn committed(
    tables: Seq<Seq<Option<u32>>>,
    pid: int,
    b: Boxes,
    dice: Seq<u32>,
) -> Seq<Seq<Option<u32>>> {
    tables.update(pid, tables[pid].update(box_index(b), Some(box_score(b, dice) as u32)))
}

/// Hand `s1` is hand `s0` rerolled when `ok`: its held dice first, in order, then fresh ones
/// up to five; otherwise `s0` unchanged.
pub open spec fn rerolled(s0: Seq<Die>, s1: Seq<Die>, ok: bool) -> bool {
    let k = kept(s0).len() as int;
    &&& ok ==> s1.len() == HAND_SIZE && s1.subrange(0, k) == kept(s0) && fresh(
        s1.subrange(k, HAND_SIZE as int),
    )
    &&& !ok ==> s1 == s0
}

/// The table of the player of the live turn.
pub open spec fn table_of(s: AppState, g: Option<GameData>) -> Seq<Option<u32>> {
    g->Some_0.tables()[turn_of(s).player() as int]
}

/// The cursor moved to the first unfilled category of table `t`, or stayed where it was
/// (`before`) when every category is filled.
pub open spec fn to_first_open(t: Seq<Option<u32>>, before: PlayCursorPos, after: PlayCursorPos) -> bool {
    &&& (exists|k: int| first_open_at(t, k)) ==> after is Table && first_open_at(
        t,
        box_index(after->Table_0),
    )
    &&& !(exists|k: int| first_open_at(t, k)) ==> after == before
}

/// The effect of a commit: the category under the cursor of the player of the live turn is
/// filled with the score of the turn's dice, the turn ends, and the result shows once the next
/// player's table is full.
pub open spec fn committed_state(
    s0: AppState,
    g0: Option<GameData>,
    s1: AppState,
    g1: Option<GameData>,
) -> bool {
    let t = turn_of(s0);
    let b = cursor_of(s0)->Table_0;
    let n = g0->Some_0.players();
    let tables = committed(g0->Some_0.tables(), t.player() as int, b, faces(t.dice()@));
    &&& g1 is Some
    &&& g1->Some_0.players() == n
    &&& g1->Some_0.tables() == tables
    &&& s1 == if is_full(tables[(t.player() + 1) % (n as int)]) {
        AppState::Result
    } else {
        AppState::Play(None, PlayCursorPos::Roll)
    }
}

/// A commit through an action: done exactly when it can be, refused with nothing changed
/// otherwise.
pub open spec fn commit_step(
    s0: AppState,
    g0: Option<GameData>,
    s1: AppState,
    g1: Option<GameData>,
    r: Result<AppReturn, AppError>,
) -> bool {
    &&& r is Ok <==> can_commit(s0, g0)
    &&& r is Ok ==> answered(r, AppReturn::Continue) && committed_state(s0, g0, s1, g1)
    &&& r is Err ==> s1 == s0 && g1 == g0
}

/// The live turn and the game stay; only the cursor may move.
pub open spec fn cursor_only(s0: AppState, g0: Option<GameData>, s1: AppState, g1: Option<GameData>) -> bool {
    &&& g1 == g0
    &&& has_turn(s1)
    &&& turn_of(s1) == turn_of(s0)
}

/// A move of the cursor inside the score table, or a refusal when it is elsewhere.
pub open spec fn table_move(
    s0: AppState,
    g0: Option<GameData>,
    s1: AppState,
    g1: Option<GameData>,
    down: bool,
    r: Result<AppReturn, AppError>,
) -> bool {
    &&& cursor_only(s0, g0, s1, g1)
    &&& cursor_of(s0) is Table ==> answered(r, AppReturn::Continue) && cursor_of(s1) is Table
        && next_open_at(
        table_of(s0, g0),
        box_index(cursor_of(s0)->Table_0),
        down,
        box_index(cursor_of(s1)->Table_0),
    )
    &&& !(cursor_of(s0) is Table) ==> r is Err && s1 == s0
}

/// The screen and answer after `action` on the start menu at `sel`.
pub open spec fn start_menu_step(sel: StartMenuSelection, action: Actions) -> (AppState, AppReturn) {
    match action {
        Actions::Exit => (AppState::StartMenu(sel), AppReturn::Exit),
        Actions::Select => match sel {
            StartMenuSelection::Play => (
                AppState::SelectNumPlayers(NumPlayersSelection::NumPlayers(LOWEST_PLAYER_ID)),
                AppReturn::Continue,
            ),
            StartMenuSelection::Exit => (AppState::StartMenu(sel), AppReturn::Exit),
        },
        Actions::Up | Actions::Down => (AppState::StartMenu(other_entry(sel)), AppReturn::Continue),
        _ => (AppState::StartMenu(sel), AppReturn::Continue),
    }
}

/// The screen and answer after `action` on the players screen at `sel`.
pub open spec fn num_players_step(sel: NumPlayersSelection, action: Actions) -> (AppState, AppReturn) {
    match action {
        Actions::Exit => (AppState::SelectNumPlayers(sel), AppReturn::Exit),
        Actions::Select => match sel {
            NumPlayersSelection::NumPlayers(_) => (
                AppState::Play(None, PlayCursorPos::Disappear),
                AppReturn::Continue,
            ),
            NumPlayersSelection::Back => (
                AppState::StartMenu(StartMenuSelection::Play),
                AppReturn::Continue,
            ),
        },
        Actions::Up => (AppState::SelectNumPlayers(num_players_up(sel)), AppReturn::Continue),
        Actions::Down => (AppState::SelectNumPlayers(num_players_down(sel)), AppReturn::Continue),
        _ => (AppState::SelectNumPlayers(sel), AppReturn::Continue),
    }
}

/// A game for `n` players with every table empty.
pub open spec fn fresh_game(g: Option<GameData>, n: usize) -> bool {
    &&& g is Some
    &&& g->Some_0.players() == n
    &&& forall|i: int, j: int|
        0 <= i < n && 0 <= j < NUM_BOXES ==> #[trigger] g->Some_0.tables()[i][j] is None
}

/// The cursor after a left move that stays off the table.
pub open spec fn left_of(pos: PlayCursorPos) -> PlayCursorPos {
    match pos {
        PlayCursorPos::Hand(p) => if p > 0 {
            PlayCursorPos::Hand((p - 1) as usize)
        } else {
            pos
        },
        PlayCursorPos::Dust(p) => if p > 0 {
            PlayCursorPos::Dust((p - 1) as usize)
        } else {
            pos
        },
        PlayCursorPos::Table(_) => PlayCursorPos::Hand((HAND_SIZE - 1) as usize),
        _ => pos,
    }
}

/// The cursor after a down move off the table.
pub open spec fn down_of(pos: PlayCursorPos) -> PlayCursorPos {
    match pos {
        PlayCursorPos::Roll => PlayCursorPos::Hand(0),
        PlayCursorPos::Hand(p) => PlayCursorPos::Dust(p),
        _ => pos,
    }
}

/// The cursor after an up move off the table; the roll button is out of reach while every
/// die is held.
pub open spec fn up_of(pos: PlayCursorPos, held: bool) -> PlayCursorPos {
    match pos {
        PlayCursorPos::Hand(_) => if held {
            pos
        } else {
            PlayCursorPos::Roll
        },
        PlayCursorPos::Dust(p) => PlayCursorPos::Hand(p),
        _ => pos,
    }
}

/// The cursor after a right move, `None` when the move goes on to the score table.
pub open spec fn right_of(pos: PlayCursorPos) -> Option<PlayCursorPos> {
    match pos {
        PlayCursorPos::Roll => None,
        PlayCursorPos::Hand(p) => if p + 1 < HAND_SIZE {
            Some(PlayCursorPos::Hand((p + 1) as usize))
        } else {
            None
        },
        PlayCursorPos::Dust(p) => if p + 1 < HAND_SIZE {
            Some(PlayCursorPos::Dust((p + 1) as usize))
        } else {
            None
        },
        _ => Some(pos),
    }
}

/// Between turns: exit ends the program; any other action starts the turn of the player to
/// move, the cursor on the roll button.
pub open spec fn no_turn_step(
    s0: AppState,
    g0: Option<GameData>,
    s1: AppState,
    g1: Option<GameData>,
    action: Actions,
    r: Result<AppReturn, AppError>,
) -> bool {
    &&& g1 == g0
    &&& action == Actions::Exit ==> answered(r, AppReturn::Exit) && s1 == s0
    &&& action != Actions::Exit ==> answered(r, AppReturn::Continue) && fresh_turn(
        s1,
        current_player(g0->Some_0.tables()) as usize,
        PlayCursorPos::Roll,
    )
}

/// Before the first roll: select rolls five fresh dice.
pub open spec fn init_step(
    s0: AppState,
    g0: Option<GameData>,
    s1: AppState,
    g1: Option<GameData>,
    action: Actions,
    r: Result<AppReturn, AppError>,
) -> bool {
    &&& g1 == g0
    &&& action == Actions::Exit ==> answered(r, AppReturn::Exit) && s1 == s0
    &&& action == Actions::Select ==> answered(r, AppReturn::Continue) && has_turn(s1)
        && turn_of(s1).phase() == PlayPhase::Roll(1) && turn_of(s1).player() == turn_of(
        s0,
    ).player() && cursor_of(s1) == cursor_of(s0) && fresh(turn_of(s1).dice()@)
    &&& action != Actions::Exit && action != Actions::Select ==> answered(r, AppReturn::Continue)
        && s1 == s0
}

/// While the dice roll: select stops them, holding every die, and puts the cursor on the
/// hand, or on the score table after the third roll; other actions shake the free dice again.
pub open spec fn roll_step(
    s0: AppState,
    g0: Option<GameData>,
    s1: AppState,
    g1: Option<GameData>,
    action: Actions,
    r: Result<AppReturn, AppError>,
) -> bool {
    let t0 = turn_of(s0);
    let t1 = turn_of(s1);
    &&& g1 == g0
    &&& action == Actions::Exit ==> answered(r, AppReturn::Exit) && s1 == s0
    &&& action != Actions::Exit ==> has_turn(s1) && t1.player() == t0.player()
    &&& action == Actions::Select ==> answered(r, AppReturn::Continue) && t1.phase() == next_phase(
        t0.phase(),
        false,
    )->Ok_0 && t1.dice()@ == all_set_held(t0.dice()@, true)
    &&& action == Actions::Select && t1.phase() is SelectOrReroll ==> cursor_of(s1)
        == PlayCursorPos::Hand(0)
    &&& action == Actions::Select && t1.phase() == PlayPhase::Select ==> to_first_open(
        table_of(s0, g0),
        cursor_of(s0),
        cursor_of(s1),
    )
    &&& action != Actions::Exit && action != Actions::Select ==> t1.phase() == t0.phase()
        && cursor_of(s1) == cursor_of(s0) && rerolled(t0.dice()@, t1.dice()@, r is Ok) && (r is Ok
        <==> !all_held(t0.dice()@)) && (r is Ok ==> answered(r, AppReturn::Continue))
}

/// Between rolls: select rolls again on the roll button, turns over the held flag of a die
/// on the hand or below it, or commits on the table; the arrows move the cursor.
pub open spec fn reroll_step(
    s0: AppState,
    g0: Option<GameData>,
    s1: AppState,
    g1: Option<GameData>,
    action: Actions,
    r: Result<AppReturn, AppError>,
) -> bool {
    let t0 = turn_of(s0);
    let t1 = turn_of(s1);
    let pos = cursor_of(s0);
    &&& action == Actions::Exit ==> answered(r, AppReturn::Exit) && s1 == s0 && g1 == g0
    &&& action == Actions::Select && pos == PlayCursorPos::Roll ==> answered(r, AppReturn::Continue)
        && g1 == g0 && has_turn(s1) && cursor_of(s1) == pos && t1.player() == t0.player() && (
    if all_held(t0.dice()@) {
        t1.phase() == t0.phase() && t1.dice()@ == t0.dice()@
    } else {
        t1.phase() == PlayPhase::Roll((roll_count(t0.phase()) + 1) as usize) && rerolled(
            t0.dice()@,
            t1.dice()@,
            true,
        )
    })
    &&& action == Actions::Select && (pos is Hand || pos is Dust) ==> ({
        let p = if pos is Hand {
            pos->Hand_0
        } else {
            pos->Dust_0
        };
        &&& answered(r, AppReturn::Continue)
        &&& g1 == g0
        &&& has_turn(s1)
        &&& cursor_of(s1) == pos
        &&& t1.player() == t0.player()
        &&& t1.phase() == t0.phase()
        &&& t1.dice()@ == t0.dice()@.update(
            p as int,
            t0.dice()@[p as int].set_held(!t0.dice()@[p as int].held()),
        )
    })
    &&& action == Actions::Select && pos is Table ==> commit_step(s0, g0, s1, g1, r)
    &&& action == Actions::Select && pos == PlayCursorPos::Disappear ==> answered(
        r,
        AppReturn::Continue,
    ) && s1 == s0 && g1 == g0
    &&& action == Actions::Left ==> answered(r, AppReturn::Continue) && cursor_only(s0, g0, s1, g1)
        && cursor_of(s1) == left_of(pos)
    &&& action == Actions::Right ==> answered(r, AppReturn::Continue) && cursor_only(s0, g0, s1, g1)
        && match right_of(pos) {
        Some(c) => cursor_of(s1) == c,
        None => to_first_open(table_of(s0, g0), pos, cursor_of(s1)),
    }
    &&& action == Actions::Up && !(pos is Table) ==> answered(r, AppReturn::Continue)
        && cursor_only(s0, g0, s1, g1) && cursor_of(s1) == up_of(pos, all_held(t0.dice()@))
    &&& action == Actions::Up && pos is Table ==> table_move(s0, g0, s1, g1, false, r)
    &&& action == Actions::Down && !(pos is Table) ==> answered(r, AppReturn::Continue)
        && cursor_only(s0, g0, s1, g1) && cursor_of(s1) == down_of(pos)
    &&& action == Actions::Down && pos is Table ==> table_move(s0, g0, s1, g1, true, r)
    &&& action == Actions::Pass ==> answered(r, AppReturn::Continue) && s1 == s0 && g1 == g0
}

/// After the third roll: select commits, up and down move in the score table.
pub open spec fn select_step(
    s0: AppState,
    g0: Option<GameData>,
    s1: AppState,
    g1: Option<GameData>,
    action: Actions,
    r: Result<AppReturn, AppError>,
) -> bool {
    &&& action == Actions::Exit ==> answered(r, AppReturn::Exit) && s1 == s0 && g1 == g0
    &&& action == Actions::Select ==> commit_step(s0, g0, s1, g1, r)
    &&& action == Actions::Up ==> table_move(s0, g0, s1, g1, false, r)
    &&& action == Actions::Down ==> table_move(s0, g0, s1, g1, true, r)
    &&& !(action == Actions::Exit || action == Actions::Select || action == Actions::Up || action
        == Actions::Down) ==> answered(r, AppReturn::Continue) && s1 == s0 && g1 == g0
}

/// The players screen: the entries move, select starts a game for the number chosen (or goes
/// back), exit ends the program.
pub open spec fn num_players_step_holds(
    s0: AppState,
    g0: Option<GameData>,
    s1: AppState,
    g1: Option<GameData>,
    action: Actions,
    r: Result<AppReturn, AppError>,
) -> bool {
    let sel = s0->SelectNumPlayers_0;
    &&& s1 == num_players_step(sel, action).0
    &&& answered(r, num_players_step(sel, action).1)
    &&& action == Actions::Select && sel is NumPlayers ==> fresh_game(g1, sel->NumPlayers_0)
    &&& !(action == Actions::Select && sel is NumPlayers) ==> g1 == g0
}

/// The result screen: exit or select ends the program, nothing else happens.
pub open spec fn result_step(
    s0: AppState,
    g0: Option<GameData>,
    s1: AppState,
    g1: Option<GameData>,
    action: Actions,
    r: Result<AppReturn, AppError>,
) -> bool {
    &&& s1 == s0
    &&& g1 == g0
    &&& answered(
        r,
        if action == Actions::Exit || action == Actions::Select {
            AppReturn::Exit
        } else {
            AppReturn::Continue
        },
    )
}

/// An action on the game screen, as the phase of the live turn says.
pub open spec fn play_step(
    s0: AppState,
    g0: Option<GameData>,
    s1: AppState,
    g1: Option<GameData>,
    action: Actions,
    r: Result<AppReturn, AppError>,
) -> bool {
    if !has_turn(s0) {
        no_turn_step(s0, g0, s1, g1, action, r)
    } else {
        match turn_of(s0).phase() {
            PlayPhase::Init => init_step(s0, g0, s1, g1, action, r),
            PlayPhase::Roll(_) => roll_step(s0, g0, s1, g1, action, r),
            PlayPhase::SelectOrReroll(_) => reroll_step(s0, g0, s1, g1, action, r),
            PlayPhase::Select => select_step(s0, g0, s1, g1, action, r),
        }
    }
}

/// A commit to `Chance` fills it with the sum of the turn's dice and raises that player's
/// total by exactly that sum; every other player's table stays as it was.
pub proof fn lemma_chance_commit_adds_sum(
    s0: AppState,
    g0: Option<GameData>,
    s1: AppState,
    g1: Option<GameData>,
)
    requires
        valid_state(s0, g0),
        can_commit(s0, g0),
        cursor_of(s0) == PlayCursorPos::Table(Boxes::Chance),
        committed_state(s0, g0, s1, g1),
    ensures
        ({
            let pid = turn_of(s0).player() as int;
            let d = faces(turn_of(s0).dice()@);
            &&& g1->Some_0.tables()[pid][box_index(Boxes::Chance)] == Some(sum(d) as u32)
            &&& total_of(g1->Some_0.tables()[pid]) == total_of(g0->Some_0.tables()[pid]) + sum(d)
            &&& forall|q: int|
                0 <= q < g0->Some_0.players() && q != pid ==> #[trigger] g1->Some_0.tables()[q]
                    == g0->Some_0.tables()[q]
        }),
{
    let pid = turn_of(s0).player() as int;
    let d = faces(turn_of(s0).dice()@);
    let t = g0->Some_0.tables()[pid];
    lemma_sum_le(d);
    assert(valid_table(t));
    lemma_lower_fill_adds_score(t, Boxes::Chance, sum(d) as u32);
}

/// The controller: the screen shown and, once a game has begun, its data.
pub struct App {
    state: AppState,
    game_data: Option<GameData>,
}

impl Default for App {
    fn default() -> (r: App)
        ensures
            r.wf(),
            r.state() == AppState::StartMenu(StartMenuSelection::Play),
            r.game() is None,
    {
        App::new()
    }
}

impl App {
    /// The screen shown.
    pub closed spec fn state(&self) -> AppState {
        self.state
    }

    /// The game, once one has begun.
    pub closed spec fn game(&self) -> Option<GameData> {
        self.game_data
    }

    /// The screen fits the game.
    pub open spec fn wf(&self) -> bool {
        valid_state(self.state(), self.game())
    }

    /// The tables of the game.
    pub open spec fn tables(&self) -> Seq<Seq<Option<u32>>> {
        self.game()->Some_0.tables()
    }

    /// A controller on the start menu, with no game.
    pub fn new() -> (r: App)
        ensures
            r.wf(),
            r.state() == AppState::StartMenu(StartMenuSelection::Play),
            r.game() is None,
    {
        App { state: AppState::StartMenu(StartMenuSelection::Play), game_data: None }
    }

    /// The screen shown.
    pub fn get_state(&self) -> (r: &AppState)
        ensures
            *r == self.state(),
    {
        &self.state
    }

    /// The game, once one has begun.
    pub fn get_game_data(&self) -> (r: Result<&GameData, AppError>)
        ensures
            self.game() is Some ==> r is Ok && *r->Ok_0 == self.game()->Some_0,
            self.game() is None ==> r is Err && r->Err_0 is NoGameData,
    {
        match &self.game_data {
            Some(g) => Ok(g),
            None => Err(AppError::NoGameData),
        }
    }

    /// Handles one action on whatever screen is shown.
    pub fn do_action(&mut self, action: Actions) -> (r: Result<AppReturn, AppError>)
        requires
            old(self).wf(),
        ensures
            final(self).wf(),
            old(self).state() is StartMenu ==> final(self).game() == old(self).game() && final(self).state() == start_menu_step(old(self).state()->StartMenu_0, action).0 && answered(
                r,
                start_menu_step(old(self).state()->StartMenu_0, action).1,
            ),
            old(self).state() is SelectNumPlayers ==> num_players_step_holds(
                old(self).state(), old(self).game(), final(self).state(), final(self).game(),
                action,
                r,
            ),
            old(self).state() is Play ==> play_step(old(self).state(), old(self).game(), final(self).state(), final(self).game(), action, r),
            old(self).state() is Result ==> result_step(old(self).state(), old(self).game(), final(self).state(), final(self).game(), action, r),
    {
        match self.state {
            AppState::StartMenu(..) => self.do_action_in_start_menu(action),
            AppState::SelectNumPlayers(..) => self.do_action_in_select_num_players(action),
            AppState::Play(..) => self.do_action_in_play(action),
            AppState::Result => self.do_action_in_result(action),
        }
    }

    /// The start menu: up and down switch entries, select opens the players screen or exits.
    fn do_action_in_start_menu(&mut self, action: Actions) -> (r: Result<AppReturn, AppError>)
        requires
            old(self).wf(),
            old(self).state() is StartMenu,
        ensures
            final(self).wf(),
            final(self).game() == old(self).game(),
            final(self).state() == start_menu_step(old(self).state()->StartMenu_0, action).0,
            answered(r, start_menu_step(old(self).state()->StartMenu_0, action).1),
    {
        let sel = match self.state {
            AppState::StartMenu(sel) => sel,
            _ => {
                return Err(AppError::State(AppStateError::UnexpectedState));
            },
        };
        match action {
            Actions::Exit => Ok(AppReturn::Exit),
            Actions::Select => match sel {
                StartMenuSelection::Play => {
                    self.state = AppState::initialized_select_num_players_state();
                    Ok(AppReturn::Continue)
                },
                StartMenuSelection::Exit => Ok(AppReturn::Exit),
            },
            Actions::Up | Actions::Down => {
                self.state = AppState::StartMenu(
                    match sel {
                        StartMenuSelection::Play => StartMenuSelection::Exit,
                        StartMenuSelection::Exit => StartMenuSelection::Play,
                    },
                );
                Ok(AppReturn::Continue)
            },
            _ => Ok(AppReturn::Continue),
        }
    }

    /// The players screen: up and down move between one to four players and `Back`; select
    /// starts a game for that many players or goes back to the start menu.
    fn do_action_in_select_num_players(&mut self, action: Actions) -> (r: Result<
        AppReturn,
        AppError,
    >)
        requires
            old(self).wf(),
            old(self).state() is SelectNumPlayers,
        ensures
            final(self).wf(),
            num_players_step_holds(old(self).state(), old(self).game(), final(self).state(), final(self).game(), action, r),
    {
        let sel = match self.state {
            AppState::SelectNumPlayers(sel) => sel,
            _ => {
                return Err(AppError::State(AppStateError::UnexpectedState));
            },
        };
        match action {
            Actions::Exit => Ok(AppReturn::Exit),
            Actions::Select => {
                match sel {
                    NumPlayersSelection::NumPlayers(num_players) => {
                        self.state = AppState::initialized_play_state();
                        self.game_data = Some(GameData::new(num_players));
                    },
                    NumPlayersSelection::Back => {
                        self.state = AppState::initialized_start_menu_state();
                    },
                }
                Ok(AppReturn::Continue)
            },
            Actions::Up => {
                let next = match sel {
                    NumPlayersSelection::NumPlayers(num_players) => {
                        if num_players == LOWEST_PLAYER_ID {
                            NumPlayersSelection::Back
                        } else {
                            NumPlayersSelection::NumPlayers(num_players - 1)
                        }
                    },
                    NumPlayersSelection::Back => NumPlayersSelection::NumPlayers(HIGHEST_PLAYER_ID),
                };
                self.state = AppState::SelectNumPlayers(next);
                Ok(AppReturn::Continue)
            },
            Actions::Down => {
                let next = match sel {
                    NumPlayersSelection::NumPlayers(num_players) => {
                        if num_players < HIGHEST_PLAYER_ID {
                            NumPlayersSelection::NumPlayers(num_players + 1)
                        } else {
                            NumPlayersSelection::Back
                        }
                    },
                    NumPlayersSelection::Back => NumPlayersSelection::NumPlayers(LOWEST_PLAYER_ID),
                };
                self.state = AppState::SelectNumPlayers(next);
                Ok(AppReturn::Continue)
            },
            _ => Ok(AppReturn::Continue),
        }
    }

    /// The result screen: exit or select ends the program.
    fn do_action_in_result(&mut self, action: Actions) -> (r: Result<AppReturn, AppError>)
        requires
            old(self).wf(),
        ensures
            result_step(old(self).state(), old(self).game(), final(self).state(), final(self).game(), action, r),
    {
        match action {
            Actions::Exit => Ok(AppReturn::Exit),
            Actions::Select => Ok(AppReturn::Exit),
            _ => Ok(AppReturn::Continue),
        }
    }

    /// The game screen: between turns any action but exit starts the next turn; during a turn
    /// the action is handled as its phase says.
    fn do_action_in_play(&mut self, action: Actions) -> (r: Result<AppReturn, AppError>)
        requires
            old(self).wf(),
            old(self).state() is Play,
        ensures
            final(self).wf(),
            play_step(old(self).state(), old(self).game(), final(self).state(), final(self).game(), action, r),
    {
        let phase = match self.state.get_play_data() {
            Ok(play) => Some(*play.get_phase()),
            Err(_) => None,
        };
        match phase {
            Some(PlayPhase::Init) => self.do_action_in_init(action),
            Some(PlayPhase::Roll(..)) => self.do_action_in_roll(action),
            Some(PlayPhase::SelectOrReroll(..)) => self.do_action_in_select_or_reroll(action),
            Some(PlayPhase::Select) => self.do_action_in_select(action),
            None => self.do_action_in_no_play_data(action),
        }
    }

    /// Between turns: any action but exit starts the turn of the player whose turn it is, with
    /// the cursor on the roll button.
    fn do_action_in_no_play_data(&mut self, action: Actions) -> (r: Result<AppReturn, AppError>)
        requires
            old(self).wf(),
            old(self).state() is Play,
            !has_turn(old(self).state()),
        ensures
            final(self).wf(),
            no_turn_step(old(self).state(), old(self).game(), final(self).state(), final(self).game(), action, r),
    {
        match action {
            Actions::Exit => Ok(AppReturn::Exit),
            _ => {
                let pid = match &self.game_data {
                    Some(g) => g.current_player_id(),
                    None => {
                        return Err(AppError::NoGameData);
                    },
                };
                let started = self.state.initialize_play_data(pid);
                let moved = self.state.set_play_cursor_pos(PlayCursorPos::Roll);
                assert(started is Ok && moved is Ok);
                Ok(AppReturn::Continue)
            },
        }
    }

    /// Advances the live turn by one step.
    fn progress_turn(&mut self) -> (r: Result<(), PlayPhaseError>)
        requires
            old(self).wf(),
            has_turn(old(self).state()),
        ensures
            final(self).wf(),
            final(self).game() == old(self).game(),
            has_turn(final(self).state()),
            cursor_of(final(self).state()) == cursor_of(old(self).state()),
            turn_of(final(self).state()).player() == turn_of(old(self).state()).player(),
            ({
                let t = turn_of(old(self).state());
                let next = next_phase(t.phase(), all_held(t.dice()@));
                &&& r is Ok <==> next is Ok
                &&& r is Ok ==> turn_of(final(self).state()).phase() == next->Ok_0
                &&& r is Err ==> turn_of(final(self).state()).phase() == t.phase()
                    && turn_of(final(self).state()).dice()@ == t.dice()@ && r->Err_0 == next->Err_0
                &&& r is Ok && t.phase() is Init ==> fresh(turn_of(final(self).state()).dice()@)
                &&& r is Ok && t.phase() is Roll ==> turn_of(final(self).state()).dice()@
                    == all_set_held(t.dice()@, true)
                &&& r is Ok && t.phase() is SelectOrReroll ==> rerolled(
                    t.dice()@,
                    turn_of(final(self).state()).dice()@,
                    true,
                )
            }),
    {
        let mut st = AppState::Result;
        core::mem::swap(&mut self.state, &mut st);
        match st {
            AppState::Play(Some(mut play), pos) => {
                let r = play.progress();
                self.state = AppState::Play(Some(play), pos);
                r
            },
            other => {
                self.state = other;
                Err(PlayPhaseError::UnexpectedPlayPhase)
            },
        }
    }

    /// Turns over the held flag of the die at `pos` of the live turn.
    fn toggle_turn_hold(&mut self, pos: usize) -> (r: Result<(), PlayPhaseError>)
        requires
            old(self).wf(),
            has_turn(old(self).state()),
            pos < HAND_SIZE,
        ensures
            final(self).wf(),
            final(self).game() == old(self).game(),
            has_turn(final(self).state()),
            cursor_of(final(self).state()) == cursor_of(old(self).state()),
            ({
                let t = turn_of(old(self).state());
                let u = turn_of(final(self).state());
                &&& u.player() == t.player()
                &&& u.phase() == t.phase()
                &&& r is Ok <==> t.phase() is SelectOrReroll
                &&& r is Ok ==> u.dice()@ == t.dice()@.update(
                    pos as int,
                    t.dice()@[pos as int].set_held(!t.dice()@[pos as int].held()),
                )
                &&& r is Err ==> u.dice()@ == t.dice()@
            }),
    {
        let mut st = AppState::Result;
        core::mem::swap(&mut self.state, &mut st);
        match st {
            AppState::Play(Some(mut play), pos_cursor) => {
                let held = play.get_is_held(pos);
                let r = play.set_is_held(pos, !held);
                self.state = AppState::Play(Some(play), pos_cursor);
                r
            },
            other => {
                self.state = other;
                Err(PlayPhaseError::UnexpectedPlayPhase)
            },
        }
    }

    /// Redraws the dice of the live turn that are not held, in the same roll.
    fn shake_turn_dice(&mut self) -> (r: Result<(), PlayPhaseError>)
        requires
            old(self).wf(),
            has_turn(old(self).state()),
            turn_of(old(self).state()).phase() is Roll,
        ensures
            final(self).wf(),
            final(self).game() == old(self).game(),
            has_turn(final(self).state()),
            cursor_of(final(self).state()) == cursor_of(old(self).state()),
            turn_of(final(self).state()).player() == turn_of(old(self).state()).player(),
            turn_of(final(self).state()).phase() == turn_of(old(self).state()).phase(),
            rerolled(turn_of(old(self).state()).dice()@, turn_of(final(self).state()).dice()@, r is Ok),
            r is Ok <==> !all_held(turn_of(old(self).state()).dice()@),
    {
        let mut st = AppState::Result;
        core::mem::swap(&mut self.state, &mut st);
        match st {
            AppState::Play(Some(mut play), pos) => {
                let r = play.reroll_dice();
                self.state = AppState::Play(Some(play), pos);
                r
            },
            other => {
                self.state = other;
                Err(PlayPhaseError::UnexpectedPlayPhase)
            },
        }
    }

    /// The first turn step: select makes the first roll.
    fn do_action_in_init(&mut self, action: Actions) -> (r: Result<AppReturn, AppError>)
        requires
            old(self).wf(),
            has_turn(old(self).state()),
            turn_of(old(self).state()).phase() == PlayPhase::Init,
        ensures
            final(self).wf(),
            init_step(old(self).state(), old(self).game(), final(self).state(), final(self).game(), action, r),
    {
        match action {
            Actions::Exit => Ok(AppReturn::Exit),
            Actions::Select => {
                match self.progress_turn() {
                    Ok(()) => Ok(AppReturn::Continue),
                    Err(e) => Err(AppError::Phase(e)),
                }
            },
            _ => Ok(AppReturn::Continue),
        }
    }

    /// Puts the cursor on the first unfilled category of the player of the live turn; with
    /// every category filled the cursor stays.
    fn move_cursor_pos_to_table(&mut self) -> (r: Result<(), AppError>)
        requires
            old(self).wf(),
            has_turn(old(self).state()),
        ensures
            final(self).wf(),
            final(self).game() == old(self).game(),
            r is Ok,
            has_turn(final(self).state()),
            turn_of(final(self).state()) == turn_of(old(self).state()),
            to_first_open(
                table_of(old(self).state(), old(self).game()),
                cursor_of(old(self).state()),
                cursor_of(final(self).state()),
            ),
    {
        let pid = match self.state.get_play_data() {
            Ok(play) => play.get_player_id(),
            Err(e) => {
                return Err(AppError::State(e));
            },
        };
        let game = match &self.game_data {
            Some(g) => g,
            None => {
                return Err(AppError::NoGameData);
            },
        };
        let table = game.get_score_table(pid);
        let ghost t = table@;
        let mut i: usize = 0;
        while i < NUM_BOXES
            invariant
                table.wf(),
                table@ == t,
                t == old(self).tables()[turn_of(old(self).state()).player() as int],
                self.state() == old(self).state(),
                self.game() == old(self).game(),
                old(self).wf(),
                has_turn(old(self).state()),
                i <= NUM_BOXES,
                forall|j: int| 0 <= j < i ==> #[trigger] t[j] is Some,
            decreases NUM_BOXES - i,
        {
            let b = Boxes::from_index(i);
            if !table.has_score_in(b) {
                let moved = self.state.set_play_cursor_pos(PlayCursorPos::Table(b));
                assert(moved is Ok);
                assert(first_open_at(t, i as int));
                return Ok(());
            }
            i = i + 1;
        }
        assert forall|k: int| !first_open_at(t, k) by {
            if first_open_at(t, k) {
                assert(t[k] is Some);
            }
        }
        Ok(())
    }

    /// Moves the cursor of the score table to the next unfilled category up (`down` false) or
    /// down, going round the ends; with every other category filled it stays.
    fn move_in_score_table(&mut self, down: bool) -> (r: Result<(), AppError>)
        requires
            old(self).wf(),
            has_turn(old(self).state()),
        ensures
            final(self).wf(),
            final(self).game() == old(self).game(),
            has_turn(final(self).state()),
            turn_of(final(self).state()) == turn_of(old(self).state()),
            !(cursor_of(old(self).state()) is Table) ==> (r is Err && r->Err_0 is Cursor) && final(self).state() == old(self).state(),
            cursor_of(old(self).state()) is Table ==> r is Ok && cursor_of(final(self).state()) is Table
                && next_open_at(
                old(self).tables()[turn_of(old(self).state()).player() as int],
                box_index(cursor_of(old(self).state())->Table_0),
                down,
                box_index(cursor_of(final(self).state())->Table_0),
            ),
    {
        let init_pos = match self.state.get_play_cursor_pos() {
            Ok(PlayCursorPos::Table(b)) => *b,
            Ok(_) => {
                return Err(AppError::Cursor(PlayCursorPosError::NotInTable));
            },
            Err(e) => {
                return Err(AppError::State(e));
            },
        };
        let pid = match self.state.get_play_data() {
            Ok(play) => play.get_player_id(),
            Err(e) => {
                return Err(AppError::State(e));
            },
        };
        let game = match &self.game_data {
            Some(g) => g,
            None => {
                return Err(AppError::NoGameData);
            },
        };
        let table = game.get_score_table(pid);
        let ghost t = table@;
        let ghost i0 = box_index(init_pos);
        let mut pos = init_pos;
        let mut k: usize = 1;
        loop
            invariant
                table.wf(),
                table@ == t,
                t == old(self).tables()[turn_of(old(self).state()).player() as int],
                i0 == box_index(cursor_of(old(self).state())->Table_0),
                cursor_of(old(self).state()) is Table,
                self.state() == old(self).state(),
                self.game() == old(self).game(),
                old(self).wf(),
                has_turn(old(self).state()),
                0 <= i0 < NUM_BOXES,
                1 <= k <= NUM_BOXES,
                box_index(pos) == walk(i0, down, (k - 1) as nat),
                forall|m: nat| 1 <= m < k ==> #[trigger] t[walk(i0, down, m)] is Some,
            decreases NUM_BOXES - k,
        {
            proof {
                lemma_walk_bounds(i0, down, (k - 1) as nat);
            }
            let next = if down {
                pos.next_cycle()
            } else {
                pos.previous_cycle()
            };
            assert(box_index(next) == walk(i0, down, k as nat));
            if k == NUM_BOXES || !table.has_score_in(next) {
                let moved = self.state.set_play_cursor_pos(PlayCursorPos::Table(next));
                assert(moved is Ok);
                assert(open_after(t, i0, down, k as nat));
                return Ok(());
            }
            pos = next;
            k = k + 1;
        }
    }

    /// Moves the cursor of the score table up to the previous unfilled category.
    fn up_action_in_score_table(&mut self) -> (r: Result<(), AppError>)
        requires
            old(self).wf(),
            has_turn(old(self).state()),
        ensures
            final(self).wf(),
            final(self).game() == old(self).game(),
            has_turn(final(self).state()),
            turn_of(final(self).state()) == turn_of(old(self).state()),
            !(cursor_of(old(self).state()) is Table) ==> r is Err && final(self).state() == old(self).state(),
            cursor_of(old(self).state()) is Table ==> r is Ok && cursor_of(final(self).state()) is Table
                && next_open_at(
                old(self).tables()[turn_of(old(self).state()).player() as int],
                box_index(cursor_of(old(self).state())->Table_0),
                false,
                box_index(cursor_of(final(self).state())->Table_0),
            ),
    {
        self.move_in_score_table(false)
    }

    /// Moves the cursor of the score table down to the next unfilled category.
    fn down_action_in_score_table(&mut self) -> (r: Result<(), AppError>)
        requires
            old(self).wf(),
            has_turn(old(self).state()),
        ensures
            final(self).wf(),
            final(self).game() == old(self).game(),
            has_turn(final(self).state()),
            turn_of(final(self).state()) == turn_of(old(self).state()),
            !(cursor_of(old(self).state()) is Table) ==> r is Err && final(self).state() == old(self).state(),
            cursor_of(old(self).state()) is Table ==> r is Ok && cursor_of(final(self).state()) is Table
                && next_open_at(
                old(self).tables()[turn_of(old(self).state()).player() as int],
                box_index(cursor_of(old(self).state())->Table_0),
                true,
                box_index(cursor_of(final(self).state())->Table_0),
            ),
    {
        self.move_in_score_table(true)
    }

    /// While the dice roll: select stops them, holds every die and moves the cursor to the
    /// hand, or to the score table after the third roll; other actions shake the dice that are
    /// not held once more.
    fn do_action_in_roll(&mut self, action: Actions) -> (r: Result<AppReturn, AppError>)
        requires
            old(self).wf(),
            has_turn(old(self).state()),
            turn_of(old(self).state()).phase() is Roll,
        ensures
            final(self).wf(),
            roll_step(old(self).state(), old(self).game(), final(self).state(), final(self).game(), action, r),
    {
        match action {
            Actions::Exit => Ok(AppReturn::Exit),
            Actions::Select => {
                let progressed = self.progress_turn();
                assert(progressed is Ok);
                let phase = match self.state.get_play_data() {
                    Ok(play) => *play.get_phase(),
                    Err(e) => {
                        return Err(AppError::State(e));
                    },
                };
                match phase {
                    PlayPhase::SelectOrReroll(..) => {
                        let moved = self.state.set_play_cursor_pos(PlayCursorPos::Hand(0));
                        assert(moved is Ok);
                    },
                    _ => {
                        let _ = self.move_cursor_pos_to_table();
                    },
                }
                Ok(AppReturn::Continue)
            },
            _ => {
                match self.shake_turn_dice() {
                    Ok(()) => Ok(AppReturn::Continue),
                    Err(e) => Err(AppError::Phase(e)),
                }
            },
        }
    }

    /// Commits the live turn: scores its hand in the category under the cursor, fills that
    /// category of the player's table, ends the turn, and shows the result once the next
    /// player's table is full. A filled category, or a cursor off the table, is refused and
    /// changes nothing.
    fn confirm_score_action(&mut self) -> (r: Result<(), AppError>)
        requires
            old(self).wf(),
            old(self).state() is Play,
        ensures
            final(self).wf(),
            r is Ok <==> can_commit(old(self).state(), old(self).game()),
            r is Err ==> final(self).state() == old(self).state() && final(self).game() == old(self).game(),
            !(cursor_of(old(self).state()) is Table) ==> r is Err && r->Err_0 is Cursor,
            cursor_of(old(self).state()) is Table && !has_turn(old(self).state()) ==> r is Err
                && r->Err_0 == AppError::State(AppStateError::NoPlayData),
            cursor_of(old(self).state()) is Table && has_turn(old(self).state()) && table_of(
                old(self).state(),
                old(self).game(),
            )[box_index(cursor_of(old(self).state())->Table_0)] is Some ==> r is Err && r->Err_0
                == AppError::State(AppStateError::TryToConfirmFilledBox),
            cursor_of(old(self).state()) is Table && has_turn(old(self).state()) && table_of(
                old(self).state(),
                old(self).game(),
            )[box_index(cursor_of(old(self).state())->Table_0)] is None && turn_of(
                old(self).state(),
            ).phase() == PlayPhase::Init ==> r is Err && r->Err_0 == AppError::State(
                AppStateError::UnexpectedState,
            ),
            r is Ok ==> committed_state(old(self).state(), old(self).game(), final(self).state(), final(self).game()),
    {
        let b = match self.state.get_play_cursor_pos() {
            Ok(PlayCursorPos::Table(b)) => *b,
            Ok(_) => {
                return Err(AppError::Cursor(PlayCursorPosError::NotInTable));
            },
            Err(e) => {
                return Err(AppError::State(e));
            },
        };
        let pid = match self.state.get_play_data() {
            Ok(play) => play.get_player_id(),
            Err(e) => {
                return Err(AppError::State(e));
            },
        };
        let filled = match &self.game_data {
            Some(g) => g.get_score_table(pid).has_score_in(b),
            None => {
                return Err(AppError::NoGameData);
            },
        };
        if filled {
            return Err(AppError::State(AppStateError::TryToConfirmFilledBox));
        }
        let dice = match self.state.get_play_data() {
            Ok(play) => {
                if let PlayPhase::Init = play.get_phase() {
                    return Err(AppError::State(AppStateError::UnexpectedState));
                }
                match play.get_hand().get_pips() {
                    Ok(pips) => pips,
                    Err(e) => {
                        return Err(AppError::Hand(e));
                    },
                }
            },
            Err(e) => {
                return Err(AppError::State(e));
            },
        };
        let mut slot: Option<GameData> = None;
        core::mem::swap(&mut self.game_data, &mut slot);
        let mut game = match slot {
            Some(g) => g,
            None => {
                return Err(AppError::NoGameData);
            },
        };
        let score = scoring(b, dice.as_slice());
        let filled = game.confirm_score(pid, b, score);
        assert(filled is Ok);
        let next_pid = game.next_player_id(pid);
        let next_full = game.get_score_table(next_pid).has_all_scores();
        self.game_data = Some(game);
        let cleaned = self.state.cleanup_play_data();
        assert(cleaned is Ok);
        if !next_full {
            let moved = self.state.set_play_cursor_pos(PlayCursorPos::Roll);
            assert(moved is Ok);
        } else {
            self.state = AppState::Result;
        }
        Ok(())
    }

    /// Between rolls: select rolls again (on the roll button), holds or releases a die (on the
    /// hand or below it) or commits (on the table); the arrows move the cursor between the roll
    /// button, the hand, the slots below it and the score table.
    fn do_action_in_select_or_reroll(&mut self, action: Actions) -> (r: Result<
        AppReturn,
        AppError,
    >)
        requires
            old(self).wf(),
            has_turn(old(self).state()),
            turn_of(old(self).state()).phase() is SelectOrReroll,
        ensures
            final(self).wf(),
            reroll_step(old(self).state(), old(self).game(), final(self).state(), final(self).game(), action, r),
    {
        let pos = match self.state.get_play_cursor_pos() {
            Ok(p) => *p,
            Err(e) => {
                return Err(AppError::State(e));
            },
        };
        match action {
            Actions::Exit => Ok(AppReturn::Exit),
            Actions::Select => {
                match pos {
                    PlayCursorPos::Roll => {
                        match self.progress_turn() {
                            Ok(()) => {},
                            Err(PlayPhaseError::NoDiceToRoll) => {},
                            Err(e) => {
                                return Err(AppError::Phase(e));
                            },
                        }
                    },
                    PlayCursorPos::Hand(p) | PlayCursorPos::Dust(p) => {
                        if let Err(e) = self.toggle_turn_hold(p) {
                            return Err(AppError::Phase(e));
                        }
                    },
                    PlayCursorPos::Table(..) => {
                        if let Err(e) = self.confirm_score_action() {
                            return Err(e);
                        }
                    },
                    PlayCursorPos::Disappear => {},
                }
                Ok(AppReturn::Continue)
            },
            Actions::Left => {
                let moved = match pos {
                    PlayCursorPos::Hand(p) => if p > 0 {
                        self.state.set_play_cursor_pos(PlayCursorPos::Hand(p - 1))
                    } else {
                        Ok(())
                    },
                    PlayCursorPos::Dust(p) => if p > 0 {
                        self.state.set_play_cursor_pos(PlayCursorPos::Dust(p - 1))
                    } else {
                        Ok(())
                    },
                    PlayCursorPos::Table(..) => self.state.set_play_cursor_pos(
                        PlayCursorPos::Hand(HAND_SIZE - 1),
                    ),
                    _ => Ok(()),
                };
                assert(moved is Ok);
                Ok(AppReturn::Continue)
            },
            Actions::Right => {
                match pos {
                    PlayCursorPos::Roll => {
                        let _ = self.move_cursor_pos_to_table();
                    },
                    PlayCursorPos::Hand(p) => {
                        if p + 1 < HAND_SIZE {
                            let moved = self.state.set_play_cursor_pos(PlayCursorPos::Hand(p + 1));
                            assert(moved is Ok);
                        } else {
                            let _ = self.move_cursor_pos_to_table();
                        }
                    },
                    PlayCursorPos::Dust(p) => {
                        if p + 1 < HAND_SIZE {
                            let moved = self.state.set_play_cursor_pos(PlayCursorPos::Dust(p + 1));
                            assert(moved is Ok);
                        } else {
                            let _ = self.move_cursor_pos_to_table();
                        }
                    },
                    _ => {},
                }
                Ok(AppReturn::Continue)
            },
            Actions::Up => {
                match pos {
                    PlayCursorPos::Hand(..) => {
                        let all = match self.state.get_play_data() {
                            Ok(play) => play.get_is_held_all(),
                            Err(e) => {
                                return Err(AppError::State(e));
                            },
                        };
                        if !all {
                            let moved = self.state.set_play_cursor_pos(PlayCursorPos::Roll);
                            assert(moved is Ok);
                        }
                    },
                    PlayCursorPos::Dust(p) => {
                        let moved = self.state.set_play_cursor_pos(PlayCursorPos::Hand(p));
                        assert(moved is Ok);
                    },
                    PlayCursorPos::Table(..) => {
                        let _ = self.up_action_in_score_table();
                    },
                    _ => {},
                }
                Ok(AppReturn::Continue)
            },
            Actions::Down => {
                match pos {
                    PlayCursorPos::Roll => {
                        let moved = self.state.set_play_cursor_pos(PlayCursorPos::Hand(0));
                        assert(moved is Ok);
                    },
                    PlayCursorPos::Hand(p) => {
                        let moved = self.state.set_play_cursor_pos(PlayCursorPos::Dust(p));
                        assert(moved is Ok);
                    },
                    PlayCursorPos::Table(..) => {
                        let _ = self.down_action_in_score_table();
                    },
                    _ => {},
                }
                Ok(AppReturn::Continue)
            },
            _ => Ok(AppReturn::Continue),
        }
    }

    /// After the third roll: select commits, up and down move in the score table.
    fn do_action_in_select(&mut self, action: Actions) -> (r: Result<AppReturn, AppError>)
        requires
            old(self).wf(),
            has_turn(old(self).state()),
            turn_of(old(self).state()).phase() == PlayPhase::Select,
        ensures
            final(self).wf(),
            select_step(old(self).state(), old(self).game(), final(self).state(), final(self).game(), action, r),
    {
        match action {
            Actions::Exit => Ok(AppReturn::Exit),
            Actions::Select => {
                match self.confirm_score_action() {
                    Ok(()) => Ok(AppReturn::Continue),
                    Err(e) => Err(e),
                }
            },
            Actions::Up => {
                match self.up_action_in_score_table() {
                    Ok(()) => Ok(AppReturn::Continue),
                    Err(e) => Err(e),
                }
            },
            Actions::Down => {
                match self.down_action_in_score_table() {
                    Ok(()) => Ok(AppReturn::Continue),
                    Err(e) => Err(e),
                }
            },
            _ => Ok(AppReturn::Continue),
        }
    }
}

} // verus!
