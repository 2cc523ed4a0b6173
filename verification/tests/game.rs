use tetris::game::{Game_Phase, Game_State, Input_State, HEIGHT, WIDTH};
use tetris::tetromino::tetromino;

const W: i32 = WIDTH as i32;
const H: i32 = HEIGHT as i32;

fn quiet() -> Input_State {
    Input_State::new()
}

fn press_left() -> Input_State {
    let mut input = Input_State::new();
    input.left = 1;
    input.dleft = 1;
    input
}

fn press_right() -> Input_State {
    let mut input = Input_State::new();
    input.right = 1;
    input.dright = 1;
    input
}

fn press_up() -> Input_State {
    let mut input = Input_State::new();
    input.up = 1;
    input.dup = 1;
    input
}

fn press_down() -> Input_State {
    let mut input = Input_State::new();
    input.down = 1;
    input.ddown = 1;
    input
}

fn press_action() -> Input_State {
    let mut input = Input_State::new();
    input.a = 1;
    input.da = 1;
    input
}

fn tick(game: &mut Game_State, input: &Input_State) {
    assert!(game.can_update(input));
    game.update(input);
}

fn started(current: u8, next: u8) -> Game_State {
    let mut game = Game_State::with_shapes(current, next);
    tick(&mut game, &press_action());
    game
}

fn row_of(game: &Game_State, row: i32) -> Vec<u8> {
    (0..W).map(|col| game.matrix_get(W, row, col)).collect()
}

fn set_row(game: &mut Game_State, row: i32, cells: &[u8]) {
    for col in 0..W {
        game.matrix_set(W, row, col, cells[col as usize]);
    }
}

fn partial_row(row: i32) -> Vec<u8> {
    (0..W).map(|col| if col == W - 1 { 0 } else { ((row + col) % 7 + 1) as u8 }).collect()
}

fn board_is_empty(game: &Game_State) -> bool {
    (0..H).all(|row| row_of(game, row) == vec![0; WIDTH])
}

fn occupied_cells(game: &Game_State) -> usize {
    (0..H).map(|row| row_of(game, row).iter().filter(|&&code| code != 0).count()).sum()
}

#[test]
fn a_new_game_waits_to_start() {
    let game = Game_State::new();
    assert!(game.phase() == Game_Phase::GAME_PHASE_START);
    assert_eq!(game.start_level(), 1);
    assert_eq!(game.level(), 1);
    assert_eq!(game.points(), 0);
    assert_eq!(game.line_count(), 0);
    assert_eq!(game.pending_line_count(), 0);
    assert_eq!(game.time(), 0);
    assert_eq!(game.next_drop_time(), 0);
    assert_eq!(game.highlight_end_time(), 0);
    assert_eq!(game.lines().len(), HEIGHT);
    assert!(game.lines().iter().all(|&mark| mark == 0));
    assert!(board_is_empty(&game));
    assert_eq!(game.piece().get_tetr_index(), 0);
    assert_eq!(game.piece_next().get_tetr_index(), 1);
    assert_eq!(game.piece().get_offset_col(), 5);
    assert_eq!(game.piece_next().get_offset_col(), 5);
}

#[test]
fn the_default_phase_is_the_start() {
    assert!(Game_Phase::default() == Game_Phase::GAME_PHASE_START);
}

#[test]
fn a_new_game_draws_shapes_of_the_catalogue() {
    for _ in 0..200 {
        let mut game = Game_State::new();
        tick(&mut game, &press_action());
        assert!(game.piece().get_tetr_index() < 7);
        assert!(game.piece_next().get_tetr_index() < 7);
    }
}

#[test]
fn set_time_sets_the_clock_only() {
    let mut game = Game_State::with_shapes(4, 2);
    game.set_time(123_456);
    assert_eq!(game.time(), 123_456);
    assert!(game.phase() == Game_Phase::GAME_PHASE_START);
    assert_eq!(game.next_drop_time(), 0);
    assert_eq!(game.level(), 1);
    assert!(board_is_empty(&game));
    game.set_time(5);
    assert_eq!(game.time(), 5);
}

#[test]
fn up_and_down_choose_the_starting_level() {
    let mut game = Game_State::with_shapes(0, 1);
    tick(&mut game, &press_up());
    assert_eq!(game.start_level(), 2);
    tick(&mut game, &press_up());
    assert_eq!(game.start_level(), 3);
    tick(&mut game, &press_down());
    assert_eq!(game.start_level(), 2);
    tick(&mut game, &quiet());
    assert_eq!(game.start_level(), 2);
    assert!(game.phase() == Game_Phase::GAME_PHASE_START);
    assert_eq!(game.level(), 1);
}

#[test]
fn the_starting_level_stops_at_zero() {
    let mut game = Game_State::with_shapes(0, 1);
    tick(&mut game, &press_down());
    assert_eq!(game.start_level(), 0);
    tick(&mut game, &press_down());
    assert_eq!(game.start_level(), 0);
    tick(&mut game, &press_up());
    assert_eq!(game.start_level(), 1);
}

#[test]
fn up_and_down_together_leave_the_level() {
    let mut game = Game_State::with_shapes(0, 1);
    let mut both = press_up();
    both.down = 1;
    both.ddown = 1;
    tick(&mut game, &both);
    assert_eq!(game.start_level(), 1);
    tick(&mut game, &press_down());
    assert_eq!(game.start_level(), 0);
    tick(&mut game, &both);
    assert_eq!(game.start_level(), 0);
}

#[test]
fn a_held_key_does_nothing() {
    let mut game = Game_State::with_shapes(0, 1);
    let mut held = Input_State::new();
    held.up = 1;
    held.a = 1;
    held.down = 1;
    tick(&mut game, &held);
    assert_eq!(game.start_level(), 1);
    assert!(game.phase() == Game_Phase::GAME_PHASE_START);
    let mut released = Input_State::new();
    released.dup = -1;
    released.da = -1;
    released.ddown = -1;
    tick(&mut game, &released);
    assert_eq!(game.start_level(), 1);
    assert!(game.phase() == Game_Phase::GAME_PHASE_START);
}

#[test]
fn the_action_key_starts_a_game() {
    let mut game = Game_State::with_shapes(0, 3);
    tick(&mut game, &press_up());
    tick(&mut game, &press_up());
    game.set_time(600);
    tick(&mut game, &press_action());
    assert!(game.phase() == Game_Phase::GAME_PHASE_PLAY);
    assert_eq!(game.level(), 3);
    assert_eq!(game.start_level(), 3);
    assert_eq!(game.points(), 0);
    assert_eq!(game.line_count(), 0);
    assert!(board_is_empty(&game));
    assert_eq!(game.piece().get_tetr_index(), 0);
    assert_eq!(game.piece().get_offset_row(), 0);
    assert_eq!(game.piece().get_offset_col(), 3);
    assert_eq!(game.piece().get_rotation(), 0);
    assert_eq!(game.piece_next().get_tetr_index(), 3);
    assert_eq!(game.piece_next().get_offset_col(), 5);
    assert_eq!(game.next_drop_time(), 600 + 33 * 50);
}

#[test]
fn each_shape_spawns_centred_for_its_side() {
    for shape in 0..7u8 {
        let game = started(shape, 0);
        let side = tetromino(shape).side;
        assert_eq!(game.piece().get_tetr_index(), shape);
        assert_eq!(game.piece().get_offset_col(), W / 2 - side / 2);
        assert_eq!(game.piece().get_offset_row(), 0);
    }
    assert_eq!(started(0, 0).piece().get_offset_col(), 3);
    assert_eq!(started(1, 0).piece().get_offset_col(), 4);
    assert_eq!(started(2, 0).piece().get_offset_col(), 4);
}

#[test]
fn twenty_drop_steps_bring_the_bar_to_the_floor() {
    let mut game = Game_State::with_shapes(0, 3);
    assert!(game.phase() == Game_Phase::GAME_PHASE_START);
    tick(&mut game, &press_action());
    assert!(game.phase() == Game_Phase::GAME_PHASE_PLAY);
    assert_eq!(game.level(), 1);
    assert!(board_is_empty(&game));
    assert_eq!(game.piece().get_tetr_index(), 0);
    assert_eq!(game.piece().get_offset_col(), 3);
    for step in 1..=20 {
        tick(&mut game, &press_down());
        assert_eq!(game.piece().get_offset_row(), step);
        assert!(board_is_empty(&game));
        assert!(game.phase() == Game_Phase::GAME_PHASE_PLAY);
    }
    tick(&mut game, &press_down());
    assert_eq!(row_of(&game, 21), vec![0, 0, 0, 1, 1, 1, 1, 0, 0, 0]);
    assert_eq!(occupied_cells(&game), 4);
    assert!(game.phase() == Game_Phase::GAME_PHASE_PLAY);
    assert_eq!(game.pending_line_count(), 0);
    assert_eq!(game.piece().get_tetr_index(), 3);
    assert_eq!(game.piece().get_offset_row(), 0);
    assert_eq!(game.piece().get_offset_col(), 4);
    assert_eq!(game.piece().get_rotation(), 0);
    assert!(game.piece_next().get_tetr_index() < 7);
    assert_eq!(game.piece_next().get_offset_col(), 5);
    assert_eq!(game.points(), 0);
    assert_eq!(game.line_count(), 0);
}

#[test]
fn gravity_brings_the_bar_to_the_floor_too() {
    let mut game = started(0, 3);
    let wait = game.get_time_to_next_drop();
    assert_eq!(wait, 43 * 50);
    let mut now = 0;
    for step in 1..=20 {
        now += wait;
        game.set_time(now - 1);
        tick(&mut game, &quiet());
        assert_eq!(game.piece().get_offset_row(), step - 1);
        game.set_time(now);
        tick(&mut game, &quiet());
        assert_eq!(game.piece().get_offset_row(), step);
        assert_eq!(game.next_drop_time(), now + wait);
    }
    now += wait;
    game.set_time(now);
    tick(&mut game, &quiet());
    assert_eq!(row_of(&game, 21), vec![0, 0, 0, 1, 1, 1, 1, 0, 0, 0]);
    assert_eq!(game.piece().get_tetr_index(), 3);
    assert_eq!(game.piece().get_offset_row(), 0);
    assert_eq!(game.next_drop_time(), now + wait);
}

#[test]
fn gravity_takes_one_step_however_late_the_tick() {
    let mut game = started(0, 3);
    game.set_time(1_000_000);
    tick(&mut game, &quiet());
    assert_eq!(game.piece().get_offset_row(), 1);
    assert_eq!(game.next_drop_time(), 1_000_000 + 43 * 50);
    tick(&mut game, &quiet());
    assert_eq!(game.piece().get_offset_row(), 1);
}

#[test]
fn a_soft_drop_lets_gravity_wait_anew() {
    let mut game = started(0, 3);
    game.set_time(2150);
    tick(&mut game, &press_down());
    assert_eq!(game.piece().get_offset_row(), 1);
    assert_eq!(game.next_drop_time(), 4300);
}

#[test]
fn a_hard_drop_locks_the_piece_at_once() {
    let mut game = started(1, 0);
    assert_eq!(game.piece().get_offset_col(), 4);
    tick(&mut game, &press_action());
    assert_eq!(row_of(&game, 20), vec![0, 0, 0, 0, 2, 2, 0, 0, 0, 0]);
    assert_eq!(row_of(&game, 21), vec![0, 0, 0, 0, 2, 2, 0, 0, 0, 0]);
    assert_eq!(occupied_cells(&game), 4);
    assert_eq!(game.piece().get_tetr_index(), 0);
    assert_eq!(game.piece().get_offset_row(), 0);
    assert_eq!(game.piece().get_offset_col(), 3);
    assert!(game.phase() == Game_Phase::GAME_PHASE_PLAY);
    let second = game.piece_next().get_tetr_index();
    tick(&mut game, &press_action());
    assert_eq!(row_of(&game, 19), vec![0, 0, 0, 1, 1, 1, 1, 0, 0, 0]);
    assert_eq!(row_of(&game, 20), vec![0, 0, 0, 0, 2, 2, 0, 0, 0, 0]);
    assert_eq!(occupied_cells(&game), 8);
    assert_eq!(game.piece().get_tetr_index(), second);
}

#[test]
fn a_hard_drop_stops_on_what_lies_below() {
    let mut game = started(2, 0);
    game.matrix_set(W, 15, 5, 7);
    tick(&mut game, &press_action());
    assert_eq!(row_of(&game, 13), vec![0, 0, 0, 0, 0, 3, 0, 0, 0, 0]);
    assert_eq!(row_of(&game, 14), vec![0, 0, 0, 0, 3, 3, 3, 0, 0, 0]);
    assert_eq!(row_of(&game, 15), vec![0, 0, 0, 0, 0, 7, 0, 0, 0, 0]);
    assert_eq!(occupied_cells(&game), 5);
}

#[test]
fn the_landing_piece_shows_where_a_hard_drop_ends() {
    let mut game = started(0, 1);
    let landing = game.landing_piece();
    assert_eq!(landing.get_offset_row(), 20);
    assert_eq!(landing.get_offset_col(), 3);
    assert_eq!(landing.get_tetr_index(), 0);
    assert_eq!(game.piece().get_offset_row(), 0);
    game.matrix_set(W, 10, 4, 1);
    assert_eq!(game.landing_piece().get_offset_row(), 8);
    tick(&mut game, &press_down());
    assert_eq!(game.landing_piece().get_offset_row(), 8);
    game.matrix_set(W, 2, 4, 1);
    assert_eq!(game.piece().get_offset_row(), 1);
    assert_eq!(game.landing_piece().get_offset_row(), 0);
}

#[test]
fn left_and_right_move_the_piece_until_the_wall() {
    let mut game = started(1, 0);
    assert_eq!(game.piece().get_offset_col(), 4);
    for col in (0..4).rev() {
        tick(&mut game, &press_left());
        assert_eq!(game.piece().get_offset_col(), col);
    }
    tick(&mut game, &press_left());
    assert_eq!(game.piece().get_offset_col(), 0);
    for col in 1..=8 {
        tick(&mut game, &press_right());
        assert_eq!(game.piece().get_offset_col(), col);
    }
    tick(&mut game, &press_right());
    assert_eq!(game.piece().get_offset_col(), 8);
    assert_eq!(game.piece().get_offset_row(), 0);
}

#[test]
fn the_bar_may_hang_over_the_wall_with_its_empty_cells() {
    let mut game = started(0, 1);
    tick(&mut game, &press_up());
    assert_eq!(game.piece().get_rotation(), 1);
    for _ in 0..12 {
        tick(&mut game, &press_left());
    }
    assert_eq!(game.piece().get_offset_col(), -2);
    for _ in 0..12 {
        tick(&mut game, &press_right());
    }
    assert_eq!(game.piece().get_offset_col(), 7);
}

#[test]
fn a_piece_does_not_move_into_an_occupied_cell() {
    let mut game = started(1, 0);
    game.matrix_set(W, 1, 3, 5);
    tick(&mut game, &press_left());
    assert_eq!(game.piece().get_offset_col(), 4);
    game.matrix_set(W, 0, 6, 5);
    tick(&mut game, &press_right());
    assert_eq!(game.piece().get_offset_col(), 4);
}

#[test]
fn left_and_right_together_cancel() {
    let mut game = started(1, 0);
    let mut both = press_left();
    both.right = 1;
    both.dright = 1;
    tick(&mut game, &both);
    assert_eq!(game.piece().get_offset_col(), 4);
    for _ in 0..4 {
        tick(&mut game, &press_left());
    }
    assert_eq!(game.piece().get_offset_col(), 0);
    tick(&mut game, &both);
    assert_eq!(game.piece().get_offset_col(), 1);
}

#[test]
fn up_turns_the_piece_a_quarter_turn() {
    let mut game = started(2, 0);
    for turn in 1..=8 {
        tick(&mut game, &press_up());
        assert_eq!(game.piece().get_rotation(), turn % 4);
    }
    assert_eq!(game.piece().get_offset_col(), 4);
    assert_eq!(game.piece().get_offset_row(), 0);
}

#[test]
fn a_turn_that_does_not_fit_is_undone() {
    let mut game = started(0, 1);
    game.matrix_set(W, 2, 5, 4);
    tick(&mut game, &press_up());
    assert_eq!(game.piece().get_rotation(), 0);
    game.matrix_set(W, 2, 5, 0);
    tick(&mut game, &press_up());
    assert_eq!(game.piece().get_rotation(), 1);
}

#[test]
fn no_kick_is_tried_at_the_wall() {
    let mut game = started(0, 1);
    tick(&mut game, &press_up());
    for _ in 0..12 {
        tick(&mut game, &press_left());
    }
    assert_eq!(game.piece().get_offset_col(), -2);
    tick(&mut game, &press_up());
    assert_eq!(game.piece().get_rotation(), 1);
    assert_eq!(game.piece().get_offset_col(), -2);
}

#[test]
fn a_piece_that_is_not_valid_does_not_turn() {
    let mut game = started(2, 0);
    game.matrix_set(W, 1, 5, 6);
    tick(&mut game, &press_up());
    assert_eq!(game.piece().get_rotation(), 0);
}

#[test]
fn the_keys_are_heard_in_order() {
    let mut game = started(0, 1);
    let mut all = press_left();
    all.up = 1;
    all.dup = 1;
    all.down = 1;
    all.ddown = 1;
    tick(&mut game, &all);
    assert_eq!(game.piece().get_offset_col(), 2);
    assert_eq!(game.piece().get_rotation(), 1);
    assert_eq!(game.piece().get_offset_row(), 1);
}

#[test]
fn a_soft_and_a_hard_drop_in_one_tick_can_lock_two_pieces() {
    let mut game = started(1, 1);
    for _ in 0..20 {
        tick(&mut game, &press_down());
    }
    assert_eq!(game.piece().get_offset_row(), 20);
    let mut both = press_down();
    both.a = 1;
    both.da = 1;
    tick(&mut game, &both);
    assert_eq!(row_of(&game, 21), vec![0, 0, 0, 0, 2, 2, 0, 0, 0, 0]);
    assert_eq!(row_of(&game, 20), vec![0, 0, 0, 0, 2, 2, 0, 0, 0, 0]);
    assert_eq!(row_of(&game, 19), vec![0, 0, 0, 0, 2, 2, 0, 0, 0, 0]);
    assert_eq!(row_of(&game, 18), vec![0, 0, 0, 0, 2, 2, 0, 0, 0, 0]);
    assert_eq!(occupied_cells(&game), 8);
}

#[test]
fn a_locked_piece_shows_on_the_board_cell_by_cell() {
    for shape in 0..7u8 {
        let mut game = started(shape, 0);
        tick(&mut game, &press_up());
        tick(&mut game, &press_right());
        let before = game.landing_piece();
        let stored = tetromino(shape);
        tick(&mut game, &press_action());
        let mut cells = 0;
        for row in 0..stored.side {
            for col in 0..stored.side {
                let code = stored.tetromino_get(row, col, before.get_rotation());
                if code != 0 {
                    cells += 1;
                    assert_eq!(code, shape + 1);
                    assert_eq!(
                        game.matrix_get(
                            W,
                            before.get_offset_row() + row,
                            before.get_offset_col() + col
                        ),
                        code
                    );
                }
            }
        }
        assert_eq!(cells, 4);
        assert_eq!(occupied_cells(&game), 4);
        assert_eq!(game.piece().get_tetr_index(), 0);
        assert_eq!(game.piece().get_offset_col(), 3);
        assert_eq!(game.piece().get_offset_row(), 0);
        assert_eq!(game.piece().get_rotation(), 0);
    }
}

#[test]
fn soft_drop_says_whether_the_piece_still_falls() {
    let mut game = started(0, 5);
    for step in 1..=20 {
        assert!(game.soft_drop());
        assert_eq!(game.piece().get_offset_row(), step);
    }
    assert!(!game.soft_drop());
    assert_eq!(row_of(&game, 21), vec![0, 0, 0, 1, 1, 1, 1, 0, 0, 0]);
    assert_eq!(game.piece().get_tetr_index(), 5);
    assert_eq!(game.piece().get_offset_col(), 4);
    assert_eq!(game.piece().get_offset_row(), 0);
    assert!(game.soft_drop());
    assert_eq!(game.piece().get_offset_row(), 1);
}

#[test]
fn hard_drop_locks_and_spawns() {
    let mut game = started(6, 4);
    game.hard_drop();
    assert_eq!(row_of(&game, 20), vec![0, 0, 0, 0, 0, 0, 7, 0, 0, 0]);
    assert_eq!(row_of(&game, 21), vec![0, 0, 0, 0, 7, 7, 7, 0, 0, 0]);
    assert_eq!(game.piece().get_tetr_index(), 4);
    assert!(game.piece_next().get_tetr_index() < 7);
}

#[test]
fn the_preview_is_the_piece_after_the_next_lock() {
    let mut game = started(1, 2);
    assert_eq!(game.piece_next().get_tetr_index(), 2);
    for _ in 0..5 {
        let shown = game.piece_next().get_tetr_index();
        tick(&mut game, &press_action());
        if !(game.phase() == Game_Phase::GAME_PHASE_PLAY) {
            break;
        }
        assert_eq!(game.piece().get_tetr_index(), shown);
    }
}

#[test]
fn a_filled_row_is_shown_and_then_removed() {
    let mut game = started(1, 0);
    set_row(&mut game, 21, &[4, 4, 4, 4, 0, 0, 4, 4, 4, 4]);
    set_row(&mut game, 20, &[4, 0, 4, 4, 0, 0, 4, 4, 0, 4]);
    game.set_time(100);
    tick(&mut game, &press_action());
    assert!(game.phase() == Game_Phase::GAME_PHASE_LINE);
    assert_eq!(game.pending_line_count(), 1);
    assert_eq!(game.highlight_end_time(), 1600);
    for row in 0..HEIGHT {
        assert_eq!(game.lines()[row], if row == 21 { 1 } else { 0 });
    }
    assert_eq!(row_of(&game, 21), vec![4, 4, 4, 4, 2, 2, 4, 4, 4, 4]);
    assert_eq!(game.line_count(), 0);
    assert_eq!(game.points(), 0);
    game.set_time(1599);
    tick(&mut game, &press_action());
    assert!(game.phase() == Game_Phase::GAME_PHASE_LINE);
    assert_eq!(row_of(&game, 21), vec![4, 4, 4, 4, 2, 2, 4, 4, 4, 4]);
    assert_eq!(game.piece().get_offset_row(), 0);
    game.set_time(1600);
    tick(&mut game, &quiet());
    assert!(game.phase() == Game_Phase::GAME_PHASE_PLAY);
    assert_eq!(row_of(&game, 21), vec![4, 0, 4, 4, 2, 2, 4, 4, 0, 4]);
    assert_eq!(row_of(&game, 20), vec![0; WIDTH]);
    assert_eq!(game.line_count(), 1);
    assert_eq!(game.points(), 80);
    assert_eq!(game.level(), 1);
    assert_eq!(game.pending_line_count(), 1);
}

#[test]
fn rows_five_and_seven_go_and_the_rows_above_come_down() {
    let mut game = started(0, 1);
    for row in 1..H {
        set_row(&mut game, row, &partial_row(row));
    }
    set_row(&mut game, 5, &[3; WIDTH]);
    set_row(&mut game, 7, &[6; WIDTH]);
    tick(&mut game, &quiet());
    assert!(game.phase() == Game_Phase::GAME_PHASE_LINE);
    assert_eq!(game.pending_line_count(), 2);
    assert_eq!(game.lines()[5], 1);
    assert_eq!(game.lines()[7], 1);
    assert_eq!(game.lines().iter().filter(|&&mark| mark != 0).count(), 2);
    game.set_time(game.highlight_end_time());
    assert_eq!(game.time(), 1500);
    tick(&mut game, &quiet());
    assert!(game.phase() == Game_Phase::GAME_PHASE_PLAY);
    assert_eq!(game.line_count(), 2);
    assert_eq!(game.points(), 200);
    for row in 8..H {
        assert_eq!(row_of(&game, row), partial_row(row));
    }
    assert_eq!(row_of(&game, 7), partial_row(6));
    assert_eq!(row_of(&game, 6), partial_row(4));
    assert_eq!(row_of(&game, 5), partial_row(3));
    assert_eq!(row_of(&game, 4), partial_row(2));
    assert_eq!(row_of(&game, 3), partial_row(1));
    assert_eq!(row_of(&game, 2), vec![0; WIDTH]);
    assert_eq!(row_of(&game, 1), vec![0; WIDTH]);
    assert_eq!(row_of(&game, 0), vec![0; WIDTH]);
}

#[test]
fn four_rows_at_once_on_level_zero_score_1200() {
    let mut game = Game_State::with_shapes(0, 1);
    tick(&mut game, &press_down());
    tick(&mut game, &press_action());
    assert_eq!(game.level(), 0);
    for row in 18..H {
        set_row(&mut game, row, &[5; WIDTH]);
    }
    tick(&mut game, &quiet());
    assert_eq!(game.pending_line_count(), 4);
    game.set_time(1500);
    tick(&mut game, &quiet());
    assert_eq!(game.points(), 1200);
    assert_eq!(game.line_count(), 4);
    assert_eq!(game.level(), 0);
    assert!(board_is_empty(&game));
}

#[test]
fn the_level_rises_by_one_when_the_threshold_is_reached() {
    let mut game = Game_State::with_shapes(0, 1);
    tick(&mut game, &press_down());
    tick(&mut game, &press_action());
    assert_eq!(game.get_lines_for_next_level(0), 10);
    let mut now = 0;
    for round in 1..=3 {
        for row in 18..H {
            set_row(&mut game, row, &[5; WIDTH]);
        }
        tick(&mut game, &quiet());
        assert!(game.phase() == Game_Phase::GAME_PHASE_LINE);
        now += 1500;
        game.set_time(now);
        tick(&mut game, &quiet());
        assert_eq!(game.line_count(), 4 * round);
        assert_eq!(game.points(), 1200 * round);
        assert_eq!(game.level(), if round < 3 { 0 } else { 1 });
    }
    for row in 18..H {
        set_row(&mut game, row, &[5; WIDTH]);
    }
    tick(&mut game, &quiet());
    now += 1500;
    game.set_time(now);
    tick(&mut game, &quiet());
    assert_eq!(game.line_count(), 16);
    assert_eq!(game.points(), 3600 + 2400);
    assert_eq!(game.level(), 1);
    assert_eq!(game.start_level(), 0);
    assert_eq!(game.get_lines_for_next_level(1), 20);
}

#[test]
fn one_clear_raises_the_level_by_one_only() {
    let mut game = Game_State::with_shapes(0, 1);
    tick(&mut game, &press_down());
    tick(&mut game, &press_action());
    for row in 0..H {
        set_row(&mut game, row, &[5; WIDTH]);
    }
    assert_eq!(game.find_lines(W, H), 22);
    set_row(&mut game, 0, &[0; WIDTH]);
    tick(&mut game, &quiet());
    assert!(game.phase() == Game_Phase::GAME_PHASE_LINE);
    assert_eq!(game.pending_line_count(), 21);
    game.set_time(1500);
    tick(&mut game, &quiet());
    assert_eq!(game.line_count(), 21);
    assert_eq!(game.points(), 0);
    assert_eq!(game.level(), 1);
}

#[test]
fn a_cell_in_the_top_row_ends_the_game() {
    let mut game = started(0, 1);
    game.matrix_set(W, 0, 9, 2);
    tick(&mut game, &quiet());
    assert!(game.phase() == Game_Phase::GAME_PHASE_GAMEOVER);
    assert_eq!(game.pending_line_count(), 0);
}

#[test]
fn filled_rows_are_shown_whatever_the_top_row_holds() {
    let mut game = started(0, 1);
    game.matrix_set(W, 0, 0, 2);
    set_row(&mut game, 21, &[1; WIDTH]);
    game.set_time(40);
    tick(&mut game, &quiet());
    assert!(game.phase() == Game_Phase::GAME_PHASE_LINE);
    assert_eq!(game.pending_line_count(), 1);
    assert_eq!(game.highlight_end_time(), 1540);
    for row in 0..HEIGHT {
        assert_eq!(game.lines()[row], if row == 21 { 1 } else { 0 });
    }
    assert_eq!(row_of(&game, 21), vec![1; WIDTH]);
    assert_eq!(game.matrix_get(W, 0, 0), 2);
}

#[test]
fn the_top_row_ends_the_game_once_no_row_is_filled() {
    let mut game = started(0, 1);
    game.matrix_set(W, 0, 0, 2);
    set_row(&mut game, 21, &[1; WIDTH]);
    tick(&mut game, &quiet());
    assert!(game.phase() == Game_Phase::GAME_PHASE_LINE);
    game.set_time(1500);
    tick(&mut game, &quiet());
    assert!(game.phase() == Game_Phase::GAME_PHASE_PLAY);
    assert_eq!(game.line_count(), 1);
    assert_eq!(game.points(), 80);
    assert_eq!(row_of(&game, 0), vec![2, 0, 0, 0, 0, 0, 0, 0, 0, 0]);
    assert_eq!(row_of(&game, 1), vec![2, 0, 0, 0, 0, 0, 0, 0, 0, 0]);
    assert_eq!(row_of(&game, 21), vec![0; WIDTH]);
    tick(&mut game, &quiet());
    assert!(game.phase() == Game_Phase::GAME_PHASE_GAMEOVER);
    assert_eq!(game.pending_line_count(), 0);
    assert_eq!(game.highlight_end_time(), 1500);
    assert_eq!(game.line_count(), 1);
}

#[test]
fn a_filled_top_row_is_shown_and_stays() {
    let mut game = started(0, 1);
    set_row(&mut game, 0, &[3; WIDTH]);
    tick(&mut game, &quiet());
    assert!(game.phase() == Game_Phase::GAME_PHASE_LINE);
    assert_eq!(game.pending_line_count(), 1);
    assert_eq!(game.lines()[0], 1);
    game.set_time(1500);
    tick(&mut game, &quiet());
    assert!(game.phase() == Game_Phase::GAME_PHASE_PLAY);
    assert_eq!(game.line_count(), 1);
    assert_eq!(row_of(&game, 0), vec![3; WIDTH]);
}

#[test]
fn a_full_board_ends_the_game() {
    let mut game = started(1, 1);
    let mut ticks = 0;
    while game.phase() == Game_Phase::GAME_PHASE_PLAY {
        assert_eq!(row_of(&game, 0), vec![0; WIDTH]);
        tick(&mut game, &press_action());
        ticks += 1;
        assert!(occupied_cells(&game) <= 4 * ticks);
        assert!(ticks <= 200);
    }
    assert!(game.phase() == Game_Phase::GAME_PHASE_GAMEOVER);
    assert!(ticks >= 6);
    assert!(row_of(&game, 0).iter().any(|&code| code != 0));
    assert_eq!(game.line_count(), 0);
}

#[test]
fn after_the_game_the_action_key_leads_to_a_new_one() {
    let mut game = started(0, 1);
    tick(&mut game, &press_action());
    game.matrix_set(W, 0, 9, 2);
    tick(&mut game, &quiet());
    assert!(game.phase() == Game_Phase::GAME_PHASE_GAMEOVER);
    let cells = occupied_cells(&game);
    assert_eq!(cells, 5);
    tick(&mut game, &press_up());
    tick(&mut game, &press_left());
    tick(&mut game, &quiet());
    assert!(game.phase() == Game_Phase::GAME_PHASE_GAMEOVER);
    assert_eq!(game.start_level(), 1);
    tick(&mut game, &press_action());
    assert!(game.phase() == Game_Phase::GAME_PHASE_START);
    assert_eq!(occupied_cells(&game), cells);
    tick(&mut game, &press_up());
    assert_eq!(game.start_level(), 2);
    tick(&mut game, &press_action());
    assert!(game.phase() == Game_Phase::GAME_PHASE_PLAY);
    assert!(board_is_empty(&game));
    assert_eq!(game.level(), 2);
    assert_eq!(game.points(), 0);
    assert_eq!(game.line_count(), 0);
}

#[test]
fn the_score_stays_until_a_new_game_begins() {
    let mut game = started(0, 1);
    set_row(&mut game, 21, &[1; WIDTH]);
    tick(&mut game, &quiet());
    game.set_time(1500);
    tick(&mut game, &quiet());
    assert_eq!(game.points(), 80);
    game.matrix_set(W, 0, 0, 1);
    tick(&mut game, &quiet());
    assert!(game.phase() == Game_Phase::GAME_PHASE_GAMEOVER);
    tick(&mut game, &press_action());
    assert!(game.phase() == Game_Phase::GAME_PHASE_START);
    assert_eq!(game.points(), 80);
    assert_eq!(game.line_count(), 1);
    tick(&mut game, &press_action());
    assert_eq!(game.points(), 0);
    assert_eq!(game.line_count(), 0);
}

#[test]
fn every_cell_stays_a_code_from_zero_to_seven() {
    let mut game = Game_State::new();
    tick(&mut game, &press_action());
    let inputs = [press_left(), press_up(), press_action(), press_right(), press_down(), quiet()];
    let mut now = 0;
    for round in 0..400 {
        now += 700;
        game.set_time(now);
        tick(&mut game, &inputs[round % inputs.len()]);
        for row in 0..H {
            assert!(row_of(&game, row).iter().all(|&code| code <= 7));
        }
        assert!(game.piece().get_tetr_index() < 7);
        assert!((0..4).contains(&game.piece().get_rotation()));
        assert!(game.points() >= 0);
    }
}

#[test]
fn the_last_ticks_of_the_clock_are_refused_in_play() {
    let mut game = started(0, 1);
    game.set_time(u64::MAX - 2400);
    assert!(game.can_update(&quiet()));
    game.set_time(u64::MAX - 2399);
    assert!(!game.can_update(&quiet()));
    assert!(!game.can_update(&press_action()));
    let mut waiting = Game_State::with_shapes(0, 1);
    waiting.set_time(u64::MAX);
    assert!(waiting.can_update(&quiet()));
    assert!(waiting.can_update(&press_up()));
    assert!(!waiting.can_update(&press_action()));
}

#[test]
fn input_changes_compare_with_the_tick_before() {
    let first = Input_State::new();
    assert_eq!((first.left, first.right, first.up, first.down, first.a), (0, 0, 0, 0, 0));
    assert_eq!((first.dleft, first.dright, first.dup, first.ddown, first.da), (0, 0, 0, 0, 0));
    let second = first.advance(true, false, true, false, true);
    assert_eq!((second.left, second.right, second.up, second.down, second.a), (1, 0, 1, 0, 1));
    assert_eq!((second.dleft, second.dright, second.dup, second.ddown, second.da), (1, 0, 1, 0, 1));
    let third = second.advance(true, true, false, false, true);
    assert_eq!((third.left, third.right, third.up, third.down, third.a), (1, 1, 0, 0, 1));
    assert_eq!((third.dleft, third.dright, third.dup, third.ddown, third.da), (0, 1, -1, 0, 0));
    let fourth = third.advance(false, false, false, true, false);
    assert_eq!((fourth.dleft, fourth.dright, fourth.dup, fourth.ddown, fourth.da), (-1, -1, 0, 1, -1));
}

#[test]
fn a_key_held_over_ticks_acts_once() {
    let mut game = started(1, 0);
    let mut input = Input_State::new();
    for _ in 0..3 {
        input = input.advance(true, false, false, false, false);
        tick(&mut game, &input);
    }
    assert_eq!(game.piece().get_offset_col(), 3);
    input = input.advance(false, false, false, false, false);
    tick(&mut game, &input);
    input = input.advance(true, false, false, false, false);
    tick(&mut game, &input);
    assert_eq!(game.piece().get_offset_col(), 2);
}
