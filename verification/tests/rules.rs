use tetris::game::{
    fold_into_range, max, min, random_int, Game_Phase, Game_State, Input_State, FRAMES_PER_DROP,
    HIGHLIGHT_TICKS, TICKS_PER_FRAME, TICKS_PER_SECOND,
};
use tetris::rules::LONGEST_WAIT;

fn press_up() -> Input_State {
    let mut input = Input_State::new();
    input.up = 1;
    input.dup = 1;
    input
}

fn press_down() -> Input_State {
    let mut input = Input_State::new();
    input.down = 1;
    input.ddown = 1;
    input
}

fn press_action() -> Input_State {
    let mut input = Input_State::new();
    input.a = 1;
    input.da = 1;
    input
}

fn tick(game: &mut Game_State, input: &Input_State) {
    assert!(game.can_update(input));
    game.update(input);
}

/// A game in play that started on `start_level`.
fn game_on_level(start_level: i32) -> Game_State {
    let mut game = Game_State::with_shapes(0, 1);
    while game.start_level() < start_level {
        tick(&mut game, &press_up());
    }
    while game.start_level() > start_level {
        tick(&mut game, &press_down());
    }
    tick(&mut game, &press_action());
    assert!(game.phase() == Game_Phase::GAME_PHASE_PLAY);
    assert_eq!(game.level(), start_level);
    game
}

#[test]
fn min_and_max_pick_an_argument() {
    assert_eq!(min(3, 5), 3);
    assert_eq!(min(5, 3), 3);
    assert_eq!(min(-2, -2), -2);
    assert_eq!(min(i32::MIN, i32::MAX), i32::MIN);
    assert_eq!(max(3, 5), 5);
    assert_eq!(max(5, 3), 5);
    assert_eq!(max(-2, -2), -2);
    assert_eq!(max(i32::MIN, i32::MAX), i32::MAX);
}

#[test]
fn a_raw_byte_folds_into_the_range() {
    assert_eq!(fold_into_range(0, 7, 0), 0);
    assert_eq!(fold_into_range(0, 7, 6), 6);
    assert_eq!(fold_into_range(0, 7, 7), 0);
    assert_eq!(fold_into_range(0, 7, 255), 3);
    assert_eq!(fold_into_range(3, 5, 9), 4);
    assert_eq!(fold_into_range(10, 11, 200), 10);
    assert_eq!(fold_into_range(0, 255, 255), 0);
    assert_eq!(fold_into_range(0, 255, 254), 254);
}

#[test]
fn random_int_stays_in_its_range() {
    for _ in 0..2000 {
        assert!(random_int(0, 7) < 7);
        let value = random_int(3, 5);
        assert!(3 <= value && value < 5);
        assert_eq!(random_int(9, 10), 9);
    }
}

#[test]
fn random_int_reaches_every_shape() {
    let mut seen = [false; 7];
    for _ in 0..5000 {
        seen[random_int(0, 7) as usize] = true;
    }
    assert!(seen.iter().all(|&shape| shape));
}

#[test]
fn four_rows_on_level_zero_are_worth_1200() {
    let game = game_on_level(0);
    assert_eq!(game.compute_points(4), 1200);
}

#[test]
fn points_for_each_count_on_level_zero() {
    let game = game_on_level(0);
    assert_eq!(game.compute_points(0), 0);
    assert_eq!(game.compute_points(1), 40);
    assert_eq!(game.compute_points(2), 100);
    assert_eq!(game.compute_points(3), 300);
    assert_eq!(game.compute_points(4), 1200);
    assert_eq!(game.compute_points(5), 0);
    assert_eq!(game.compute_points(22), 0);
    assert_eq!(game.compute_points(-1), 0);
}

#[test]
fn points_grow_with_the_level() {
    let game = game_on_level(1);
    assert_eq!(game.compute_points(1), 80);
    assert_eq!(game.compute_points(2), 200);
    assert_eq!(game.compute_points(3), 600);
    assert_eq!(game.compute_points(4), 2400);
    let game = game_on_level(9);
    assert_eq!(game.compute_points(1), 400);
    assert_eq!(game.compute_points(4), 12000);
}

#[test]
fn thresholds_of_a_game_started_on_level_five() {
    let game = game_on_level(5);
    assert_eq!(game.get_lines_for_next_level(5), 60);
    assert_eq!(game.get_lines_for_next_level(6), 70);
    assert_eq!(game.get_lines_for_next_level(7), 80);
    assert_eq!(game.get_lines_for_next_level(15), 160);
}

#[test]
fn first_threshold_for_each_starting_level() {
    assert_eq!(game_on_level(0).get_lines_for_next_level(0), 10);
    assert_eq!(game_on_level(1).get_lines_for_next_level(1), 20);
    assert_eq!(game_on_level(8).get_lines_for_next_level(8), 90);
    assert_eq!(game_on_level(9).get_lines_for_next_level(9), 100);
    assert_eq!(game_on_level(10).get_lines_for_next_level(10), 100);
    assert_eq!(game_on_level(14).get_lines_for_next_level(14), 100);
    assert_eq!(game_on_level(15).get_lines_for_next_level(15), 100);
    assert_eq!(game_on_level(16).get_lines_for_next_level(16), 110);
    assert_eq!(game_on_level(20).get_lines_for_next_level(20), 150);
    assert_eq!(game_on_level(20).get_lines_for_next_level(22), 170);
}

#[test]
fn threshold_below_the_starting_level() {
    let game = game_on_level(5);
    assert_eq!(game.get_lines_for_next_level(4), 50);
    assert_eq!(game.get_lines_for_next_level(0), 10);
}

#[test]
fn a_frame_is_fifty_ticks_and_a_millisecond_three() {
    assert_eq!(TICKS_PER_SECOND, 3000);
    assert_eq!(TICKS_PER_FRAME * 60, TICKS_PER_SECOND);
    assert_eq!(TICKS_PER_SECOND / 1000, 3);
    assert_eq!(HIGHLIGHT_TICKS * 2, TICKS_PER_SECOND);
    assert_eq!(LONGEST_WAIT, 48 * TICKS_PER_FRAME);
}

#[test]
fn drop_interval_follows_the_table() {
    assert_eq!(game_on_level(0).get_time_to_next_drop(), 48 * 50);
    assert_eq!(game_on_level(1).get_time_to_next_drop(), 43 * 50);
    assert_eq!(game_on_level(8).get_time_to_next_drop(), 8 * 50);
    assert_eq!(game_on_level(9).get_time_to_next_drop(), 6 * 50);
    assert_eq!(game_on_level(18).get_time_to_next_drop(), 3 * 50);
    assert_eq!(game_on_level(28).get_time_to_next_drop(), 2 * 50);
    assert_eq!(game_on_level(29).get_time_to_next_drop(), 50);
    for level in 0..30 {
        assert_eq!(
            game_on_level(level).get_time_to_next_drop(),
            FRAMES_PER_DROP[level as usize] as u64 * TICKS_PER_FRAME
        );
    }
}

#[test]
fn levels_above_29_fall_as_fast_as_29() {
    assert_eq!(game_on_level(30).get_time_to_next_drop(), 50);
    assert_eq!(game_on_level(75).get_time_to_next_drop(), 50);
}

#[test]
fn the_table_never_speeds_down() {
    assert_eq!(FRAMES_PER_DROP.len(), 30);
    assert_eq!(FRAMES_PER_DROP[0], 48);
    assert_eq!(FRAMES_PER_DROP[29], 1);
    for level in 1..30 {
        assert!(FRAMES_PER_DROP[level] <= FRAMES_PER_DROP[level - 1]);
    }
}
