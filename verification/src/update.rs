//! The tick: what each phase does with the keys and the clock.
use vstd::prelude::*;
use crate::game::{Game_Phase, Game_State, Input_State, Piece_State, HEIGHT, HIGHLIGHT_TICKS, WIDTH};
use crate::grid::{lemma_filled_count_bounds, lemma_row_fits};
use crate::model::{empty_board, Draws, GameModel};
use crate::piece::lemma_inside_bounds_corner;
use crate::rules::lemma_drop_interval_bounds;

verus! {

impl Game_State {
    /// Empties the board.
    fn clear_board(&mut self)
        requires
            old(self)@.wf(),
        ensures
            final(self)@ == (GameModel { board: empty_board(), ..old(self)@ }),
            final(self)@.wf(),
    {
        let mut i: usize = 0;
        while i < WIDTH * HEIGHT
            invariant
                i <= WIDTH * HEIGHT,
                self@.wf(),
                self@ == (GameModel { board: self@.board, ..old(self)@ }),
                forall|k: int| 0 <= k < i ==> #[trigger] self@.board[k] == 0,
            decreases WIDTH * HEIGHT - i,
        {
            self.board[i] = 0;
            i += 1;
        }
        proof {
            assert(self@.board =~= empty_board());
        }
    }

    /// One tick before a game.
    pub(crate) fn update_game_start(&mut self, input: &Input_State)
        requires
            old(self)@.wf(),
            old(self)@.start_step_fits(*input),
        ensures
            final(self)@ == old(self)@.start_step(*input),
            final(self)@.wf(),
    {
        if input.dup > 0 {
            self.start_level += 1;
        }
        if input.ddown > 0 && self.start_level > 0 {
            self.start_level -= 1;
        }
        if input.da > 0 {
            self.clear_board();
            self.level = self.start_level;
            self.line_count = 0;
            self.points = 0;
            self.spawn_piece();
            self.phase = Game_Phase::GAME_PHASE_PLAY;
        }
    }

    /// One tick after a game.
    pub(crate) fn update_game_gameover(&mut self, input: &Input_State)
        requires
            old(self)@.wf(),
        ensures
            final(self)@ == old(self)@.gameover_step(*input),
            final(self)@.wf(),
    {
        if input.da > 0 {
            self.phase = Game_Phase::GAME_PHASE_START;
        }
    }

    /// One tick while filled rows are shown.
    pub(crate) fn update_game_line(&mut self)
        requires
            old(self)@.wf(),
            old(self)@.phase == Game_Phase::GAME_PHASE_LINE,
            old(self)@.line_step_fits(),
        ensures
            final(self)@ == old(self)@.line_step(),
            final(self)@.wf(),
    {
        if self.time >= self.highlight_end_time {
            self.clear_lines(WIDTH as i32, HEIGHT as i32);
            self.line_count += self.pending_line_count;
            self.points += self.compute_points(self.pending_line_count);
            let lines_for_next_level: i32 = self.get_lines_for_next_level(self.level);
            if self.line_count >= lines_for_next_level {
                self.level += 1;
            }
            self.phase = Game_Phase::GAME_PHASE_PLAY;
        }
    }

    /// Moves the falling piece one column to the left, unless it is not valid
    /// there.
    fn shift_left(&mut self)
        requires
            old(self)@.wf(),
        ensures
            final(self)@ == old(self)@.shifted(-1),
            final(self)@.wf(),
    {
        proof {
            lemma_inside_bounds_corner(self@.piece, WIDTH as int, HEIGHT as int);
        }
        let mut moved: Piece_State = self.piece;
        moved.move_left();
        if moved.check_piece_valid(self, WIDTH as i32, HEIGHT as i32) {
            self.piece = moved;
        }
    }

    /// Moves the falling piece one column to the right, unless it is not
    /// valid there.
    fn shift_right(&mut self)
        requires
            old(self)@.wf(),
        ensures
            final(self)@ == old(self)@.shifted(1),
            final(self)@.wf(),
    {
        proof {
            lemma_inside_bounds_corner(self@.piece, WIDTH as int, HEIGHT as int);
        }
        let mut moved: Piece_State = self.piece;
        moved.move_right();
        if moved.check_piece_valid(self, WIDTH as i32, HEIGHT as i32) {
            self.piece = moved;
        }
    }

    /// Turns the falling piece a quarter turn, if it is valid where it is
    /// and valid so turned.
    fn turn_piece(&mut self)
        requires
            old(self)@.wf(),
        ensures
            final(self)@ == old(self)@.turned(),
            final(self)@.wf(),
    {
        if self.piece.check_piece_valid(self, WIDTH as i32, HEIGHT as i32) {
            let mut turned: Piece_State = self.piece;
            turned.rotation = (turned.rotation + 1) % 4;
            if turned.check_piece_valid(self, WIDTH as i32, HEIGHT as i32) {
                self.piece = turned;
            }
        }
    }

    /// Lets gravity catch up: a drop step for as long as one is due.
    fn apply_gravity(&mut self)
        requires
            old(self)@.wf(),
            old(self)@.clock_has_room(),
        ensures
            final(self)@ == if old(self)@.drop_is_due() {
                old(self)@.drop_step(final(self)@.next_id)
            } else {
                old(self)@
            },
            final(self)@.wf(),
    {
        while self.time >= self.next_drop_time
            invariant
                self@.wf(),
                self@.clock_has_room(),
                self@ == old(self)@ || (old(self)@.drop_is_due() && !self@.drop_is_due() && self@
                    == old(self)@.drop_step(self@.next_id)),
            decreases
                    (if self.time >= self.next_drop_time {
                        1int
                    } else {
                        0int
                    }),
        {
            proof {
                lemma_drop_interval_bounds(self@.level);
            }
            self.soft_drop();
        }
    }

    /// Ends a tick of play: marks and counts the filled rows. If there are
    /// any, they are to be shown; if there are none and the top row is not
    /// empty, the game is over.
    fn scan_board(&mut self)
        requires
            old(self)@.wf(),
            old(self)@.phase == Game_Phase::GAME_PHASE_PLAY,
            old(self)@.clock_has_room(),
        ensures
            final(self)@ == old(self)@.scanned(),
            final(self)@.wf(),
    {
        proof {
            lemma_filled_count_bounds(self@.board, WIDTH as int, HEIGHT as int);
            lemma_row_fits(self@.board.len() as int, WIDTH as int, HEIGHT as int, 0);
        }
        self.pending_line_count = self.find_lines(WIDTH as i32, HEIGHT as i32);
        if self.pending_line_count > 0 {
            self.phase = Game_Phase::GAME_PHASE_LINE;
            self.highlight_end_time = self.time + HIGHLIGHT_TICKS;
        } else {
            let game_over_row: i32 = 0;
            if self.check_row_empty(WIDTH as i32, game_over_row) == 0 {
                self.phase = Game_Phase::GAME_PHASE_GAMEOVER;
            }
        }
    }

    /// One tick of play.
    pub(crate) fn update_game_play(&mut self, input: &Input_State)
        requires
            old(self)@.wf(),
            old(self)@.phase == Game_Phase::GAME_PHASE_PLAY,
            old(self)@.clock_has_room(),
        ensures
            exists|draws: Draws|
                draws.wf() && final(self)@ == #[trigger] old(self)@.play_step(*input, draws),
            final(self)@.wf(),
    {
        let ghost mut draws = Draws { soft: 0, hard: 0, gravity: 0 };
        if input.dleft > 0 {
            self.shift_left();
        }
        if input.dright > 0 {
            self.shift_right();
        }
        if input.dup > 0 {
            self.turn_piece();
        }
        let ghost moved = self@;
        assert(moved == old(self)@.after_moves(*input));
        if input.ddown > 0 {
            self.soft_drop();
            proof {
                draws = Draws { soft: self@.next_id, ..draws };
            }
        }
        if input.da > 0 {
            self.hard_drop();
            proof {
                draws = Draws { hard: self@.next_id, ..draws };
            }
        }
        self.apply_gravity();
        proof {
            draws = Draws { gravity: self@.next_id, ..draws };
            assert(self@ == moved.after_drops(*input, draws));
        }
        self.scan_board();
        proof {
            assert(self@ == old(self)@.play_step(*input, draws));
        }
    }

    /// Whether `update` can take this input now: whether the numbers that
    /// the tick computes fit the 32 bits they are kept in, and the clock
    /// leaves room for the waits that the tick may schedule.
    pub fn can_update(&self, input: &Input_State) -> (fits: bool)
        requires
            self@.wf(),
        ensures
            fits == self@.step_fits(*input),
    {
        let room: bool = self.time <= u64::MAX - crate::rules::LONGEST_WAIT;
        match self.phase {
            Game_Phase::GAME_PHASE_START => {
                (input.dup <= 0 || self.start_level < i32::MAX) && (input.da <= 0 || room)
            },
            Game_Phase::GAME_PHASE_PLAY => room,
            Game_Phase::GAME_PHASE_LINE => {
                if self.time < self.highlight_end_time {
                    return true;
                }
                let level: i64 = self.level as i64;
                let start: i64 = self.start_level as i64;
                let count: i64 = self.pending_line_count as i64;
                let cleared: i64 = self.line_count as i64 + count;
                let gain: i64 = if count == 1 {
                    40 * (level + 1)
                } else if count == 2 {
                    100 * (level + 1)
                } else if count == 3 {
                    300 * (level + 1)
                } else if count == 4 {
                    1200 * (level + 1)
                } else {
                    0
                };
                let first: i64 = if start * 10 + 10 <= 100 {
                    start * 10 + 10
                } else if start * 10 - 50 >= 100 {
                    start * 10 - 50
                } else {
                    100
                };
                let limit: i64 = first + (level - start) * 10;
                let most: i64 = i32::MAX as i64;
                let least: i64 = i32::MIN as i64;
                cleared <= most && self.points as i64 + gain <= most && start * 10 + 10 <= most
                    && least <= (level - start) * 10 && (level - start) * 10 <= most && least
                    <= limit && limit <= most && (cleared < limit || level < most)
            },
            Game_Phase::GAME_PHASE_GAMEOVER => true,
        }
    }

    /// One tick: the phase decides what the keys and the clock do.
    ///
    /// Which shapes come next is left to chance. Whatever is drawn, the game
    /// after the tick is the game before it, stepped with those draws.
    pub fn update(&mut self, input: &Input_State)
        requires
            old(self)@.wf(),
            old(self)@.step_fits(*input),
        ensures
            exists|draws: Draws|
                draws.wf() && final(self)@ == #[trigger] old(self)@.step(*input, draws),
            final(self)@.wf(),
    {
        let ghost none = Draws { soft: 0, hard: 0, gravity: 0 };
        match self.phase {
            Game_Phase::GAME_PHASE_START => {
                self.update_game_start(input);
                assert(self@ == old(self)@.step(*input, none));
            },
            Game_Phase::GAME_PHASE_PLAY => {
                self.update_game_play(input);
                let ghost draws = choose|draws: Draws|
                    draws.wf() && self@ == #[trigger] old(self)@.play_step(*input, draws);
                assert(self@ == old(self)@.step(*input, draws));
            },
            Game_Phase::GAME_PHASE_LINE => {
                self.update_game_line();
                assert(self@ == old(self)@.step(*input, none));
            },
            Game_Phase::GAME_PHASE_GAMEOVER => {
                self.update_game_gameover(input);
                assert(self@ == old(self)@.step(*input, none));
            },
        }
    }
}

} // verus!
