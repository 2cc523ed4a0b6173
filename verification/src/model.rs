//! The game as a mathematical object, and what one tick makes of it.
use vstd::prelude::*;
use crate::game::{Game_Phase, Input_State, HEIGHT, HIGHLIGHT_TICKS, WIDTH};
use crate::grid::{
    cell_index, compacted, filled_count, lemma_filled_count_bounds, lemma_filled_count_finds_rows,
    row_empty, row_filled, scanned_marks,
};
use crate::piece::{
    drop_distance, fresh_piece, landed, lemma_inside_bounds_corner, lemma_merged_cells,
    lemma_shape_cell_code, merged, spawned_piece, PieceModel,
};
use crate::rules::{
    drop_interval, lemma_drop_interval_bounds, lines_for_next_level, points_for, threshold_fits,
    LONGEST_WAIT,
};
use crate::tetromino::{shape_side, TETROMINO_COUNT};

verus! {

/// Everything a game holds, as plain mathematical values.
pub struct GameModel {
    /// The cells of the board, row by row from the top.
    pub board: Seq<u8>,
    /// One mark for each row: not 0 where the last scan found the row filled.
    pub lines: Seq<u8>,
    /// How many rows the last scan found filled.
    pub pending_line_count: int,
    /// How many rows were cleared since the game began.
    pub line_count: int,
    /// The score.
    pub points: int,
    /// The falling piece.
    pub piece: PieceModel,
    /// The piece shown as the one to come.
    pub piece_next: PieceModel,
    pub phase: Game_Phase,
    /// The level that the next game starts on.
    pub start_level: int,
    pub level: int,
    /// When gravity next moves the falling piece, in ticks.
    pub next_drop_time: int,
    /// When the marked rows stop being shown and are removed, in ticks.
    pub highlight_end_time: int,
    /// The clock, in ticks.
    pub time: int,
    /// The shape that the next spawn puts into play.
    pub current_id: int,
    /// The shape that the next spawn shows as the one to come.
    pub next_id: int,
}

impl GameModel {
    /// What every game satisfies at all times: the board and the marks have
    /// their sizes, every cell holds a code from 0 to 7, the pieces and the
    /// shape buffer name shapes of the catalogue, the falling piece lies on
    /// the grid, and no counter is negative. Once a game has begun, the
    /// piece shown as the one to come has the shape that the next spawn puts
    /// into play.
    pub open spec fn wf(self) -> bool {
        &&& self.board.len() == WIDTH * HEIGHT
        &&& forall|i: int| 0 <= i < self.board.len() ==> #[trigger] self.board[i] <= 7
        &&& self.lines.len() == HEIGHT
        &&& 0 <= self.pending_line_count <= HEIGHT
        &&& 0 <= self.line_count <= i32::MAX
        &&& 0 <= self.points <= i32::MAX
        &&& 0 <= self.start_level <= i32::MAX
        &&& 0 <= self.level <= i32::MAX
        &&& self.piece.wf()
        &&& self.piece.inside(WIDTH as int, HEIGHT as int)
        &&& self.piece_next.wf()
        &&& 0 <= self.current_id < TETROMINO_COUNT
        &&& 0 <= self.next_id < TETROMINO_COUNT
        &&& self.phase != Game_Phase::GAME_PHASE_START ==> self.piece_next.shape == self.current_id
        &&& 0 <= self.next_drop_time <= u64::MAX
        &&& 0 <= self.highlight_end_time <= u64::MAX
        &&& 0 <= self.time <= u64::MAX
    }

    /// The clock is far enough from the end of its range for the game to
    /// schedule its longest wait.
    pub open spec fn clock_has_room(self) -> bool {
        self.time + LONGEST_WAIT <= u64::MAX
    }

    /// The row below the falling piece is valid for it.
    pub open spec fn can_fall(self) -> bool {
        self.piece.moved(1, 0).valid_on(self.board, WIDTH as int, HEIGHT as int)
    }

    /// The game after the falling piece has moved one row down: gravity
    /// waits anew.
    pub open spec fn fallen(self) -> Self {
        GameModel {
            piece: self.piece.moved(1, 0),
            next_drop_time: self.time + drop_interval(self.level),
            ..self
        }
    }

    /// The game after a spawn: the shape that was waiting enters play,
    /// centred at the top; the shape to come is shown; gravity waits anew.
    pub open spec fn spawned(self) -> Self {
        GameModel {
            piece_next: fresh_piece(self.next_id, WIDTH as int),
            piece: spawned_piece(self.current_id, WIDTH as int),
            current_id: self.next_id,
            next_drop_time: self.time + drop_interval(self.level),
            ..self
        }
    }

    /// The game after the falling piece has locked where it is: it is merged
    /// into the board, `draw` becomes the shape to come, and the next piece
    /// spawns.
    pub open spec fn locked(self, draw: int) -> Self {
        (GameModel {
            board: merged(self.board, self.piece, WIDTH as int, HEIGHT as int),
            next_id: draw,
            ..self
        }).spawned()
    }

    /// One drop step: the piece moves one row down if it can, and locks if
    /// it cannot. `draw` is the shape drawn if it locks.
    pub open spec fn drop_step(self, draw: int) -> Self {
        if self.can_fall() {
            self.fallen()
        } else {
            self.locked(draw)
        }
    }

    /// A hard drop: the piece falls as far as it can and locks there.
    pub open spec fn hard_dropped(self, draw: int) -> Self {
        (GameModel {
            piece: landed(self.piece, self.board, WIDTH as int, HEIGHT as int),
            ..self
        }).locked(draw)
    }

    /// The game after a key asked the falling piece to move `cols` columns:
    /// it moves if it is valid there, and stays if it is not.
    pub open spec fn shifted(self, cols: int) -> Self {
        if self.piece.moved(0, cols).valid_on(self.board, WIDTH as int, HEIGHT as int) {
            GameModel { piece: self.piece.moved(0, cols), ..self }
        } else {
            self
        }
    }

    /// The game after a key asked the falling piece to turn: a piece that is
    /// valid where it is turns a quarter turn if it is valid so turned, and
    /// stays as it is if not. No other place is tried.
    pub open spec fn turned(self) -> Self {
        if self.piece.valid_on(self.board, WIDTH as int, HEIGHT as int)
            && self.piece.turned().valid_on(self.board, WIDTH as int, HEIGHT as int) {
            GameModel { piece: self.piece.turned(), ..self }
        } else {
            self
        }
    }

    /// The game after the keys that move the piece sideways and turn it have
    /// been heard, in this order: left, right, turn.
    pub open spec fn after_moves(self, input: Input_State) -> Self {
        let left = if input.dleft > 0 {
            self.shifted(-1)
        } else {
            self
        };
        let right = if input.dright > 0 {
            left.shifted(1)
        } else {
            left
        };
        if input.dup > 0 {
            right.turned()
        } else {
            right
        }
    }

    /// Gravity is due.
    pub open spec fn drop_is_due(self) -> bool {
        self.time >= self.next_drop_time
    }

    /// The game after the drops of one tick, in this order: a drop step if
    /// the soft-drop key went down, a hard drop if the action key went down,
    /// and gravity for as long as it is due. Each drop step lets gravity wait
    /// anew, so gravity takes at most one step.
    pub open spec fn after_drops(self, input: Input_State, draws: Draws) -> Self {
        let soft = if input.ddown > 0 {
            self.drop_step(draws.soft)
        } else {
            self
        };
        let hard = if input.da > 0 {
            soft.hard_dropped(draws.hard)
        } else {
            soft
        };
        if hard.drop_is_due() {
            hard.drop_step(draws.gravity)
        } else {
            hard
        }
    }

    /// The game after the scan that ends a tick of play: every row is marked
    /// as filled or not and the filled rows are counted. If there are any,
    /// they are shown for a while before they go. Only if there are none is
    /// the top row looked at: if it is not empty, the game is over.
    pub open spec fn scanned(self) -> Self {
        let count = filled_count(self.board, WIDTH as int, HEIGHT as int);
        GameModel {
            lines: scanned_marks(self.lines, self.board, WIDTH as int, HEIGHT as int),
            pending_line_count: count,
            phase: if count > 0 {
                Game_Phase::GAME_PHASE_LINE
            } else if !row_empty(self.board, WIDTH as int, 0) {
                Game_Phase::GAME_PHASE_GAMEOVER
            } else {
                self.phase
            },
            highlight_end_time: if count > 0 {
                self.time + HIGHLIGHT_TICKS
            } else {
                self.highlight_end_time
            },
            ..self
        }
    }

    /// One tick of play.
    pub open spec fn play_step(self, input: Input_State, draws: Draws) -> Self {
        self.after_moves(input).after_drops(input, draws).scanned()
    }

    /// One tick before a game: the keys change the level to start on, which
    /// never falls below 0, and the action key begins a game on an empty
    /// board.
    pub open spec fn start_step(self, input: Input_State) -> Self {
        let raised = if input.dup > 0 {
            self.start_level + 1
        } else {
            self.start_level
        };
        let chosen = if input.ddown > 0 && raised > 0 {
            raised - 1
        } else {
            raised
        };
        if input.da > 0 {
            (GameModel {
                board: empty_board(),
                start_level: chosen,
                level: chosen,
                line_count: 0,
                points: 0,
                ..self
            }).spawned().entered(Game_Phase::GAME_PHASE_PLAY)
        } else {
            GameModel { start_level: chosen, ..self }
        }
    }

    /// The same game in another phase.
    pub open spec fn entered(self, phase: Game_Phase) -> Self {
        GameModel { phase, ..self }
    }

    /// The marked rows have been shown for long enough.
    pub open spec fn highlight_is_over(self) -> bool {
        self.time >= self.highlight_end_time
    }

    /// One tick while filled rows are shown. Nothing happens until they have
    /// been shown for long enough. Then they are removed, counted and
    /// scored on the level as it is; after that the level rises by one if
    /// the rows cleared in all have reached its threshold; and play goes on.
    pub open spec fn line_step(self) -> Self {
        if self.highlight_is_over() {
            let cleared = self.line_count + self.pending_line_count;
            GameModel {
                board: compacted(self.board, self.lines, WIDTH as int, HEIGHT as int),
                line_count: cleared,
                points: self.points + points_for(self.level, self.pending_line_count),
                level: if cleared >= lines_for_next_level(self.start_level, self.level) {
                    self.level + 1
                } else {
                    self.level
                },
                phase: Game_Phase::GAME_PHASE_PLAY,
                ..self
            }
        } else {
            self
        }
    }

    /// One tick after a game: the action key leads back to the start. The
    /// board and the score stay until a new game begins.
    pub open spec fn gameover_step(self, input: Input_State) -> Self {
        if input.da > 0 {
            self.entered(Game_Phase::GAME_PHASE_START)
        } else {
            self
        }
    }

    /// One tick.
    pub open spec fn step(self, input: Input_State, draws: Draws) -> Self {
        match self.phase {
            Game_Phase::GAME_PHASE_START => self.start_step(input),
            Game_Phase::GAME_PHASE_PLAY => self.play_step(input, draws),
            Game_Phase::GAME_PHASE_LINE => self.line_step(),
            Game_Phase::GAME_PHASE_GAMEOVER => self.gameover_step(input),
        }
    }

    /// A tick before a game can be computed: the level to start on stays
    /// within 32 bits, and the clock leaves room for the first wait.
    pub open spec fn start_step_fits(self, input: Input_State) -> bool {
        &&& input.dup > 0 ==> self.start_level < i32::MAX
        &&& input.da > 0 ==> self.clock_has_room()
    }

    /// A tick while filled rows are shown can be computed: once the rows
    /// have been shown for long enough, the rows cleared in all, the score,
    /// the threshold of the level and the level it may rise to stay within
    /// 32 bits.
    pub open spec fn line_step_fits(self) -> bool {
        self.highlight_is_over() ==> {
            &&& self.line_count + self.pending_line_count <= i32::MAX
            &&& self.points + points_for(self.level, self.pending_line_count) <= i32::MAX
            &&& threshold_fits(self.start_level, self.level)
            &&& self.line_count + self.pending_line_count >= lines_for_next_level(
                self.start_level,
                self.level,
            ) ==> self.level < i32::MAX
        }
    }

    /// The tick can be computed: the numbers it arrives at fit the 32 bits
    /// they are kept in, and the clock leaves room for the waits that it may
    /// schedule.
    pub open spec fn step_fits(self, input: Input_State) -> bool {
        match self.phase {
            Game_Phase::GAME_PHASE_START => self.start_step_fits(input),
            Game_Phase::GAME_PHASE_PLAY => self.clock_has_room(),
            Game_Phase::GAME_PHASE_LINE => self.line_step_fits(),
            Game_Phase::GAME_PHASE_GAMEOVER => true,
        }
    }
}

/// When a drop step locks the falling piece, every occupied cell of the
/// piece shows on the board, where the piece covered it, with the piece's
/// code, and every cell of the grid that the piece does not cover stays as
/// it was. The shape that was waiting is in play, at the top, not turned,
/// centred for its side; once a game has begun, that is the shape of the
/// piece that was shown as the one to come. The piece now shown is of the
/// shape drawn.
pub proof fn lemma_lock_shows_piece(game: GameModel, draw: int)
    requires
        game.wf(),
        !game.can_fall(),
    ensures
        forall|r: int, c: int|
            0 <= r < game.piece.side() && 0 <= c < game.piece.side() && #[trigger] game.piece.cell(
                r,
                c,
            ) != 0 ==> game.drop_step(draw).board[cell_index(
                WIDTH as int,
                game.piece.row + r,
                game.piece.col + c,
            )] == game.piece.cell(r, c) && game.piece.cell(r, c) == game.piece.shape + 1,
        forall|row: int, col: int|
            0 <= row < HEIGHT && 0 <= col < WIDTH && game.piece.cell_at(row, col) == 0
                ==> game.drop_step(draw).board[#[trigger] cell_index(WIDTH as int, row, col)]
                == game.board[cell_index(WIDTH as int, row, col)],
        game.drop_step(draw).piece == spawned_piece(game.current_id, WIDTH as int),
        game.drop_step(draw).piece.shape == game.current_id,
        game.drop_step(draw).piece.row == 0,
        game.drop_step(draw).piece.rotation == 0,
        game.drop_step(draw).piece.col == WIDTH / 2 - shape_side(game.current_id) / 2,
        game.phase != Game_Phase::GAME_PHASE_START ==> game.drop_step(draw).piece.shape
            == game.piece_next.shape,
        game.drop_step(draw).piece_next == fresh_piece(draw, WIDTH as int),
        game.drop_step(draw).phase == game.phase,
{
    lemma_merged_cells(game.board, game.piece, WIDTH as int, HEIGHT as int);
    assert forall|r: int, c: int|
        0 <= r < game.piece.side() && 0 <= c < game.piece.side() && #[trigger] game.piece.cell(r, c)
            != 0 implies game.piece.cell(r, c) == game.piece.shape + 1 by {
        lemma_shape_cell_code(game.piece.shape, r, c, game.piece.rotation);
    }
}

/// The scan that ends a tick of play marks exactly the filled rows and
/// counts them. If a row is filled, the rows are shown for half a second,
/// whatever the top row holds. If none is filled, the game is over if the
/// top row is not empty, and goes on as it was if it is. The scan changes
/// neither the board nor the pieces nor the score.
pub proof fn lemma_scan_decides_phase(game: GameModel)
    requires
        game.wf(),
    ensures
        game.scanned().pending_line_count == filled_count(
            game.board,
            WIDTH as int,
            HEIGHT as int,
        ),
        0 <= game.scanned().pending_line_count <= HEIGHT,
        game.scanned().pending_line_count > 0 <==> exists|row: int|
            0 <= row < HEIGHT && #[trigger] row_filled(game.board, WIDTH as int, row),
        game.scanned().lines.len() == HEIGHT,
        forall|row: int|
            0 <= row < HEIGHT ==> #[trigger] game.scanned().lines[row] == if row_filled(
                game.board,
                WIDTH as int,
                row,
            ) {
                1u8
            } else {
                0u8
            },
        game.scanned().pending_line_count > 0 ==> game.scanned().phase
            == Game_Phase::GAME_PHASE_LINE && game.scanned().highlight_end_time == game.time
            + HIGHLIGHT_TICKS,
        game.scanned().pending_line_count == 0 && !row_empty(game.board, WIDTH as int, 0)
            ==> game.scanned().phase == Game_Phase::GAME_PHASE_GAMEOVER,
        game.scanned().pending_line_count == 0 && row_empty(game.board, WIDTH as int, 0)
            ==> game.scanned().phase == game.phase,
        game.scanned().pending_line_count == 0 ==> game.scanned().highlight_end_time
            == game.highlight_end_time,
        game.scanned() == (GameModel {
            lines: game.scanned().lines,
            pending_line_count: game.scanned().pending_line_count,
            phase: game.scanned().phase,
            highlight_end_time: game.scanned().highlight_end_time,
            ..game
        }),
{
    lemma_filled_count_bounds(game.board, WIDTH as int, HEIGHT as int);
    lemma_filled_count_finds_rows(game.board, WIDTH as int, HEIGHT as int);
}

/// A tick while filled rows are shown changes nothing before they have been
/// shown for long enough. Then it removes the marked rows, adds the rows
/// that were pending to the rows cleared, adds what they are worth on the
/// level as it is to the score, raises the level by one or leaves it, and
/// leads back to play. The marks and the count of the pending rows stay.
pub proof fn lemma_line_step_clears(game: GameModel)
    requires
        game.wf(),
    ensures
        !game.highlight_is_over() ==> game.line_step() == game,
        game.highlight_is_over() ==> {
            &&& game.line_step().phase == Game_Phase::GAME_PHASE_PLAY
            &&& game.line_step().line_count == game.line_count + game.pending_line_count
            &&& game.line_step().points == game.points + points_for(
                game.level,
                game.pending_line_count,
            )
            &&& game.line_step().points >= game.points
            &&& game.line_step().board == compacted(
                game.board,
                game.lines,
                WIDTH as int,
                HEIGHT as int,
            )
            &&& game.level <= game.line_step().level <= game.level + 1
            &&& game.line_step().level == game.level + 1 <==> game.line_count
                + game.pending_line_count >= lines_for_next_level(game.start_level, game.level)
            &&& game.line_step().lines == game.lines
            &&& game.line_step().pending_line_count == game.pending_line_count
            &&& game.line_step().piece == game.piece
        },
{
}

/// After a drop step no drop is due, so gravity takes at most one step in a
/// tick, however late the tick comes.
pub proof fn lemma_drop_step_defers_gravity(game: GameModel, draw: int)
    ensures
        !game.drop_step(draw).drop_is_due(),
{
    lemma_drop_interval_bounds(game.level);
}

/// A hard drop is drop steps until one of them locks the piece.
pub proof fn lemma_hard_drop_repeats_drop_steps(game: GameModel, draw: int)
    requires
        game.wf(),
    ensures
        game.hard_dropped(draw) == if game.can_fall() {
            game.drop_step(draw).hard_dropped(draw)
        } else {
            game.drop_step(draw)
        },
{
    let board = game.board;
    let width = WIDTH as int;
    let height = HEIGHT as int;
    if game.can_fall() {
        let below = game.piece.moved(1, 0);
        lemma_inside_bounds_corner(below, width, height);
        let rest = drop_distance(below, board, width, height);
        assert(drop_distance(game.piece, board, width, height) == 1 + rest);
        assert(game.piece.moved(1 + rest, 0) == below.moved(rest, 0));
    } else {
        assert(drop_distance(game.piece, board, width, height) == 0);
        assert(game.piece.moved(0, 0) == game.piece);
    }
}

/// The shapes that chance draws during one tick of play: one for each drop
/// that can lock a piece. A draw is used only if its drop locks.
pub struct Draws {
    /// Drawn if the soft drop locks the piece.
    pub soft: int,
    /// Drawn when the hard drop locks the piece.
    pub hard: int,
    /// Drawn if gravity locks the piece.
    pub gravity: int,
}

impl Draws {
    /// Each draw names a shape of the catalogue.
    pub open spec fn wf(self) -> bool {
        &&& 0 <= self.soft < TETROMINO_COUNT
        &&& 0 <= self.hard < TETROMINO_COUNT
        &&& 0 <= self.gravity < TETROMINO_COUNT
    }
}

/// The game before its first tick: an empty board, no score, level 1, the
/// clock at 0, waiting to start. `current` and `next` are the first two
/// shapes to enter play; until they do, the pieces are stand-ins of shapes 0
/// and 1.
pub open spec fn initial_game(current: int, next: int) -> GameModel {
    GameModel {
        board: empty_board(),
        lines: Seq::new(HEIGHT as nat, |row: int| 0u8),
        pending_line_count: 0,
        line_count: 0,
        points: 0,
        piece: fresh_piece(0, WIDTH as int),
        piece_next: fresh_piece(1, WIDTH as int),
        phase: Game_Phase::GAME_PHASE_START,
        start_level: 1,
        level: 1,
        next_drop_time: 0,
        highlight_end_time: 0,
        time: 0,
        current_id: current,
        next_id: next,
    }
}

/// A board without an occupied cell.
pub open spec fn empty_board() -> Seq<u8> {
    Seq::new((WIDTH * HEIGHT) as nat, |i: int| 0u8)
}

} // verus!
