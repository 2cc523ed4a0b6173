//! The game itself: the board, the falling piece, the score, and the phase
//! that says what a tick does.
use vstd::prelude::*;
use crate::grid::{cell_index, grid_fits, lemma_cell_index};
use crate::model::{initial_game, GameModel};
use crate::piece::{
    drop_distance, fresh_piece, landed, lemma_inside_bounds_corner, lemma_spawned_piece_inside,
    PieceModel,
};
use crate::tetromino::{tetromino, Tetromino, TETROMINO_COUNT};

verus! {

/// Cells in a row of the board.
pub const WIDTH: usize = 10;

/// Rows of the board, the hidden ones at the top included.
pub const HEIGHT: usize = 22;

/// Cells of the board.
pub const BOARD_SIZE: usize = WIDTH * HEIGHT;

/// Rows of the board that a player sees: the lowest ones.
pub const VISIBLE_HEIGHT: usize = 20;

/// The side of a cell on screen, in pixels.
pub const GRID_SIZE: usize = 30;

/// For each level up to 29, how many frames a piece rests before gravity
/// moves it one row.
pub const FRAMES_PER_DROP: [u32; 30] = [
    48, 43, 38, 33, 28, 23, 18, 13, 8, 6, 5, 5, 5, 4, 4, 4, 3, 3, 3, 2, 2, 2, 2, 2, 2, 2, 2, 2, 2,
    1,
];

/// The clock counts ticks. This many make a second, so that a millisecond
/// (3 ticks) and a frame of a sixtieth of a second (50 ticks) are both whole.
pub const TICKS_PER_SECOND: u64 = 3000;

/// Ticks in one frame.
pub const TICKS_PER_FRAME: u64 = 50;

/// How long filled rows are shown before they are removed: half a second.
pub const HIGHLIGHT_TICKS: u64 = 1500;

/// The smaller of two numbers.
pub fn min(x: i32, y: i32) -> (least: i32)
    ensures
        least == if x <= y { x } else { y },
{
    if x <= y {
        return x;
    } else {
        return y;
    }
}

/// The larger of two numbers.
pub fn max(x: i32, y: i32) -> (most: i32)
    ensures
        most == if x >= y { x } else { y },
{
    if x >= y {
        return x;
    } else {
        return y;
    }
}

/// One byte from the thread's random number generator: calls `rand::rng()`
/// and, on the generator it returns, `rand::Rng::random` for a `u8`. Nothing
/// is claimed of the byte: any value may come back, and two calls need not
/// agree. The generator panics if the operating system gives it no seed:
/// when the thread first uses it, or later when it reseeds itself.
#[verifier::external_body]
fn random_byte() -> (raw: u8) {
    let mut rng = rand::rng();
    rand::Rng::random(&mut rng)
}

/// Where a raw byte falls in `min..max`.
pub open spec fn folded(min: int, max: int, raw: int) -> int {
    min + raw % (max - min)
}

/// Folds a raw byte into the range `min..max`.
pub fn fold_into_range(min: u8, max: u8, raw: u8) -> (value: u8)
    requires
        min < max,
    ensures
        value == folded(min as int, max as int, raw as int),
        min <= value < max,
{
    let range: u8 = max - min;
    min + raw % range
}

/// A number drawn at random from `min..max`, the upper bound left out.
pub fn random_int(min: u8, max: u8) -> (value: u8)
    requires
        min < max,
    ensures
        min <= value < max,
{
    let raw: u8 = random_byte();
    fold_into_range(min, max, raw)
}

/// Where cell `(row, col)` of a grid `width` cells wide lies in the board.
pub(crate) fn cell_offset(width: i32, row: i32, col: i32) -> (index: usize)
    requires
        0 <= cell_index(width as int, row as int, col as int) <= usize::MAX,
    ensures
        index == cell_index(width as int, row as int, col as int),
{
    assert(-0x4000_0000_0000_0000 <= row * width <= 0x4000_0000_0000_0000) by (nonlinear_arith)
        requires
            -0x8000_0000 <= row <= 0x7fff_ffff,
            -0x8000_0000 <= width <= 0x7fff_ffff,
    ;
    let index: i64 = row as i64 * width as i64 + col as i64;
    index as usize
}

/// What a tick does.
#[derive(Clone, Copy, Debug, PartialEq, Eq, Structural)]
pub enum Game_Phase {
    /// Waiting for a game to begin; the starting level can be changed.
    GAME_PHASE_START,
    /// A piece is falling.
    GAME_PHASE_PLAY,
    /// Filled rows are being shown before they are removed.
    GAME_PHASE_LINE,
    /// The board overflowed.
    GAME_PHASE_GAMEOVER,
}

impl Default for Game_Phase {
    fn default() -> (phase: Self)
        ensures
            phase == Game_Phase::GAME_PHASE_START,
    {
        Game_Phase::GAME_PHASE_START
    }
}

/// The shape to spawn and the shape to show as coming.
pub(crate) struct IndexBuffer {
    pub(crate) current: u8,
    pub(crate) next: u8,
}

/// A piece on the board, or above it: its shape, where the corner of its
/// matrix lies, and how far it is turned.
#[derive(Clone, Copy)]
pub struct Piece_State {
    pub(crate) tetromino_index: u8,
    pub(crate) offset_row: i32,
    pub(crate) offset_col: i32,
    pub(crate) rotation: i32,
}

impl View for Piece_State {
    type V = PieceModel;

    open(crate) spec fn view(&self) -> PieceModel {
        PieceModel {
            shape: self.tetromino_index as int,
            row: self.offset_row as int,
            col: self.offset_col as int,
            rotation: self.rotation as int,
        }
    }
}

impl Piece_State {
    /// A piece of shape `index` at the top of the board, its corner on the
    /// middle column, not turned.
    pub fn new(index: u8) -> (piece: Self)
        ensures
            piece@ == fresh_piece(index as int, WIDTH as int),
    {
        Piece_State {
            tetromino_index: index,
            offset_row: 0,
            offset_col: WIDTH as i32 / 2,
            rotation: 0,
        }
    }

    /// The number of the piece's shape.
    pub fn get_tetr_index(&self) -> (index: u8)
        ensures
            index == self@.shape,
    {
        return self.tetromino_index;
    }

    /// How many quarter turns the piece is turned.
    pub fn get_rotation(&self) -> (rotation: i32)
        ensures
            rotation == self@.rotation,
    {
        return self.rotation;
    }

    /// The board column of the left edge of the piece's matrix.
    pub fn get_offset_col(&self) -> (col: i32)
        ensures
            col == self@.col,
    {
        return self.offset_col;
    }

    /// The board row of the top edge of the piece's matrix.
    pub fn get_offset_row(&self) -> (row: i32)
        ensures
            row == self@.row,
    {
        return self.offset_row;
    }

    /// Moves the piece one column to the left. Whether it is valid there is
    /// for the caller to ask.
    pub fn move_left(&mut self)
        requires
            old(self)@.col > i32::MIN,
        ensures
            final(self)@ == old(self)@.moved(0, -1),
    {
        self.offset_col -= 1;
    }

    /// Moves the piece one column to the right. Whether it is valid there is
    /// for the caller to ask.
    pub fn move_right(&mut self)
        requires
            old(self)@.col < i32::MAX,
        ensures
            final(self)@ == old(self)@.moved(0, 1),
    {
        self.offset_col += 1;
    }

    /// Moves the piece one row up. Whether it is valid there is for the
    /// caller to ask.
    pub fn move_up(&mut self)
        requires
            old(self)@.row > i32::MIN,
        ensures
            final(self)@ == old(self)@.moved(-1, 0),
    {
        self.offset_row -= 1;
    }

    /// Moves the piece one row down. Whether it is valid there is for the
    /// caller to ask.
    pub fn move_down(&mut self)
        requires
            old(self)@.row < i32::MAX,
        ensures
            final(self)@ == old(self)@.moved(1, 0),
    {
        self.offset_row += 1;
    }

    /// Whether every occupied cell of the piece lies on the grid of `width`
    /// by `height` cells and on a free cell of the game's board.
    pub fn check_piece_valid(&self, game: &Game_State, width: i32, height: i32) -> (valid: bool)
        requires
            self@.shape < TETROMINO_COUNT,
            game@.wf(),
            grid_fits(game@.board.len() as int, width as int, height as int),
        ensures
            valid == self@.valid_on(game@.board, width as int, height as int),
    {
        let tetromino: Tetromino = tetromino(self.tetromino_index);
        let side: i32 = tetromino.side;
        let mut row: i32 = 0;
        while row < side
            invariant
                0 <= row <= side <= 4,
                tetromino.wf(),
                side == tetromino.side == self@.side(),
                tetromino.data@ == crate::tetromino::shape_data(self@.shape),
                game@.wf(),
                grid_fits(game@.board.len() as int, width as int, height as int),
                forall|r: int, c: int|
                    0 <= r < row && 0 <= c < side && #[trigger] self@.cell(r, c) != 0 ==> 0
                        <= self@.row + r < height && 0 <= self@.col + c < width
                        && game@.board[cell_index(width as int, self@.row + r, self@.col + c)]
                        == 0,
            decreases side - row,
        {
            let mut col: i32 = 0;
            while col < side
                invariant
                    0 <= row < side <= 4,
                    0 <= col <= side,
                    tetromino.wf(),
                    side == tetromino.side == self@.side(),
                    tetromino.data@ == crate::tetromino::shape_data(self@.shape),
                    game@.wf(),
                    grid_fits(game@.board.len() as int, width as int, height as int),
                    forall|r: int, c: int|
                        (0 <= r < row && 0 <= c < side || r == row && 0 <= c < col)
                            && #[trigger] self@.cell(r, c) != 0 ==> 0 <= self@.row + r < height && 0
                            <= self@.col + c < width && game@.board[cell_index(
                            width as int,
                            self@.row + r,
                            self@.col + c,
                        )] == 0,
                decreases side - col,
            {
                let value: u8 = tetromino.tetromino_get(row, col, self.rotation);
                assert(value == self@.cell(row as int, col as int));
                if value > 0 {
                    let board_row: i64 = self.offset_row as i64 + row as i64;
                    let board_col: i64 = self.offset_col as i64 + col as i64;
                    if board_row < 0 || board_row >= height as i64 || board_col < 0 || board_col
                        >= width as i64 {
                        return false;
                    }
                    proof {
                        lemma_cell_index(
                            width as int,
                            height as int,
                            board_row as int,
                            board_col as int,
                        );
                    }
                    if game.matrix_get(width, board_row as i32, board_col as i32) != 0 {
                        return false;
                    }
                }
                col += 1;
            }
            row += 1;
        }
        return true;
    }
}

/// A game: the board, the falling piece and the piece to come, the score,
/// the level, the clock, and the phase.
pub struct Game_State {
    pub(crate) board: [u8; BOARD_SIZE],
    pub(crate) lines: [u8; HEIGHT],
    pub(crate) pending_line_count: i32,
    pub(crate) line_count: i32,
    pub(crate) points: i32,
    pub(crate) piece: Piece_State,
    pub(crate) piece_next: Piece_State,
    pub(crate) phase: Game_Phase,
    pub(crate) start_level: i32,
    pub(crate) level: i32,
    pub(crate) next_drop_time: u64,
    pub(crate) highlight_end_time: u64,
    pub(crate) time: u64,
    pub(crate) index_buffer: IndexBuffer,
}

impl View for Game_State {
    type V = GameModel;

    open(crate) spec fn view(&self) -> GameModel {
        GameModel {
            board: self.board@,
            lines: self.lines@,
            pending_line_count: self.pending_line_count as int,
            line_count: self.line_count as int,
            points: self.points as int,
            piece: self.piece@,
            piece_next: self.piece_next@,
            phase: self.phase,
            start_level: self.start_level as int,
            level: self.level as int,
            next_drop_time: self.next_drop_time as int,
            highlight_end_time: self.highlight_end_time as int,
            time: self.time as int,
            current_id: self.index_buffer.current as int,
            next_id: self.index_buffer.next as int,
        }
    }
}

impl Game_State {
    /// A game before its first tick, with the first two shapes drawn at
    /// random.
    pub fn new() -> (game: Self)
        ensures
            game@ == initial_game(game@.current_id, game@.next_id),
            game@.wf(),
    {
        let current: u8 = random_int(0, 7);
        let next: u8 = random_int(0, 7);
        Game_State::with_shapes(current, next)
    }

    /// A game before its first tick, in which shape `current` enters play
    /// first and shape `next` after it.
    pub fn with_shapes(current: u8, next: u8) -> (game: Self)
        requires
            current < TETROMINO_COUNT,
            next < TETROMINO_COUNT,
        ensures
            game@ == initial_game(current as int, next as int),
            game@.wf(),
    {
        proof {
            lemma_spawned_piece_inside(0);
            lemma_spawned_piece_inside(1);
        }
        let board: [u8; BOARD_SIZE] = [0; BOARD_SIZE];
        let lines: [u8; HEIGHT] = [0; HEIGHT];
        assert(board@ =~= initial_game(current as int, next as int).board);
        assert(lines@ =~= initial_game(current as int, next as int).lines);
        Game_State {
            board,
            lines,
            pending_line_count: 0,
            line_count: 0,
            points: 0,
            piece: Piece_State::new(0),
            piece_next: Piece_State::new(1),
            phase: Game_Phase::GAME_PHASE_START,
            start_level: 1,
            level: 1,
            next_drop_time: 0,
            highlight_end_time: 0,
            time: 0,
            index_buffer: IndexBuffer { current, next },
        }
    }

    /// What a tick does now.
    pub fn phase(&self) -> (phase: Game_Phase)
        ensures
            phase == self@.phase,
    {
        self.phase
    }

    /// The falling piece.
    pub fn piece(&self) -> (piece: Piece_State)
        ensures
            piece@ == self@.piece,
    {
        self.piece
    }

    /// The piece shown as the one to come.
    pub fn piece_next(&self) -> (piece: Piece_State)
        ensures
            piece@ == self@.piece_next,
    {
        self.piece_next
    }

    /// The marks of the last scan, one for each row: not 0 where the row was
    /// filled.
    pub fn lines(&self) -> (marks: &[u8; HEIGHT])
        ensures
            marks@ == self@.lines,
    {
        &self.lines
    }

    /// How many rows the last scan found filled.
    pub fn pending_line_count(&self) -> (count: i32)
        ensures
            count == self@.pending_line_count,
    {
        self.pending_line_count
    }

    /// How many rows were cleared since the game began.
    pub fn line_count(&self) -> (count: i32)
        ensures
            count == self@.line_count,
    {
        self.line_count
    }

    /// The score.
    pub fn points(&self) -> (points: i32)
        ensures
            points == self@.points,
    {
        self.points
    }

    /// The level that the next game starts on.
    pub fn start_level(&self) -> (level: i32)
        ensures
            level == self@.start_level,
    {
        self.start_level
    }

    /// The level.
    pub fn level(&self) -> (level: i32)
        ensures
            level == self@.level,
    {
        self.level
    }

    /// The clock, in ticks.
    pub fn time(&self) -> (ticks: u64)
        ensures
            ticks == self@.time,
    {
        self.time
    }

    /// When gravity next moves the falling piece, in ticks.
    pub fn next_drop_time(&self) -> (ticks: u64)
        ensures
            ticks == self@.next_drop_time,
    {
        self.next_drop_time
    }

    /// When the marked rows stop being shown, in ticks.
    pub fn highlight_end_time(&self) -> (ticks: u64)
        ensures
            ticks == self@.highlight_end_time,
    {
        self.highlight_end_time
    }

    /// Where the falling piece would come to rest if it fell from where it
    /// is: as far down as it stays valid. A piece that is not valid where it
    /// is comes back one row up.
    pub fn landing_piece(&self) -> (piece: Piece_State)
        requires
            self@.wf(),
        ensures
            piece@ == if self@.piece.valid_on(self@.board, WIDTH as int, HEIGHT as int) {
                landed(self@.piece, self@.board, WIDTH as int, HEIGHT as int)
            } else {
                self@.piece.moved(-1, 0)
            },
    {
        let mut piece: Piece_State = self.piece;
        let ghost fell: int = 0;
        proof {
            lemma_inside_bounds_corner(piece@, WIDTH as int, HEIGHT as int);
        }
        while piece.check_piece_valid(self, WIDTH as i32, HEIGHT as i32)
            invariant
                self@.wf(),
                piece@ == self@.piece.moved(fell, 0),
                piece@.row <= HEIGHT,
                0 <= fell,
                fell > 0 ==> self@.piece.valid_on(self@.board, WIDTH as int, HEIGHT as int),
                fell > 0 ==> landed(self@.piece, self@.board, WIDTH as int, HEIGHT as int)
                    == landed(piece@.moved(-1, 0), self@.board, WIDTH as int, HEIGHT as int),
                fell > 0 ==> piece@.moved(-1, 0).valid_on(
                    self@.board,
                    WIDTH as int,
                    HEIGHT as int,
                ),
            decreases HEIGHT - piece@.row,
        {
            proof {
                lemma_inside_bounds_corner(piece@, WIDTH as int, HEIGHT as int);
                if fell > 0 {
                    let above = piece@.moved(-1, 0);
                    assert(above.moved(1, 0) == piece@);
                    assert(drop_distance(above, self@.board, WIDTH as int, HEIGHT as int) == 1
                        + drop_distance(piece@, self@.board, WIDTH as int, HEIGHT as int));
                    assert(above.moved(
                        1 + drop_distance(piece@, self@.board, WIDTH as int, HEIGHT as int),
                        0,
                    ) == piece@.moved(
                        drop_distance(piece@, self@.board, WIDTH as int, HEIGHT as int),
                        0,
                    ));
                }
            }
            piece.move_down();
            proof {
                fell = fell + 1;
                assert(piece@.moved(-1, 0) == self@.piece.moved(fell - 1, 0));
            }
        }
        proof {
            if fell > 0 {
                let above = piece@.moved(-1, 0);
                assert(above.moved(1, 0) == piece@);
                assert(drop_distance(above, self@.board, WIDTH as int, HEIGHT as int) == 0);
                assert(above.moved(0, 0) == above);
            }
        }
        piece.move_up();
        piece
    }

    /// Sets the clock, in ticks.
    pub fn set_time(&mut self, value: u64)
        ensures
            final(self)@ == (GameModel { time: value as int, ..old(self)@ }),
    {
        self.time = value;
    }

    /// The code in cell `(row, col)` of the board, read as a grid `width`
    /// cells wide.
    pub fn matrix_get(&self, width: i32, row: i32, col: i32) -> (value: u8)
        requires
            self@.wf(),
            0 <= cell_index(width as int, row as int, col as int) < self@.board.len(),
        ensures
            value == self@.board[cell_index(width as int, row as int, col as int)],
            value <= 7,
    {
        let index: usize = cell_offset(width, row, col);
        return self.board[index];
    }

    /// Writes `value` into cell `(row, col)` of the board, read as a grid
    /// `width` cells wide.
    pub fn matrix_set(&mut self, width: i32, row: i32, col: i32, value: u8)
        requires
            old(self)@.wf(),
            0 <= cell_index(width as int, row as int, col as int) < old(self)@.board.len(),
            value <= 7,
        ensures
            final(self)@ == (GameModel {
                board: old(self)@.board.update(
                    cell_index(width as int, row as int, col as int),
                    value,
                ),
                ..old(self)@
            }),
            final(self)@.wf(),
    {
        let index: usize = cell_offset(width, row, col);
        self.board[index] = value;
    }
}

/// The flag of a key: 1 while it is held, 0 while it is not.
pub open spec fn key_flag(held: bool) -> u8 {
    if held {
        1
    } else {
        0
    }
}

/// The flag of a key.
fn flag_of(held: bool) -> (flag: u8)
    ensures
        flag == key_flag(held),
{
    if held {
        1
    } else {
        0
    }
}

/// What the keys do at one tick. `left`, `right`, `up`, `down` and `a` are 1
/// while the key is held. `dleft` and the others compare with the tick
/// before: 1 if the key went down, -1 if it came up, 0 if nothing changed.
/// Only a key that went down makes the game act.
#[derive(Clone, Copy)]
pub struct Input_State {
    pub left: u8,
    pub right: u8,
    pub up: u8,
    pub down: u8,
    pub a: u8,
    pub dleft: i8,
    pub dright: i8,
    pub dup: i8,
    pub ddown: i8,
    pub da: i8,
}

impl Input_State {
    /// No key held and none changed.
    pub open spec fn quiet() -> Self {
        Input_State {
            left: 0,
            right: 0,
            up: 0,
            down: 0,
            a: 0,
            dleft: 0,
            dright: 0,
            dup: 0,
            ddown: 0,
            da: 0,
        }
    }

    /// Each key is held or not: its flag is 1 or 0.
    pub open spec fn flags_wf(&self) -> bool {
        self.left <= 1 && self.right <= 1 && self.up <= 1 && self.down <= 1 && self.a <= 1
    }

    /// The input of the tick after this one, in which the keys that are
    /// held are those given: each flag says whether its key is held, and each
    /// change is the flag now less the flag of this tick.
    pub open spec fn followed_by(
        &self,
        left: bool,
        right: bool,
        up: bool,
        down: bool,
        a: bool,
    ) -> Input_State {
        Input_State {
            left: key_flag(left),
            right: key_flag(right),
            up: key_flag(up),
            down: key_flag(down),
            a: key_flag(a),
            dleft: (key_flag(left) - self.left) as i8,
            dright: (key_flag(right) - self.right) as i8,
            dup: (key_flag(up) - self.up) as i8,
            ddown: (key_flag(down) - self.down) as i8,
            da: (key_flag(a) - self.a) as i8,
        }
    }

    /// The input of the tick after this one, from the keys that are held
    /// now.
    pub fn advance(&self, left: bool, right: bool, up: bool, down: bool, a: bool) -> (input: Self)
        requires
            self.flags_wf(),
        ensures
            input == self.followed_by(left, right, up, down, a),
            input.flags_wf(),
            -1 <= input.dleft <= 1,
            -1 <= input.dright <= 1,
            -1 <= input.dup <= 1,
            -1 <= input.ddown <= 1,
            -1 <= input.da <= 1,
    {
        let mut input: Input_State = *self;
        input.left = flag_of(left);
        input.right = flag_of(right);
        input.up = flag_of(up);
        input.down = flag_of(down);
        input.a = flag_of(a);
        input.dleft = input.left as i8 - self.left as i8;
        input.dright = input.right as i8 - self.right as i8;
        input.dup = input.up as i8 - self.up as i8;
        input.ddown = input.down as i8 - self.down as i8;
        input.da = input.a as i8 - self.a as i8;
        input
    }

    /// No key held and none changed.
    pub fn new() -> (input: Self)
        ensures
            input == Input_State::quiet(),
    {
        Input_State {
            left: 0,
            right: 0,
            up: 0,
            down: 0,
            a: 0,
            dleft: 0,
            dright: 0,
            dup: 0,
            ddown: 0,
            da: 0,
        }
    }
}

} // verus!
