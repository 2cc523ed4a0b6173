//! How a piece falls: the drop step, the lock that ends a fall, the spawn
//! that follows, and the hard drop.
use vstd::prelude::*;
use crate::game::{random_int, Game_State, Piece_State, HEIGHT, WIDTH};
use crate::grid::lemma_cell_index;
use crate::model::GameModel;
use crate::piece::{
    drop_distance, landed, lemma_inside_bounds_corner, lemma_shape_cell_code,
    lemma_spawned_piece_inside, merged, PieceModel,
};
use crate::rules::lemma_drop_interval_bounds;
use crate::tetromino::{tetromino, Tetromino};

verus! {

/// The board while a piece is being merged into it: the cells of the piece's
/// matrix before `(rows, cols)`, in reading order, have been written.
spec fn merged_upto(board: Seq<u8>, piece: PieceModel, rows: int, cols: int) -> Seq<u8> {
    Seq::new(
        board.len(),
        |i: int|
            {
                let r = i / (WIDTH as int) - piece.row;
                let c = i % (WIDTH as int) - piece.col;
                if i < WIDTH * HEIGHT && (r < rows || (r == rows && c < cols)) && piece.cell_at(
                    i / (WIDTH as int),
                    i % (WIDTH as int),
                ) != 0 {
                    piece.cell_at(i / (WIDTH as int), i % (WIDTH as int))
                } else {
                    board[i]
                }
            },
    )
}

impl Game_State {
    /// Writes the falling piece into the board, and draws the shape to come
    /// after the one that is waiting.
    pub(crate) fn merge_piece(&mut self)
        requires
            old(self)@.wf(),
        ensures
            final(self)@ == (GameModel {
                board: merged(
                    old(self)@.board,
                    old(self)@.piece,
                    WIDTH as int,
                    HEIGHT as int,
                ),
                next_id: final(self)@.next_id,
                ..old(self)@
            }),
            final(self)@.wf(),
    {
        let ghost before = self@.board;
        let ghost piece = self@.piece;
        let tetromino: Tetromino = tetromino(self.piece.tetromino_index);
        let side: i32 = tetromino.side;
        proof {
            lemma_inside_bounds_corner(piece, WIDTH as int, HEIGHT as int);
            assert(self@.board =~= merged_upto(before, piece, 0, 0));
        }
        let mut row: i32 = 0;
        while row < side
            invariant
                0 <= row <= side <= 4,
                tetromino.wf(),
                side == tetromino.side == piece.side(),
                tetromino.data@ == crate::tetromino::shape_data(piece.shape),
                old(self)@.wf(),
                before == old(self)@.board,
                piece == old(self)@.piece,
                -4 < piece.row < HEIGHT,
                -4 < piece.col < WIDTH,
                self@.wf(),
                self@ == (GameModel { board: self@.board, ..old(self)@ }),
                self@.board == merged_upto(before, piece, row as int, 0),
            decreases side - row,
        {
            let mut col: i32 = 0;
            while col < side
                invariant
                    0 <= row < side <= 4,
                    0 <= col <= side,
                    tetromino.wf(),
                    side == tetromino.side == piece.side(),
                    tetromino.data@ == crate::tetromino::shape_data(piece.shape),
                    old(self)@.wf(),
                    before == old(self)@.board,
                    piece == old(self)@.piece,
                    -4 < piece.row < HEIGHT,
                    -4 < piece.col < WIDTH,
                    self@.wf(),
                    self@ == (GameModel { board: self@.board, ..old(self)@ }),
                    self@.board == merged_upto(before, piece, row as int, col as int),
                decreases side - col,
            {
                let value: u8 = tetromino.tetromino_get(row, col, self.piece.rotation);
                let ghost current = self@.board;
                proof {
                    lemma_shape_cell_code(piece.shape, row as int, col as int, piece.rotation);
                }
                if value != 0 {
                    let board_row: i32 = self.piece.offset_row + row;
                    let board_col: i32 = self.piece.offset_col + col;
                    if board_row >= 0 && board_row < HEIGHT as i32 && board_col >= 0 && board_col
                        < WIDTH as i32 {
                        proof {
                            lemma_cell_index(
                                WIDTH as int,
                                HEIGHT as int,
                                board_row as int,
                                board_col as int,
                            );
                        }
                        self.matrix_set(WIDTH as i32, board_row, board_col, value);
                    }
                }
                proof {
                    assert(piece.cell_at(piece.row + row, piece.col + col) == value);
                    assert(self@.board =~= merged_upto(before, piece, row as int, col + 1));
                }
                col += 1;
            }
            proof {
                assert(self@.board =~= merged_upto(before, piece, row + 1, 0));
            }
            row += 1;
        }
        proof {
            assert(self@.board =~= merged(before, piece, WIDTH as int, HEIGHT as int));
        }
        self.index_buffer.next = random_int(0, 7);
    }

    /// Puts the waiting shape into play, centred at the top, shows the
    /// shape to come, and lets gravity wait anew.
    pub(crate) fn spawn_piece(&mut self)
        requires
            old(self)@.wf(),
            old(self)@.clock_has_room(),
        ensures
            final(self)@ == old(self)@.spawned(),
            final(self)@.wf(),
    {
        proof {
            lemma_spawned_piece_inside(self@.current_id);
            lemma_spawned_piece_inside(self@.next_id);
            lemma_drop_interval_bounds(self@.level);
        }
        self.piece_next = Piece_State::new(self.index_buffer.next);
        let mut piece: Piece_State = Piece_State::new(self.index_buffer.current);
        piece.offset_col = (WIDTH as i32) / 2 - (tetromino(piece.tetromino_index).side / 2);
        self.piece = piece;
        self.index_buffer.current = self.index_buffer.next;
        self.next_drop_time = self.time + self.get_time_to_next_drop();
    }

    /// One drop step. The falling piece moves one row down and `true` comes
    /// back; or it cannot, locks where it is, the next piece spawns, and
    /// `false` comes back. Either way gravity waits anew.
    pub fn soft_drop(&mut self) -> (falling: bool)
        requires
            old(self)@.wf(),
            old(self)@.clock_has_room(),
        ensures
            falling == old(self)@.can_fall(),
            final(self)@ == old(self)@.drop_step(final(self)@.next_id),
            final(self)@.wf(),
    {
        proof {
            lemma_inside_bounds_corner(self@.piece, WIDTH as int, HEIGHT as int);
            lemma_drop_interval_bounds(self@.level);
        }
        let mut below: Piece_State = self.piece;
        below.move_down();
        if !below.check_piece_valid(self, WIDTH as i32, HEIGHT as i32) {
            self.merge_piece();
            self.spawn_piece();
            return false;
        }
        self.piece = below;
        self.next_drop_time = self.time + self.get_time_to_next_drop();
        return true;
    }

    /// A hard drop: drop steps until the piece locks.
    pub fn hard_drop(&mut self)
        requires
            old(self)@.wf(),
            old(self)@.clock_has_room(),
        ensures
            final(self)@ == old(self)@.hard_dropped(final(self)@.next_id),
            final(self)@.wf(),
    {
        let ghost board = self@.board;
        loop
            invariant_except_break
                self@ == (GameModel {
                    piece: self@.piece,
                    next_drop_time: self@.next_drop_time,
                    ..old(self)@
                }),
                landed(self@.piece, board, WIDTH as int, HEIGHT as int) == landed(
                    old(self)@.piece,
                    board,
                    WIDTH as int,
                    HEIGHT as int,
                ),
            invariant
                board == old(self)@.board,
                self@.wf(),
                self@.clock_has_room(),
            ensures
                self@ == old(self)@.hard_dropped(self@.next_id),
            decreases HEIGHT - self@.piece.row,
        {
            proof {
                lemma_inside_bounds_corner(self@.piece, WIDTH as int, HEIGHT as int);
            }
            let ghost resting = self@;
            let falling: bool = self.soft_drop();
            if !falling {
                proof {
                    assert(drop_distance(resting.piece, board, WIDTH as int, HEIGHT as int) == 0);
                    assert(resting.piece.moved(0, 0) == resting.piece);
                }
                break ;
            }
            proof {
                assert(drop_distance(resting.piece, board, WIDTH as int, HEIGHT as int) == 1
                    + drop_distance(self@.piece, board, WIDTH as int, HEIGHT as int));
                assert(resting.piece.moved(
                    1 + drop_distance(self@.piece, board, WIDTH as int, HEIGHT as int),
                    0,
                ) == self@.piece.moved(
                    drop_distance(self@.piece, board, WIDTH as int, HEIGHT as int),
                    0,
                ));
            }
        }
    }
}

} // verus!
