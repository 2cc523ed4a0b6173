//! A placed piece as a mathematical object: which shape, where, and turned
//! how far; which board cells it covers; when it is valid on a board; and
//! what a board looks like once the piece has been merged into it.
use vstd::prelude::*;
use crate::game::{HEIGHT, WIDTH};
use crate::grid::{cell_index, lemma_cell_index};
use crate::tetromino::{
    lemma_source_cell_round_trip, rotated_cell, shape_cell, shape_data, shape_side, source_cell,
    TETROMINO_COUNT,
};

verus! {

/// A piece: shape `shape` with the top left corner of its matrix at board
/// cell `(row, col)`, turned by `rotation` quarter turns.
pub struct PieceModel {
    pub shape: int,
    pub row: int,
    pub col: int,
    pub rotation: int,
}

impl PieceModel {
    /// The side of the piece's matrix.
    pub open spec fn side(self) -> int {
        shape_side(self.shape)
    }

    /// Cell `(r, c)` of the piece's matrix as it is turned now.
    pub open spec fn cell(self, r: int, c: int) -> u8 {
        shape_cell(self.shape, r, c, self.rotation)
    }

    /// The code that the piece puts on board cell `(row, col)`, or 0 where
    /// it covers nothing.
    pub open spec fn cell_at(self, row: int, col: int) -> u8 {
        let r = row - self.row;
        let c = col - self.col;
        if 0 <= r < self.side() && 0 <= c < self.side() {
            self.cell(r, c)
        } else {
            0
        }
    }

    /// The piece moved by `rows` down and `cols` to the right.
    pub open spec fn moved(self, rows: int, cols: int) -> Self {
        PieceModel { row: self.row + rows, col: self.col + cols, ..self }
    }

    /// The piece turned one quarter turn further.
    pub open spec fn turned(self) -> Self {
        PieceModel { rotation: (self.rotation + 1) % 4, ..self }
    }

    /// It names a shape of the catalogue and one of the four rotations.
    pub open spec fn wf(self) -> bool {
        0 <= self.shape < TETROMINO_COUNT && 0 <= self.rotation < 4
    }

    /// Every occupied cell of the piece lies on the grid.
    pub open spec fn inside(self, width: int, height: int) -> bool {
        forall|r: int, c: int|
            0 <= r < self.side() && 0 <= c < self.side() && #[trigger] self.cell(r, c) != 0 ==> 0
                <= self.row + r < height && 0 <= self.col + c < width
    }

    /// Every occupied cell of the piece lies on the grid, on a free cell of
    /// the board.
    pub open spec fn valid_on(self, board: Seq<u8>, width: int, height: int) -> bool {
        forall|r: int, c: int|
            0 <= r < self.side() && 0 <= c < self.side() && #[trigger] self.cell(r, c) != 0 ==> 0
                <= self.row + r < height && 0 <= self.col + c < width && board[cell_index(
                width,
                self.row + r,
                self.col + c,
            )] == 0
    }
}

/// A piece of shape `shape` as it is first made: at the top, its corner on
/// the middle column, not turned.
pub open spec fn fresh_piece(shape: int, width: int) -> PieceModel {
    PieceModel { shape, row: 0, col: width / 2, rotation: 0 }
}

/// A piece of shape `shape` as it enters play: at the top, centred for the
/// side of its shape, not turned.
pub open spec fn spawned_piece(shape: int, width: int) -> PieceModel {
    PieceModel { shape, row: 0, col: width / 2 - shape_side(shape) / 2, rotation: 0 }
}

/// The board with the piece written into it: each board cell of the grid that
/// the piece covers takes the piece's code, every other cell stays.
pub open spec fn merged(board: Seq<u8>, piece: PieceModel, width: int, height: int) -> Seq<u8> {
    Seq::new(
        board.len(),
        |i: int|
            if 0 < width && i < width * height && piece.cell_at(i / width, i % width) != 0 {
                piece.cell_at(i / width, i % width)
            } else {
                board[i]
            },
    )
}

/// How many rows the piece can fall on the board before the row below is
/// not valid for it.
pub open spec fn drop_distance(piece: PieceModel, board: Seq<u8>, width: int, height: int) -> int
    decreases height - piece.row,
{
    if piece.row < height && piece.moved(1, 0).valid_on(board, width, height) {
        1 + drop_distance(piece.moved(1, 0), board, width, height)
    } else {
        0
    }
}

/// The piece where it comes to rest when it falls as far as it can.
pub open spec fn landed(piece: PieceModel, board: Seq<u8>, width: int, height: int) -> PieceModel {
    piece.moved(drop_distance(piece, board, width, height), 0)
}

/// A cell of a shape of the catalogue is empty or holds the shape's own
/// code, which is its number plus one.
pub proof fn lemma_shape_cell_code(id: int, r: int, c: int, rotation: int)
    requires
        0 <= id < TETROMINO_COUNT,
        0 <= r < shape_side(id),
        0 <= c < shape_side(id),
    ensures
        shape_cell(id, r, c, rotation) == 0 || shape_cell(id, r, c, rotation) == id + 1,
        shape_cell(id, r, c, rotation) <= 7,
{
    if 0 <= rotation < 4 {
        let (sr, sc) = source_cell(shape_side(id), r, c, rotation);
        assert(0 <= sr < shape_side(id) && 0 <= sc < shape_side(id));
    }
}

/// Every shape of the catalogue has an occupied cell as it is stored.
proof fn lemma_shape_has_stored_cell(id: int) -> (at: (int, int))
    requires
        0 <= id < TETROMINO_COUNT,
    ensures
        0 <= at.0 < shape_side(id),
        0 <= at.1 < shape_side(id),
        shape_cell(id, at.0, at.1, 0) != 0,
{
    let data = shape_data(id);
    if id == 0 {
        assert(rotated_cell(data, 4, 1, 0, 0) == data[4] && data[4] == 1);
        (1, 0)
    } else if id == 1 {
        assert(rotated_cell(data, 2, 0, 0, 0) == data[0] && data[0] == 2);
        (0, 0)
    } else if id == 2 {
        assert(rotated_cell(data, 3, 0, 1, 0) == data[1] && data[1] == 3);
        (0, 1)
    } else if id == 3 {
        assert(rotated_cell(data, 3, 0, 1, 0) == data[1] && data[1] == 4);
        (0, 1)
    } else if id == 4 {
        assert(rotated_cell(data, 3, 0, 0, 0) == data[0] && data[0] == 5);
        (0, 0)
    } else if id == 5 {
        assert(rotated_cell(data, 3, 0, 0, 0) == data[0] && data[0] == 6);
        (0, 0)
    } else {
        assert(rotated_cell(data, 3, 0, 2, 0) == data[2] && data[2] == 7);
        (0, 2)
    }
}

/// Every shape of the catalogue, however turned, has an occupied cell.
pub proof fn lemma_shape_has_cell(id: int, rotation: int) -> (at: (int, int))
    requires
        0 <= id < TETROMINO_COUNT,
        0 <= rotation < 4,
    ensures
        0 <= at.0 < shape_side(id),
        0 <= at.1 < shape_side(id),
        shape_cell(id, at.0, at.1, rotation) != 0,
{
    let base = lemma_shape_has_stored_cell(id);
    let side = shape_side(id);
    let at = source_cell(side, base.0, base.1, (4 - rotation) % 4);
    lemma_source_cell_round_trip(side, base.0, base.1, rotation);
    assert(source_cell(side, at.0, at.1, rotation) == base);
    assert(shape_cell(id, at.0, at.1, rotation) == shape_data(id)[base.0 * side + base.1]);
    assert(shape_cell(id, base.0, base.1, 0) == shape_data(id)[base.0 * side + base.1]);
    at
}

/// A piece with an occupied cell off the grid, or on an occupied cell of the
/// board, is not valid.
pub proof fn lemma_overlap_or_outside_is_invalid(
    piece: PieceModel,
    board: Seq<u8>,
    width: int,
    height: int,
    r: int,
    c: int,
)
    requires
        0 <= r < piece.side(),
        0 <= c < piece.side(),
        piece.cell(r, c) != 0,
        !(0 <= piece.row + r < height) || !(0 <= piece.col + c < width) || board[cell_index(
            width,
            piece.row + r,
            piece.col + c,
        )] != 0,
    ensures
        !piece.valid_on(board, width, height),
{
}

/// On a board whose grid is empty, a piece that lies inside the grid is
/// valid.
pub proof fn lemma_inside_empty_grid_is_valid(
    piece: PieceModel,
    board: Seq<u8>,
    width: int,
    height: int,
)
    requires
        piece.inside(width, height),
        forall|row: int, col: int|
            0 <= row < height && 0 <= col < width ==> board[#[trigger] cell_index(width, row, col)]
                == 0,
    ensures
        piece.valid_on(board, width, height),
{
    assert forall|r: int, c: int|
        0 <= r < piece.side() && 0 <= c < piece.side() && #[trigger] piece.cell(r, c)
            != 0 implies 0 <= piece.row + r < height && 0 <= piece.col + c < width && board[cell_index(
        width,
        piece.row + r,
        piece.col + c,
    )] == 0 by {
        let _ = cell_index(width, piece.row + r, piece.col + c);
    }
}

/// A piece of the catalogue that lies inside the grid has its corner within
/// three cells of it.
pub proof fn lemma_inside_bounds_corner(piece: PieceModel, width: int, height: int)
    requires
        piece.wf(),
        piece.inside(width, height),
    ensures
        -4 < piece.row < height,
        -4 < piece.col < width,
{
    let at = lemma_shape_has_cell(piece.shape, piece.rotation);
    assert(piece.cell(at.0, at.1) != 0);
}


/// A piece as it enters play lies inside the grid of the board, whatever its
/// shape.
pub proof fn lemma_spawned_piece_inside(shape: int)
    requires
        0 <= shape < TETROMINO_COUNT,
    ensures
        spawned_piece(shape, WIDTH as int).wf(),
        spawned_piece(shape, WIDTH as int).inside(WIDTH as int, HEIGHT as int),
        fresh_piece(shape, WIDTH as int).wf(),
        fresh_piece(shape, WIDTH as int).inside(WIDTH as int, HEIGHT as int),
{
}

/// A piece falls through valid rows only, and stops above one that is not
/// valid for it.
pub proof fn lemma_drop_distance(piece: PieceModel, board: Seq<u8>, width: int, height: int)
    requires
        piece.wf(),
    ensures
        0 <= drop_distance(piece, board, width, height),
        forall|k: int|
            1 <= k <= drop_distance(piece, board, width, height) ==> (#[trigger] piece.moved(
                k,
                0,
            )).valid_on(board, width, height),
        !piece.moved(drop_distance(piece, board, width, height) + 1, 0).valid_on(
            board,
            width,
            height,
        ),
    decreases height - piece.row,
{
    let below = piece.moved(1, 0);
    if below.valid_on(board, width, height) {
        lemma_inside_bounds_corner(below, width, height);
        lemma_drop_distance(below, board, width, height);
        let rest = drop_distance(below, board, width, height);
        assert(drop_distance(piece, board, width, height) == 1 + rest);
        assert forall|k: int| 1 <= k <= 1 + rest implies (#[trigger] piece.moved(k, 0)).valid_on(
            board,
            width,
            height,
        ) by {
            if k > 1 {
                assert(piece.moved(k, 0) == below.moved(k - 1, 0));
            }
        }
        assert(piece.moved(1 + rest + 1, 0) == below.moved(rest + 1, 0));
    }
}

/// Merging writes every occupied cell of a piece that lies inside the grid
/// into the board, at the cell it covers, and leaves every other cell as it
/// was.
pub proof fn lemma_merged_cells(board: Seq<u8>, piece: PieceModel, width: int, height: int)
    requires
        piece.inside(width, height),
        0 < width,
        width * height <= board.len(),
    ensures
        merged(board, piece, width, height).len() == board.len(),
        forall|r: int, c: int|
            0 <= r < piece.side() && 0 <= c < piece.side() && #[trigger] piece.cell(r, c) != 0
                ==> merged(board, piece, width, height)[cell_index(
                width,
                piece.row + r,
                piece.col + c,
            )] == piece.cell(r, c),
        forall|row: int, col: int|
            0 <= row < height && 0 <= col < width && piece.cell_at(row, col) == 0 ==> merged(
                board,
                piece,
                width,
                height,
            )[#[trigger] cell_index(width, row, col)] == board[cell_index(width, row, col)],
        forall|i: int|
            0 <= i < board.len() && width * height <= i ==> #[trigger] merged(
                board,
                piece,
                width,
                height,
            )[i] == board[i],
{
    assert forall|r: int, c: int|
        0 <= r < piece.side() && 0 <= c < piece.side() && #[trigger] piece.cell(r, c)
            != 0 implies merged(board, piece, width, height)[cell_index(
        width,
        piece.row + r,
        piece.col + c,
    )] == piece.cell(r, c) by {
        lemma_cell_index(width, height, piece.row + r, piece.col + c);
    }
    assert forall|row: int, col: int|
        0 <= row < height && 0 <= col < width && piece.cell_at(row, col) == 0 implies merged(
        board,
        piece,
        width,
        height,
    )[#[trigger] cell_index(width, row, col)] == board[cell_index(width, row, col)] by {
        lemma_cell_index(width, height, row, col);
    }
}

} // verus!
