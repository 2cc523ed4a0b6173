//! The seven shapes and the index arithmetic that rotates them.
//!
//! A shape is stored once, as a square matrix in row-major order. A rotated
//! shape is never materialised in executable code: reading cell `(row, col)`
//! of a rotated shape reads one cell of the stored matrix, chosen by
//! [`source_cell`].
use vstd::prelude::*;
use vstd::arithmetic::div_mod::lemma_fundamental_div_mod_converse;

verus! {

/// The bar, on the second row of a 4x4 matrix.
pub const TETRINO_1: [u8; 16] = [0, 0, 0, 0, 1, 1, 1, 1, 0, 0, 0, 0, 0, 0, 0, 0];

/// The square.
pub const TETRINO_2: [u8; 4] = [2, 2, 2, 2];

/// The tee.
pub const TETRINO_3: [u8; 9] = [0, 3, 0, 3, 3, 3, 0, 0, 0];

/// The right-leaning skew.
pub const TETRINO_4: [u8; 9] = [0, 4, 4, 4, 4, 0, 0, 0, 0];

/// The left-leaning skew.
pub const TETRINO_5: [u8; 9] = [5, 5, 0, 0, 5, 5, 0, 0, 0];

/// The ell with its hook on the left.
pub const TETRINO_6: [u8; 9] = [6, 0, 0, 6, 6, 6, 0, 0, 0];

/// The ell with its hook on the right.
pub const TETRINO_7: [u8; 9] = [0, 0, 7, 7, 7, 7, 0, 0, 0];

/// How many shapes the catalogue holds.
pub const TETROMINO_COUNT: u8 = 7;

/// A square matrix of cell codes: 0 is empty, 1 to 7 name a colour.
#[derive(Clone, Copy)]
pub struct Tetromino<'a> {
    pub data: &'a [u8],
    pub side: i32,
}

/// The matrix without cells.
pub const NO_CELLS: [u8; 0] = [];

impl<'a> Default for Tetromino<'a> {
    /// The shape without cells.
    fn default() -> (shape: Self)
        ensures
            shape.side == 0,
            shape.data@ == Seq::<u8>::empty(),
    {
        let shape = Tetromino { data: vstd::array::array_as_slice(&NO_CELLS), side: 0 };
        assert(shape.data@ =~= Seq::<u8>::empty());
        shape
    }
}

/// The matrix cell that cell `(row, col)` of the rotated matrix shows.
/// Rotation 1 is a quarter turn clockwise, 2 a half turn, 3 three quarters;
/// any other index turns nothing.
pub open spec fn source_cell(side: int, row: int, col: int, rotation: int) -> (int, int) {
    if rotation == 1 {
        (side - col - 1, row)
    } else if rotation == 2 {
        (side - row - 1, side - col - 1)
    } else if rotation == 3 {
        (col, side - row - 1)
    } else {
        (row, col)
    }
}

/// Cell `(row, col)` of `data` turned by `rotation`. A rotation outside
/// `0..4` shows an empty cell everywhere.
pub open spec fn rotated_cell(data: Seq<u8>, side: int, row: int, col: int, rotation: int) -> u8 {
    if 0 <= rotation < 4 {
        let (r, c) = source_cell(side, row, col, rotation);
        data[r * side + c]
    } else {
        0
    }
}

/// The whole matrix `data` turned by `rotation`, written out in row-major
/// order. Executable code never builds it; the rotation laws speak of it.
pub open spec fn rotated(data: Seq<u8>, side: int, rotation: int) -> Seq<u8> {
    Seq::new(data.len(), |i: int| rotated_cell(data, side, i / side, i % side, rotation))
}

/// The side of shape `id`.
pub open spec fn shape_side(id: int) -> int {
    if id == 0 {
        4
    } else if id == 1 {
        2
    } else {
        3
    }
}

/// The stored matrix of shape `id`.
pub open spec fn shape_data(id: int) -> Seq<u8> {
    if id == 0 {
        TETRINO_1@
    } else if id == 1 {
        TETRINO_2@
    } else if id == 2 {
        TETRINO_3@
    } else if id == 3 {
        TETRINO_4@
    } else if id == 4 {
        TETRINO_5@
    } else if id == 5 {
        TETRINO_6@
    } else {
        TETRINO_7@
    }
}

/// Cell `(row, col)` of shape `id` turned by `rotation`.
pub open spec fn shape_cell(id: int, row: int, col: int, rotation: int) -> u8 {
    rotated_cell(shape_data(id), shape_side(id), row, col, rotation)
}

impl<'a> Tetromino<'a> {
    /// The matrix is square: `data` holds `side` rows of `side` cells.
    pub open spec fn wf(&self) -> bool {
        0 <= self.side && self.data@.len() == self.side * self.side
    }

    /// Reads cell `(row, col)` of the matrix turned by `rotation`.
    pub fn tetromino_get(&self, row: i32, col: i32, rotation: i32) -> (value: u8)
        requires
            self.wf(),
            0 <= rotation < 4 ==> 0 <= row < self.side && 0 <= col < self.side,
        ensures
            value == rotated_cell(self.data@, self.side as int, row as int, col as int, rotation as int),
    {
        if rotation < 0 || rotation > 3 {
            return 0;
        }
        let side: i64 = self.side as i64;
        let r: i64 = row as i64;
        let c: i64 = col as i64;
        let (source_row, source_col): (i64, i64) = if rotation == 0 {
            (r, c)
        } else if rotation == 1 {
            (side - c - 1, r)
        } else if rotation == 2 {
            (side - r - 1, side - c - 1)
        } else {
            (c, side - r - 1)
        };
        proof {
            lemma_index_in_matrix(side as int, source_row as int, source_col as int);
            assert(side * side <= 0x4000_0000_0000_0000) by (nonlinear_arith)
                requires
                    0 <= side <= 0x7fff_ffff,
            ;
            assert(0 <= source_row * side <= side * side) by (nonlinear_arith)
                requires
                    0 <= source_row < side,
            ;
        }
        let index: i64 = source_row * side + source_col;
        self.data[index as usize]
    }
}

/// Shape `index` of the catalogue.
pub fn tetromino(index: u8) -> (shape: Tetromino<'static>)
    requires
        index < TETROMINO_COUNT,
    ensures
        shape.wf(),
        shape.side == shape_side(index as int),
        shape.data@ == shape_data(index as int),
{
    let shape: Tetromino<'static> = if index == 0 {
        Tetromino { data: vstd::array::array_as_slice(&TETRINO_1), side: 4 }
    } else if index == 1 {
        Tetromino { data: vstd::array::array_as_slice(&TETRINO_2), side: 2 }
    } else if index == 2 {
        Tetromino { data: vstd::array::array_as_slice(&TETRINO_3), side: 3 }
    } else if index == 3 {
        Tetromino { data: vstd::array::array_as_slice(&TETRINO_4), side: 3 }
    } else if index == 4 {
        Tetromino { data: vstd::array::array_as_slice(&TETRINO_5), side: 3 }
    } else if index == 5 {
        Tetromino { data: vstd::array::array_as_slice(&TETRINO_6), side: 3 }
    } else {
        Tetromino { data: vstd::array::array_as_slice(&TETRINO_7), side: 3 }
    };
    assert(shape.data@.len() == shape.side * shape.side) by (nonlinear_arith)
        requires
            shape.side == 4 && shape.data@.len() == 16 || shape.side == 2 && shape.data@.len() == 4
                || shape.side == 3 && shape.data@.len() == 9,
    ;
    shape
}

/// A cell inside a square matrix has its row-major index inside the data.
pub proof fn lemma_index_in_matrix(side: int, row: int, col: int)
    requires
        0 <= row < side,
        0 <= col < side,
    ensures
        0 <= row * side + col < side * side,
        (row * side + col) / side == row,
        (row * side + col) % side == col,
{
    assert(0 <= row * side && row * side + side <= side * side) by (nonlinear_arith)
        requires
            0 <= row < side,
    ;
    lemma_fundamental_div_mod_converse(row * side + col, side, row, col);
}

/// A rotation sends cells of the square to cells of the square.
pub proof fn lemma_source_cell_in_range(side: int, row: int, col: int, rotation: int)
    requires
        0 <= row < side,
        0 <= col < side,
    ensures
        0 <= source_cell(side, row, col, rotation).0 < side,
        0 <= source_cell(side, row, col, rotation).1 < side,
{
}

/// Rotations compose by adding their indices modulo 4: the cell that `second`
/// shows of the cell that `first` shows is the cell that their sum shows.
pub proof fn lemma_source_cell_composes(side: int, row: int, col: int, first: int, second: int)
    requires
        0 <= first < 4,
        0 <= second < 4,
    ensures
        ({
            let (r, c) = source_cell(side, row, col, second);
            source_cell(side, r, c, first)
        }) == source_cell(side, row, col, (first + second) % 4),
{
}

/// Turning by `rotation` and then by `(4 - rotation) % 4` shows every cell
/// where it was.
pub proof fn lemma_source_cell_round_trip(side: int, row: int, col: int, rotation: int)
    requires
        0 <= rotation < 4,
    ensures
        ({
            let (r, c) = source_cell(side, row, col, (4 - rotation) % 4);
            source_cell(side, r, c, rotation)
        }) == (row, col),
        ({
            let (r, c) = source_cell(side, row, col, rotation);
            source_cell(side, r, c, (4 - rotation) % 4)
        }) == (row, col),
{
}

/// Reading a matrix that was turned by `first` through rotation `second`
/// is reading the stored matrix through rotation `(first + second) % 4`.
pub proof fn lemma_rotation_composes(
    data: Seq<u8>,
    side: int,
    row: int,
    col: int,
    first: int,
    second: int,
)
    requires
        data.len() == side * side,
        0 <= row < side,
        0 <= col < side,
        0 <= first < 4,
        0 <= second < 4,
    ensures
        rotated_cell(rotated(data, side, first), side, row, col, second) == rotated_cell(
            data,
            side,
            row,
            col,
            (first + second) % 4,
        ),
{
    let (r, c) = source_cell(side, row, col, second);
    lemma_source_cell_in_range(side, row, col, second);
    lemma_index_in_matrix(side, r, c);
    lemma_source_cell_composes(side, row, col, first, second);
}

/// Rotation is a group of order four on every square matrix: a turn by
/// `rotation` followed by a turn by `(4 - rotation) % 4` gives back each cell.
pub proof fn lemma_rotation_round_trip(data: Seq<u8>, side: int, row: int, col: int, rotation: int)
    requires
        data.len() == side * side,
        0 <= row < side,
        0 <= col < side,
        0 <= rotation < 4,
    ensures
        rotated_cell(rotated(data, side, rotation), side, row, col, (4 - rotation) % 4)
            == data[row * side + col],
        rotated_cell(rotated(data, side, rotation), side, row, col, (4 - rotation) % 4)
            == rotated_cell(data, side, row, col, 0),
{
    lemma_rotation_composes(data, side, row, col, rotation, (4 - rotation) % 4);
}

/// The round trip for the catalogue: whatever the shape and the rotation, the
/// inverse rotation of the rotated shape is the shape as stored.
pub proof fn lemma_shape_round_trip(id: int, row: int, col: int, rotation: int)
    requires
        0 <= id < TETROMINO_COUNT,
        0 <= row < shape_side(id),
        0 <= col < shape_side(id),
        0 <= rotation < 4,
    ensures
        rotated_cell(
            rotated(shape_data(id), shape_side(id), rotation),
            shape_side(id),
            row,
            col,
            (4 - rotation) % 4,
        ) == shape_cell(id, row, col, 0),
{
    lemma_rotation_round_trip(shape_data(id), shape_side(id), row, col, rotation);
}

} // verus!
