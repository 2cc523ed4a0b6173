//! The board as a mathematical object: a sequence of cell codes in row-major
//! order, read through a width. Row scans, the marks they leave, and the
//! compaction that removes marked rows are defined here, with their lemmas.
use vstd::prelude::*;
use vstd::arithmetic::div_mod::{
    lemma_fundamental_div_mod, lemma_fundamental_div_mod_converse, lemma_mod_bound,
};

verus! {

/// Where cell `(row, col)` of a grid of the given width lies in the board.
pub open spec fn cell_index(width: int, row: int, col: int) -> int {
    row * width + col
}

/// A grid of `width` by `height` cells needs no more than `cells` cells. A
/// grid without cells fits anywhere.
pub open spec fn grid_fits(cells: int, width: int, height: int) -> bool {
    width <= 0 || height <= 0 || width * height <= cells
}

/// Row `row` of a grid `width` cells wide lies inside a board of `cells`
/// cells. A row without cells lies anywhere.
pub open spec fn row_fits(cells: int, width: int, row: int) -> bool {
    width <= 0 || (0 <= row && row * width + width <= cells)
}

/// Every cell of the row is occupied.
pub open spec fn row_filled(board: Seq<u8>, width: int, row: int) -> bool {
    forall|col: int| 0 <= col < width ==> board[#[trigger] cell_index(width, row, col)] != 0
}

/// Every cell of the row is free.
pub open spec fn row_empty(board: Seq<u8>, width: int, row: int) -> bool {
    forall|col: int| 0 <= col < width ==> board[#[trigger] cell_index(width, row, col)] == 0
}

/// The mark that a scan leaves on a row: 1 if it is filled, 0 if not.
pub open spec fn row_mark(board: Seq<u8>, width: int, row: int) -> u8 {
    if row_filled(board, width, row) {
        1
    } else {
        0
    }
}

/// How many of the rows `0..height` are filled.
pub open spec fn filled_count(board: Seq<u8>, width: int, height: int) -> int
    decreases height,
{
    if height <= 0 {
        0
    } else {
        filled_count(board, width, height - 1) + row_mark(board, width, height - 1)
    }
}

/// The marks after a scan of the rows `0..height`; marks of other rows stay.
pub open spec fn scanned_marks(before: Seq<u8>, board: Seq<u8>, width: int, height: int) -> Seq<
    u8,
> {
    Seq::new(
        before.len(),
        |row: int|
            if row < height {
                row_mark(board, width, row)
            } else {
                before[row]
            },
    )
}

/// The nearest unmarked row at or above `row` (rows count downwards, so
/// "above" is a smaller index), or -1 if every such row is marked.
pub open spec fn unmarked_at_or_above(marks: Seq<u8>, row: int) -> int
    decreases row + 1,
{
    if row < 0 {
        -1
    } else if marks[row] == 0 {
        row
    } else {
        unmarked_at_or_above(marks, row - 1)
    }
}

/// The row whose cells row `dst` holds after compaction of the rows
/// `0..height`: counting from the bottom, the unmarked row number
/// `height - dst`; or -1 if there are not that many.
pub open spec fn source_row(marks: Seq<u8>, height: int, dst: int) -> int
    decreases height - dst,
{
    if dst >= height - 1 {
        unmarked_at_or_above(marks, height - 1)
    } else {
        unmarked_at_or_above(marks, source_row(marks, height, dst + 1) - 1)
    }
}

/// One cell of the compacted board. Row 0 is never written; a row below it
/// takes the cells of its source row, or becomes empty where it has none.
/// Cells outside the grid stay.
pub open spec fn compacted_cell(
    board: Seq<u8>,
    marks: Seq<u8>,
    width: int,
    height: int,
    i: int,
) -> u8 {
    if 0 < width && width <= i < width * height {
        let src = source_row(marks, height, i / width);
        if src >= 0 {
            board[cell_index(width, src, i % width)]
        } else {
            0
        }
    } else {
        board[i]
    }
}

/// The board after the marked rows among `0..height` have been removed and
/// the rows above them have moved down.
pub open spec fn compacted(board: Seq<u8>, marks: Seq<u8>, width: int, height: int) -> Seq<u8> {
    Seq::new(board.len(), |i: int| compacted_cell(board, marks, width, height, i))
}

/// A cell of the grid lies inside the board, and its index gives back its
/// row and column.
pub proof fn lemma_cell_index(width: int, height: int, row: int, col: int)
    requires
        0 <= row < height,
        0 <= col < width,
    ensures
        0 <= cell_index(width, row, col) < width * height,
        row * width <= cell_index(width, row, col) < row * width + width,
        row * width + width <= width * height,
        cell_index(width, row, col) / width == row,
        cell_index(width, row, col) % width == col,
{
    assert(0 <= row * width && (row + 1) * width <= width * height && (row + 1) * width == row
        * width + width) by (nonlinear_arith)
        requires
            0 <= row < height,
            0 <= width,
    ;
    lemma_fundamental_div_mod_converse(row * width + col, width, row, col);
}

/// Cells of different rows are different cells.
pub proof fn lemma_rows_apart(width: int, row: int, col: int, other_row: int, other_col: int)
    requires
        0 <= col < width,
        0 <= other_col < width,
        row != other_row,
    ensures
        cell_index(width, row, col) != cell_index(width, other_row, other_col),
{
    assert(row * width + col != other_row * width + other_col) by (nonlinear_arith)
        requires
            0 <= col < width,
            0 <= other_col < width,
            row != other_row,
    ;
}

/// The cells of a row come before the cells of every row below it.
pub proof fn lemma_rows_in_order(width: int, row: int, below: int)
    requires
        0 <= width,
        row < below,
    ensures
        row * width + width <= below * width,
{
    assert(row * width + width <= below * width) by (nonlinear_arith)
        requires
            0 <= width,
            row < below,
    ;
}

/// Every row of a grid that fits a board lies inside the board.
pub proof fn lemma_row_fits(cells: int, width: int, height: int, row: int)
    requires
        grid_fits(cells, width, height),
        0 <= row < height,
    ensures
        row_fits(cells, width, row),
{
    if width > 0 {
        assert(row * width + width <= width * height) by (nonlinear_arith)
            requires
                0 <= row < height,
                0 < width,
        ;
    }
}

/// A board index inside the grid is the index of a cell of the grid: of the
/// cell in row `i / width` and column `i % width`.
pub proof fn lemma_index_in_grid(width: int, height: int, i: int)
    requires
        0 < width,
        0 <= i < width * height,
    ensures
        0 <= i / width < height,
        0 <= i % width < width,
        i == cell_index(width, i / width, i % width),
{
    lemma_fundamental_div_mod(i, width);
    lemma_mod_bound(i, width);
    assert(0 <= i / width < height) by (nonlinear_arith)
        requires
            0 < width,
            0 <= i < width * height,
            i == width * (i / width) + i % width,
            0 <= i % width < width,
    ;
    assert(width * (i / width) == (i / width) * width) by (nonlinear_arith);
}

/// A row cannot be filled and empty at once, unless it has no cells.
pub proof fn lemma_filled_excludes_empty(board: Seq<u8>, width: int, row: int)
    requires
        width > 0,
    ensures
        !(row_filled(board, width, row) && row_empty(board, width, row)),
{
    if row_filled(board, width, row) && row_empty(board, width, row) {
        assert(board[cell_index(width, row, 0)] != 0);
        assert(board[cell_index(width, row, 0)] == 0);
    }
}

/// No more rows are filled than were scanned.
pub proof fn lemma_filled_count_bounds(board: Seq<u8>, width: int, height: int)
    ensures
        0 <= filled_count(board, width, height),
        filled_count(board, width, height) <= if height < 0 { 0 } else { height },
    decreases height,
{
    if height > 0 {
        lemma_filled_count_bounds(board, width, height - 1);
    }
}

/// Rows are counted as filled exactly where one of the scanned rows is
/// filled.
pub proof fn lemma_filled_count_finds_rows(board: Seq<u8>, width: int, height: int)
    ensures
        filled_count(board, width, height) > 0 <==> exists|row: int|
            0 <= row < height && #[trigger] row_filled(board, width, row),
    decreases height,
{
    if height > 0 {
        lemma_filled_count_finds_rows(board, width, height - 1);
        lemma_filled_count_bounds(board, width, height - 1);
        if filled_count(board, width, height - 1) > 0 {
            let row = choose|row: int|
                0 <= row < height - 1 && #[trigger] row_filled(board, width, row);
            assert(0 <= row < height && row_filled(board, width, row));
        } else if row_filled(board, width, height - 1) {
            assert(0 <= height - 1 < height && row_filled(board, width, height - 1));
        } else {
            assert forall|row: int| 0 <= row < height implies !#[trigger] row_filled(
                board,
                width,
                row,
            ) by {
                if row < height - 1 {
                    assert(!(0 <= row < height - 1 && row_filled(board, width, row)));
                }
            }
        }
    }
}

/// The search for an unmarked row ends on an unmarked row at or above its
/// start, with only marked rows in between, or finds none.
pub proof fn lemma_unmarked_at_or_above(marks: Seq<u8>, row: int)
    ensures
        -1 <= unmarked_at_or_above(marks, row),
        unmarked_at_or_above(marks, row) <= row || row < -1,
        unmarked_at_or_above(marks, row) >= 0 ==> marks[unmarked_at_or_above(marks, row)] == 0,
        forall|r: int| unmarked_at_or_above(marks, row) < r <= row ==> #[trigger] marks[r] != 0,
    decreases row + 1,
{
    if row >= 0 && marks[row] != 0 {
        lemma_unmarked_at_or_above(marks, row - 1);
    }
}

/// A row takes its cells from itself or from above, from an unmarked row, and
/// rows further down take theirs from further down.
pub proof fn lemma_source_row(marks: Seq<u8>, height: int, dst: int)
    requires
        0 <= dst < height,
    ensures
        -1 <= source_row(marks, height, dst) <= dst,
        source_row(marks, height, dst) >= 0 ==> marks[source_row(marks, height, dst)] == 0,
        dst + 1 < height && source_row(marks, height, dst + 1) >= 0 ==> source_row(
            marks,
            height,
            dst,
        ) < source_row(marks, height, dst + 1),
    decreases height - dst,
{
    if dst >= height - 1 {
        lemma_unmarked_at_or_above(marks, height - 1);
    } else {
        lemma_source_row(marks, height, dst + 1);
        lemma_unmarked_at_or_above(marks, source_row(marks, height, dst + 1) - 1);
    }
}


/// How many of the rows `lo..hi` are marked.
pub open spec fn marked_count(marks: Seq<u8>, lo: int, hi: int) -> int
    decreases hi - lo,
{
    if hi <= lo {
        0
    } else {
        marked_count(marks, lo, hi - 1) + if marks[hi - 1] != 0 {
            1int
        } else {
            0int
        }
    }
}

/// No more rows are marked than there are, and the count over a range is
/// the sum of the counts over its two parts.
pub proof fn lemma_marked_count(marks: Seq<u8>, lo: int, mid: int, hi: int)
    requires
        lo <= mid <= hi,
    ensures
        0 <= marked_count(marks, lo, hi) <= hi - lo,
        marked_count(marks, lo, hi) == marked_count(marks, lo, mid) + marked_count(marks, mid, hi),
    decreases hi - lo,
{
    if mid < hi {
        lemma_marked_count(marks, lo, mid, hi - 1);
        lemma_marked_count(marks, mid, mid, hi - 1);
    } else if lo < hi {
        lemma_marked_count(marks, lo, lo, hi - 1);
    }
}

/// Where every row of a range is marked, the count is the length of the
/// range.
proof fn lemma_marked_count_of_marked_rows(marks: Seq<u8>, lo: int, hi: int)
    requires
        lo <= hi,
        forall|r: int| lo <= r < hi ==> #[trigger] marks[r] != 0,
    ensures
        marked_count(marks, lo, hi) == hi - lo,
    decreases hi - lo,
{
    if lo < hi {
        lemma_marked_count_of_marked_rows(marks, lo, hi - 1);
    }
}

/// The search from `row` upwards ends on `kept`, if `kept` is not marked and
/// every row between them is.
proof fn lemma_search_ends_on(marks: Seq<u8>, row: int, kept: int)
    requires
        0 <= kept <= row,
        marks[kept] == 0,
        forall|r: int| kept < r <= row ==> #[trigger] marks[r] != 0,
    ensures
        unmarked_at_or_above(marks, row) == kept,
    decreases row - kept,
{
    if kept < row {
        lemma_search_ends_on(marks, row - 1, kept);
    }
}

/// A row that has a source lies as far below it as there are marked rows
/// below the source. So where `n` rows are marked, no row of `0..n` has a
/// source.
pub proof fn lemma_source_row_distance(marks: Seq<u8>, height: int, dst: int)
    requires
        0 <= dst < height,
        source_row(marks, height, dst) >= 0,
    ensures
        dst == source_row(marks, height, dst) + marked_count(
            marks,
            source_row(marks, height, dst) + 1,
            height,
        ),
        dst >= marked_count(marks, 0, height),
    decreases height - dst,
{
    let src = source_row(marks, height, dst);
    lemma_source_row(marks, height, dst);
    if dst >= height - 1 {
        lemma_unmarked_at_or_above(marks, height - 1);
        lemma_marked_count_of_marked_rows(marks, src + 1, height);
    } else {
        let below = source_row(marks, height, dst + 1);
        lemma_unmarked_at_or_above(marks, below - 1);
        lemma_source_row(marks, height, dst + 1);
        lemma_source_row_distance(marks, height, dst + 1);
        lemma_marked_count_of_marked_rows(marks, src + 1, below);
        lemma_marked_count(marks, src + 1, below, height);
        lemma_marked_count(marks, below, below + 1, height);
        assert(marked_count(marks, below, below + 1) == 0) by {
            assert(marked_count(marks, below, below) == 0);
        }
    }
    lemma_marked_count(marks, 0, src, height);
    lemma_marked_count(marks, 0, 0, src);
    lemma_marked_count(marks, src, src + 1, height);
    assert(marked_count(marks, src, src + 1) == 0) by {
        assert(marked_count(marks, src, src) == 0);
    }
}

/// The first unmarked row among `from..height`, or `height` if every one of
/// them is marked.
pub open spec fn next_unmarked(marks: Seq<u8>, from: int, height: int) -> int
    decreases height - from,
{
    if from >= height {
        height
    } else if marks[from] == 0 {
        from
    } else {
        next_unmarked(marks, from + 1, height)
    }
}

/// The search downwards ends on an unmarked row, with only marked rows
/// before it, or at the end of the grid.
proof fn lemma_next_unmarked(marks: Seq<u8>, from: int, height: int)
    requires
        from <= height,
    ensures
        from <= next_unmarked(marks, from, height) <= height,
        next_unmarked(marks, from, height) < height ==> marks[next_unmarked(marks, from, height)]
            == 0,
        forall|r: int| from <= r < next_unmarked(marks, from, height) ==> #[trigger] marks[r] != 0,
    decreases height - from,
{
    if from < height && marks[from] != 0 {
        lemma_next_unmarked(marks, from + 1, height);
    }
}

/// Compaction moves every unmarked row down by the number of marked rows
/// below it: that row is its destination, and the destination's source.
pub proof fn lemma_kept_row_destination(marks: Seq<u8>, height: int, kept: int)
    requires
        0 <= kept < height,
        marks[kept] == 0,
    ensures
        kept <= kept + marked_count(marks, kept + 1, height) < height,
        source_row(marks, height, kept + marked_count(marks, kept + 1, height)) == kept,
    decreases height - kept,
{
    lemma_marked_count(marks, kept + 1, kept + 1, height);
    let next = next_unmarked(marks, kept + 1, height);
    lemma_next_unmarked(marks, kept + 1, height);
    lemma_marked_count_of_marked_rows(marks, kept + 1, next);
    lemma_marked_count(marks, kept + 1, next, height);
    if next >= height {
        lemma_search_ends_on(marks, height - 1, kept);
    } else {
        lemma_kept_row_destination(marks, height, next);
        lemma_marked_count(marks, next, next + 1, height);
        assert(marked_count(marks, next, next + 1) == 0) by {
            assert(marked_count(marks, next, next) == 0);
        }
        let below = next + marked_count(marks, next + 1, height);
        assert(kept + marked_count(marks, kept + 1, height) == below - 1);
        lemma_search_ends_on(marks, next - 1, kept);
    }
}

/// What compaction does to the cells: every unmarked row is found again,
/// cell for cell, as many rows further down as there were marked rows below
/// it.
pub proof fn lemma_compaction_moves_rows_down(
    board: Seq<u8>,
    marks: Seq<u8>,
    width: int,
    height: int,
    row: int,
    col: int,
)
    requires
        0 < width,
        width * height <= board.len(),
        0 <= row < height,
        0 <= col < width,
        marks[row] == 0,
    ensures
        compacted(board, marks, width, height)[cell_index(
            width,
            row + marked_count(marks, row + 1, height),
            col,
        )] == board[cell_index(width, row, col)],
{
    let dst = row + marked_count(marks, row + 1, height);
    lemma_kept_row_destination(marks, height, row);
    lemma_cell_index(width, height, dst, col);
    lemma_cell_index(width, height, row, col);
    if dst >= 1 {
        lemma_rows_in_order(width, 0, dst);
    } else {
        assert(row == 0);
    }
}

/// What compaction does to the top: where `n` rows were marked, the rows
/// `1..n` become empty.
pub proof fn lemma_compaction_empties_the_top(
    board: Seq<u8>,
    marks: Seq<u8>,
    width: int,
    height: int,
    row: int,
    col: int,
)
    requires
        0 < width,
        width * height <= board.len(),
        1 <= row < marked_count(marks, 0, height),
        0 <= col < width,
    ensures
        row < height,
        compacted(board, marks, width, height)[cell_index(width, row, col)] == 0,
{
    if height <= 0 {
        assert(marked_count(marks, 0, height) == 0);
    }
    lemma_marked_count(marks, 0, 0, height);
    lemma_source_row(marks, height, row);
    if source_row(marks, height, row) >= 0 {
        lemma_source_row_distance(marks, height, row);
    }
    lemma_cell_index(width, height, row, col);
    lemma_rows_in_order(width, 0, row);
}

/// Compaction leaves the top row as it was.
pub proof fn lemma_compaction_keeps_the_top_row(
    board: Seq<u8>,
    marks: Seq<u8>,
    width: int,
    height: int,
    col: int,
)
    requires
        0 <= col < width,
        width <= board.len(),
    ensures
        compacted(board, marks, width, height)[cell_index(width, 0, col)] == board[cell_index(
            width,
            0,
            col,
        )],
{
}

} // verus!
