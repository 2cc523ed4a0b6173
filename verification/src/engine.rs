//! What the game does to its board: scanning rows, marking the filled ones,
//! and removing marked rows.
use vstd::prelude::*;
use crate::game::{Game_State, HEIGHT};
use crate::grid::{
    cell_index, compacted, filled_count, grid_fits, lemma_cell_index, lemma_filled_count_bounds,
    lemma_index_in_grid, lemma_row_fits, lemma_rows_apart, lemma_rows_in_order, lemma_source_row,
    row_empty, row_filled, row_fits, row_mark, scanned_marks, source_row, unmarked_at_or_above,
};
use crate::model::GameModel;

verus! {

impl Game_State {
    /// 1 if every cell of the row is occupied, 0 if one is free.
    pub fn check_row_filled(&self, width: i32, row: i32) -> (filled: u8)
        requires
            self@.wf(),
            row_fits(self@.board.len() as int, width as int, row as int),
        ensures
            filled == row_mark(self@.board, width as int, row as int),
            (filled == 1) == row_filled(self@.board, width as int, row as int),
    {
        let mut col: i32 = 0;
        while col < width
            invariant
                0 <= col,
                self@.wf(),
                row_fits(self@.board.len() as int, width as int, row as int),
                forall|c: int|
                    0 <= c < col ==> self@.board[#[trigger] cell_index(width as int, row as int, c)]
                        != 0,
            decreases width - col,
        {
            proof {
                lemma_cell_index(width as int, row + 1, row as int, col as int);
            }
            if self.matrix_get(width, row, col) == 0 {
                return 0;
            }
            col += 1;
        }
        return 1;
    }

    /// 1 if every cell of the row is free, 0 if one is occupied.
    pub fn check_row_empty(&self, width: i32, row: i32) -> (empty: u8)
        requires
            self@.wf(),
            row_fits(self@.board.len() as int, width as int, row as int),
        ensures
            (empty == 1) == row_empty(self@.board, width as int, row as int),
            empty <= 1,
    {
        let mut col: i32 = 0;
        while col < width
            invariant
                0 <= col,
                self@.wf(),
                row_fits(self@.board.len() as int, width as int, row as int),
                forall|c: int|
                    0 <= c < col ==> self@.board[#[trigger] cell_index(width as int, row as int, c)]
                        == 0,
            decreases width - col,
        {
            proof {
                lemma_cell_index(width as int, row + 1, row as int, col as int);
            }
            if self.matrix_get(width, row, col) != 0 {
                return 0;
            }
            col += 1;
        }
        return 1;
    }

    /// Scans the rows `0..height`, marks each as filled or not, and counts
    /// the filled ones.
    pub fn find_lines(&mut self, width: i32, height: i32) -> (count: i32)
        requires
            old(self)@.wf(),
            height <= HEIGHT,
            grid_fits(old(self)@.board.len() as int, width as int, height as int),
        ensures
            final(self)@ == (GameModel {
                lines: scanned_marks(
                    old(self)@.lines,
                    old(self)@.board,
                    width as int,
                    height as int,
                ),
                ..old(self)@
            }),
            count == filled_count(old(self)@.board, width as int, height as int),
            final(self)@.wf(),
    {
        let mut count: i32 = 0;
        let mut row: i32 = 0;
        while row < height
            invariant
                0 <= row,
                row <= height || row == 0,
                height <= HEIGHT,
                self@.wf(),
                grid_fits(self@.board.len() as int, width as int, height as int),
                self@ == (GameModel { lines: self@.lines, ..old(self)@ }),
                count == filled_count(self@.board, width as int, row as int),
                forall|r: int|
                    0 <= r < self@.lines.len() ==> #[trigger] self@.lines[r] == if r < row {
                        row_mark(self@.board, width as int, r)
                    } else {
                        old(self)@.lines[r]
                    },
            decreases height - row,
        {
            proof {
                lemma_row_fits(self@.board.len() as int, width as int, height as int, row as int);
                lemma_filled_count_bounds(self@.board, width as int, row as int);
            }
            let filled: u8 = self.check_row_filled(width, row);
            self.lines[row as usize] = filled;
            count += filled as i32;
            row += 1;
        }
        proof {
            assert(self@.lines =~= scanned_marks(
                old(self)@.lines,
                old(self)@.board,
                width as int,
                height as int,
            ));
        }
        return count;
    }

    /// Empties row `row`.
    fn clear_row(&mut self, width: i32, row: i32)
        requires
            old(self)@.wf(),
            0 < width,
            0 <= row,
            row * width + width <= old(self)@.board.len(),
        ensures
            final(self)@ == (GameModel { board: final(self)@.board, ..old(self)@ }),
            final(self)@.wf(),
            forall|c: int|
                0 <= c < width ==> final(self)@.board[#[trigger] cell_index(
                    width as int,
                    row as int,
                    c,
                )] == 0,
            forall|i: int|
                0 <= i < old(self)@.board.len() && !(row * width <= i < row * width + width)
                    ==> #[trigger] final(self)@.board[i] == old(self)@.board[i],
    {
        let mut col: i32 = 0;
        while col < width
            invariant
                0 <= col <= width,
                0 <= row,
                row * width + width <= old(self)@.board.len(),
                self@ == (GameModel { board: self@.board, ..old(self)@ }),
                self@.wf(),
                old(self)@.wf(),
                forall|c: int|
                    0 <= c < col ==> self@.board[#[trigger] cell_index(width as int, row as int, c)]
                        == 0,
                forall|i: int|
                    0 <= i < old(self)@.board.len() && !(row * width <= i < row * width + width)
                        ==> #[trigger] self@.board[i] == old(self)@.board[i],
            decreases width - col,
        {
            proof {
                lemma_cell_index(width as int, row + 1, row as int, col as int);
            }
            self.matrix_set(width, row, col, 0);
            col += 1;
        }
    }

    /// Copies the cells of row `src` into row `dst` below it.
    fn copy_row(&mut self, width: i32, src: i32, dst: i32)
        requires
            old(self)@.wf(),
            0 < width,
            0 <= src < dst,
            dst * width + width <= old(self)@.board.len(),
        ensures
            final(self)@ == (GameModel { board: final(self)@.board, ..old(self)@ }),
            final(self)@.wf(),
            forall|c: int|
                0 <= c < width ==> final(self)@.board[#[trigger] cell_index(
                    width as int,
                    dst as int,
                    c,
                )] == old(self)@.board[cell_index(width as int, src as int, c)],
            forall|i: int|
                0 <= i < old(self)@.board.len() && !(dst * width <= i < dst * width + width)
                    ==> #[trigger] final(self)@.board[i] == old(self)@.board[i],
    {
        let mut col: i32 = 0;
        while col < width
            invariant
                0 <= col <= width,
                0 <= src < dst,
                dst * width + width <= old(self)@.board.len(),
                self@ == (GameModel { board: self@.board, ..old(self)@ }),
                self@.wf(),
                old(self)@.wf(),
                forall|c: int|
                    0 <= c < col ==> self@.board[#[trigger] cell_index(width as int, dst as int, c)]
                        == old(self)@.board[cell_index(width as int, src as int, c)],
                forall|i: int|
                    0 <= i < old(self)@.board.len() && !(dst * width <= i < dst * width + width)
                        ==> #[trigger] self@.board[i] == old(self)@.board[i],
            decreases width - col,
        {
            proof {
                lemma_cell_index(width as int, dst as int, src as int, col as int);
                lemma_cell_index(width as int, dst + 1, dst as int, col as int);
                lemma_rows_apart(width as int, src as int, col as int, dst as int, 0);
            }
            let value: u8 = self.matrix_get(width, src, col);
            self.matrix_set(width, dst, col, value);
            col += 1;
        }
    }

    /// Removes the marked rows among `0..height`: every unmarked row moves
    /// down past the marked rows below it, and the rows that this leaves
    /// without a source become empty. Row 0 is never written.
    pub fn clear_lines(&mut self, width: i32, height: i32)
        requires
            old(self)@.wf(),
            height <= HEIGHT,
            grid_fits(old(self)@.board.len() as int, width as int, height as int),
        ensures
            final(self)@ == (GameModel {
                board: compacted(
                    old(self)@.board,
                    old(self)@.lines,
                    width as int,
                    height as int,
                ),
                ..old(self)@
            }),
            final(self)@.wf(),
    {
        let ghost marks = self@.lines;
        let ghost before = self@.board;
        if width <= 0 || height <= 1 {
            proof {
                assert forall|i: int| 0 <= i < before.len() implies before[i] == compacted(
                    before,
                    marks,
                    width as int,
                    height as int,
                )[i] by {
                    if 0 < width && width <= i < width * height {
                        assert(width * height <= width) by (nonlinear_arith)
                            requires
                                0 < width,
                                height <= 1,
                        ;
                    }
                }
                assert(before =~= compacted(before, marks, width as int, height as int));
            }
            return ;
        }
        let mut src_row: i32 = height - 1;
        let mut dst_row: i32 = height - 1;
        while dst_row >= 1
            invariant
                0 <= dst_row <= height - 1,
                -1 <= src_row <= dst_row,
                0 < width,
                1 < height <= HEIGHT,
                width * height <= before.len(),
                old(self)@.wf(),
                self@.wf(),
                marks == old(self)@.lines,
                before == old(self)@.board,
                self@ == (GameModel { board: self@.board, ..old(self)@ }),
                dst_row == height - 1 ==> src_row == height - 1,
                dst_row < height - 1 ==> src_row == if source_row(
                    marks,
                    height as int,
                    dst_row + 1,
                ) >= 0 {
                    source_row(marks, height as int, dst_row + 1) - 1
                } else {
                    -1
                },
                forall|r: int, c: int|
                    0 <= r <= dst_row && 0 <= c < width ==> self@.board[#[trigger] cell_index(
                        width as int,
                        r,
                        c,
                    )] == before[cell_index(width as int, r, c)],
                forall|r: int, c: int|
                    dst_row < r < height && 0 <= c < width ==> self@.board[#[trigger] cell_index(
                        width as int,
                        r,
                        c,
                    )] == if source_row(marks, height as int, r) >= 0 {
                        before[cell_index(width as int, source_row(marks, height as int, r), c)]
                    } else {
                        0
                    },
                forall|i: int|
                    width * height <= i < before.len() ==> #[trigger] self@.board[i] == before[i],
            decreases dst_row,
        {
            let ghost cursor = src_row;
            while src_row >= 0 && self.lines[src_row as usize] != 0
                invariant
                    -1 <= src_row <= cursor < HEIGHT,
                    self@.lines == marks,
                    self@.wf(),
                    unmarked_at_or_above(marks, src_row as int) == unmarked_at_or_above(
                        marks,
                        cursor as int,
                    ),
                decreases src_row + 1,
            {
                src_row -= 1;
            }
            let ghost current = self@.board;
            proof {
                lemma_source_row(marks, height as int, dst_row as int);
                assert(src_row == source_row(marks, height as int, dst_row as int));
                lemma_cell_index(width as int, height as int, dst_row as int, 0);
            }
            if src_row < 0 {
                self.clear_row(width, dst_row);
            } else {
                if src_row != dst_row {
                    self.copy_row(width, src_row, dst_row);
                }
                src_row -= 1;
            }
            proof {
                let source = source_row(marks, height as int, dst_row as int);
                assert forall|r: int, c: int| 0 <= r < height && 0 <= c < width implies (r
                    != dst_row ==> self@.board[#[trigger] cell_index(width as int, r, c)]
                    == current[cell_index(width as int, r, c)]) && (r == dst_row
                    ==> self@.board[cell_index(width as int, r, c)] == if source >= 0 {
                    before[cell_index(width as int, source, c)]
                } else {
                    0
                }) by {
                    lemma_cell_index(width as int, height as int, r, c);
                    if r < dst_row {
                        lemma_rows_in_order(width as int, r, dst_row as int);
                    } else if r > dst_row {
                        lemma_rows_in_order(width as int, dst_row as int, r);
                    } else if source >= 0 {
                        lemma_cell_index(width as int, height as int, source, c);
                    }
                }
            }
            dst_row -= 1;
        }
        proof {
            assert forall|i: int| 0 <= i < before.len() implies self@.board[i] == compacted(
                before,
                marks,
                width as int,
                height as int,
            )[i] by {
                if i < width * height {
                    lemma_index_in_grid(width as int, height as int, i);
                    let r = i / (width as int);
                    let c = i % (width as int);
                    assert(i == cell_index(width as int, r, c));
                    if i >= width {
                        assert(r >= 1) by (nonlinear_arith)
                            requires
                                i == r * width + c,
                                0 <= c < width,
                                i >= width,
                        ;
                    } else {
                        assert(r == 0) by (nonlinear_arith)
                            requires
                                i == r * width + c,
                                0 <= c < width,
                                0 <= r,
                                i < width,
                        ;
                    }
                }
            }
            assert(self@.board =~= compacted(before, marks, width as int, height as int));
        }
    }
}

} // verus!
