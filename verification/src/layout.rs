//! Row-major addressing of parameter tables, and the question whether a
//! row or a table lies inside a blob of a given length.

use vstd::prelude::*;

verus! {

/// Position of the cell in row `row`, column `col` of a table stored row by row
/// with `width` cells to a row.
pub open spec fn cell(row: int, width: int, col: int) -> int {
    row * width + col
}

/// Every cell of row `row` lies inside a blob of `len` cells.
pub open spec fn row_in_range(row: int, width: int, len: int) -> bool {
    forall|col: int| 0 <= col < width ==> #[trigger] cell(row, width, col) < len
}

/// Every cell of the first `rows` rows lies inside a blob of `len` cells.
pub open spec fn table_in_range(rows: int, width: int, len: int) -> bool {
    forall|row: int, col: int|
        0 <= row < rows && 0 <= col < width ==> #[trigger] cell(row, width, col) < len
}

/// A row is in range exactly when it is empty or its end is.
pub proof fn lemma_row_in_range(row: int, width: int, len: int)
    requires
        0 <= row,
        0 <= width,
    ensures
        row_in_range(row, width, len) <==> (width == 0 || row * width + width <= len),
{
    if width > 0 {
        if row_in_range(row, width, len) {
            assert(cell(row, width, width - 1) < len);
        }
    }
}

/// A table is in range exactly when it has no cell or its last cell is in range.
pub proof fn lemma_table_in_range(rows: int, width: int, len: int)
    requires
        0 <= rows,
        0 <= width,
    ensures
        table_in_range(rows, width, len) <==> (rows == 0 || width == 0 || rows * width <= len),
{
    if rows > 0 && width > 0 {
        if table_in_range(rows, width, len) {
            assert(cell(rows - 1, width, width - 1) < len);
            assert((rows - 1) * width + width == rows * width) by (nonlinear_arith);
        }
        if rows * width <= len {
            assert forall|row: int, col: int| 0 <= row < rows && 0 <= col < width implies #[trigger] cell(
                row,
                width,
                col,
            ) < len by {
                assert(row * width + width <= rows * width) by (nonlinear_arith)
                    requires
                        0 <= row < rows,
                        0 <= width,
                ;
            }
        }
    }
}

/// A table that is in range keeps each of its rows in range.
pub proof fn lemma_table_rows_in_range(rows: int, width: int, len: int, row: int)
    requires
        table_in_range(rows, width, len),
        0 <= row < rows,
    ensures
        row_in_range(row, width, len),
{
}

/// Whether all `width` cells of row `row` can be read from a blob of `len` cells.
pub fn row_fits(row: u32, width: u32, len: usize) -> (ok: bool)
    ensures
        ok == row_in_range(row as int, width as int, len as int),
{
    proof {
        lemma_row_in_range(row as int, width as int, len as int);
    }
    if width == 0 {
        return true;
    }
    assert(row * width + width <= 0xffff_ffff * 0x1_0000_0000) by (nonlinear_arith)
        requires
            0 <= row <= 0xffff_ffff,
            0 <= width <= 0xffff_ffff,
    ;
    let end: u64 = row as u64 * width as u64 + width as u64;
    end <= len as u64
}

/// Whether all cells of a table of `rows` rows can be read from a blob of `len`
/// cells.
pub fn table_fits(rows: u32, width: u32, len: usize) -> (ok: bool)
    ensures
        ok == table_in_range(rows as int, width as int, len as int),
{
    proof {
        lemma_table_in_range(rows as int, width as int, len as int);
    }
    if rows == 0 || width == 0 {
        return true;
    }
    assert(rows * width <= 0xffff_ffff * 0xffff_ffff) by (nonlinear_arith)
        requires
            0 <= rows <= 0xffff_ffff,
            0 <= width <= 0xffff_ffff,
    ;
    let cells: u64 = rows as u64 * width as u64;
    cells <= len as u64
}

} // verus!
