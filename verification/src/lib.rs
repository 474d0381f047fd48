//! A minimal paged record store.
//!
//! A table is a dense sequence of fixed-width rows. Rows live in row-sized
//! slots, slots are grouped into pages, and pages are held in an in-memory
//! cache that is filled lazily from a flat backing file and written back
//! when the table is closed.
//!
//! The library never touches the file itself. Wherever an operation depends
//! on what the file holds, the caller hands in the bytes it read; wherever an
//! operation must reach the file, it hands back the bytes to write and where
//! they go. Everything in between is verified.

use vstd::prelude::*;

pub mod compiler;
pub mod cursor;
pub mod pager;
pub mod row;
pub mod table;
pub mod text;
pub mod vm;

use pager::{PAGE_SIZE, TABLE_MAX_PAGES};
use row::ROW_SIZE;

verus! {

/// Row slots in one page.
pub const ROWS_PER_PAGE: usize = PAGE_SIZE / ROW_SIZE;

/// Rows that a table can hold.
pub const TABLE_MAX_ROWS: usize = ROWS_PER_PAGE * TABLE_MAX_PAGES;

/// The sizes in numbers: a row takes 291 bytes, a page holds 14 rows and a
/// table 1400.
pub proof fn lemma_sizes()
    ensures
        ROW_SIZE == 291,
        ROWS_PER_PAGE == 14,
        TABLE_MAX_ROWS == 1400,
        ROWS_PER_PAGE * ROW_SIZE <= PAGE_SIZE,
{
    assert(ROWS_PER_PAGE == 14);
    assert(TABLE_MAX_ROWS == 1400) by (nonlinear_arith)
        requires
            TABLE_MAX_ROWS == ROWS_PER_PAGE * TABLE_MAX_PAGES,
            ROWS_PER_PAGE == 14,
            TABLE_MAX_PAGES == 100,
    ;
}

} // verus!
