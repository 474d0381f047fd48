//! The cursor: a position in a table.
//!
//! A cursor holds a row number and a flag that tells whether it stands past
//! the last row. It holds no reference to its table: each operation is given
//! the table it works on.

use vstd::prelude::*;

use crate::lemma_sizes;
use crate::pager::{PagerError, RowBuf, TABLE_MAX_PAGES};
use crate::row::ROW_SIZE;
use crate::table::{page_of, slot_of, Table};
use crate::ROWS_PER_PAGE;

verus! {

/// A position in a table.
#[derive(Debug, Clone, Copy, PartialEq, Eq, Structural)]
pub struct Cursor {
    pub row_num: usize,
    pub end_of_table: bool,
}

impl Cursor {
    /// A cursor at the first row, for a scan. In an empty table it stands at
    /// the end at once.
    pub fn table_start(table: &Table) -> (cursor: Cursor)
        ensures
            cursor.row_num == 0,
            cursor.end_of_table == (table.num_rows == 0),
    {
        let num_rows: usize = table.num_rows;
        Cursor { row_num: 0, end_of_table: num_rows == 0 }
    }

    /// A cursor past the last row, where the next row is appended.
    pub fn table_end(table: &Table) -> (cursor: Cursor)
        ensures
            cursor.row_num == table.num_rows,
            cursor.end_of_table,
    {
        let row_num: usize = table.num_rows;
        Cursor { row_num, end_of_table: true }
    }

    /// Hands out the slot of the row that the cursor stands at.
    ///
    /// The page of the row is asked of the pager, with `disk` as what the
    /// file gave for that page, and so may enter the cache; the slot is
    /// materialized as zero bytes where it was not materialized. What the
    /// caller writes to the slot is written to the cache. A row whose page
    /// number is [`TABLE_MAX_PAGES`] or more is refused, and the table left
    /// as it was.
    pub fn cursor_value<'a>(&self, table: &'a mut Table, disk: &[u8]) -> (value: Result<
        &'a mut RowBuf,
        PagerError,
    >)
        requires
            old(table).wf(),
        ensures
            final(table)@.num_rows == old(table)@.num_rows,
            final(table)@.pager.file_length == old(table)@.pager.file_length,
            match value {
                Ok(buf) => {
                    let p = page_of(self.row_num as int);
                    let s = slot_of(self.row_num as int);
                    let fetched = old(table)@.pager.fetched(p, disk@);
                    &&& p < TABLE_MAX_PAGES
                    &&& buf@ == fetched.slot_bytes(p, s)
                    &&& buf@.len() == ROW_SIZE
                    &&& final(table)@.pager.pages == fetched.with_slot(p, s, final(buf)@).pages
                    &&& final(buf)@.len() == ROW_SIZE ==> final(table).wf()
                },
                Err(e) => {
                    &&& page_of(self.row_num as int) >= TABLE_MAX_PAGES
                    &&& e == PagerError::PageOutOfBounds((self.row_num / ROWS_PER_PAGE) as usize)
                    &&& *final(table) == *old(table)
                },
            },
    {
        proof {
            lemma_sizes();
        }
        let page_num: usize = self.row_num / ROWS_PER_PAGE;
        let row_offset: usize = self.row_num % ROWS_PER_PAGE;
        match table.pager.get_page(page_num, disk) {
            Ok(page) => {
                let ghost fetched = old(table)@.pager.fetched(page_num as int, disk@).pages[page_num as int]->0;
                if page[row_offset].is_none() {
                    page[row_offset] = Some(vec![0u8; ROW_SIZE]);
                }
                let ghost page_after = *final(page);
                match &mut page[row_offset] {
                    Some(buf) => {
                        proof {
                            assert(buf.deep_view() =~= buf@);
                            assert(final(buf).deep_view() =~= final(buf)@);
                            assert(page_after.deep_view() =~= fetched.update(
                                row_offset as int,
                                Some(final(buf)@),
                            ));
                        }
                        Ok(buf)
                    },
                    None => vstd::pervasive::unreached(),
                }
            },
            Err(e) => Err(e),
        }
    }

    /// Moves the cursor to the next row. It stands at the end once it has
    /// passed the last row, and stays there.
    pub fn advance(&mut self, table: &Table)
        requires
            old(self).row_num < usize::MAX,
        ensures
            final(self).row_num == old(self).row_num + 1,
            final(self).end_of_table == (old(self).end_of_table || old(self).row_num + 1
                >= table.num_rows),
    {
        self.row_num += 1;
        if self.row_num >= table.num_rows {
            self.end_of_table = true;
        }
    }
}

} // verus!
