//! The table: a count of rows over a pager.
//!
//! Rows occupy the dense indices below `num_rows`. Row `r` lives in slot
//! `r % ROWS_PER_PAGE` of page `r / ROWS_PER_PAGE`.

use vstd::prelude::*;

use crate::pager::{
    page_image, page_offset, PageView, PageWrite, Pager, PagerView, PAGE_SIZE, TABLE_MAX_PAGES,
};
use crate::row::{blank_slot, row_decoded, row_image, RowView, ROW_SIZE};
use crate::{lemma_sizes, ROWS_PER_PAGE, TABLE_MAX_ROWS};

verus! {

/// The page that holds row `row_num`.
pub open spec fn page_of(row_num: int) -> int {
    row_num / (ROWS_PER_PAGE as int)
}

/// The slot, within its page, that holds row `row_num`.
pub open spec fn slot_of(row_num: int) -> int {
    row_num % (ROWS_PER_PAGE as int)
}

/// The number of pages that `num_rows` rows reach into, a partial last page
/// counted.
pub open spec fn pages_in_use(num_rows: int) -> int {
    (num_rows + ROWS_PER_PAGE - 1) / (ROWS_PER_PAGE as int)
}

/// The number of bytes of page `page_num` that closing a table of `num_rows`
/// rows writes: all of a page that the rows fill, and of the page that they
/// fill in part the slots that they take.
pub open spec fn flush_size(num_rows: int, page_num: int) -> int {
    if page_num < num_rows / (ROWS_PER_PAGE as int) {
        PAGE_SIZE as int
    } else {
        (num_rows % (ROWS_PER_PAGE as int)) * ROW_SIZE
    }
}

/// The cache after the page named by `flushed`, if it names one, has left it.
pub open spec fn evicted(pages: Seq<Option<PageView>>, flushed: Option<usize>) -> Seq<
    Option<PageView>,
> {
    match flushed {
        Some(p) if p < pages.len() => pages.update(p as int, None),
        _ => pages,
    }
}

/// The logical row sequence and the pager that stores it.
pub struct Table {
    pub num_rows: usize,
    pub pager: Pager,
}

/// The mathematical value of a [`Table`].
#[verifier::ext_equal]
pub struct TableView {
    pub num_rows: nat,
    pub pager: PagerView,
}

/// What the caller read from the file for page `page_num`, `disk` holding
/// the bytes read by page number: nothing where `disk` has no entry for the
/// page.
pub open spec fn disk_page(disk: Seq<Seq<u8>>, page_num: int) -> Seq<u8> {
    if 0 <= page_num < disk.len() {
        disk[page_num]
    } else {
        Seq::empty()
    }
}

/// A page after a scan has passed over its first `count` slots: those among
/// them that were not materialized are materialized as zero bytes.
pub open spec fn scan_page(page: PageView, count: int) -> PageView {
    Seq::new(
        page.len(),
        |slot: int|
            if slot < count && page[slot] is None {
                Some(blank_slot())
            } else {
                page[slot]
            },
    )
}

impl TableView {
    /// The bytes that row `row_num` reads as, `disk` being what the file
    /// gave for its page.
    pub open spec fn row_bytes(self, row_num: int, disk: Seq<u8>) -> Seq<u8> {
        self.pager.fetched(page_of(row_num), disk).slot_bytes(page_of(row_num), slot_of(row_num))
    }

    /// The table after `row` has been appended, `disk` being what the file
    /// gave for the page that the row goes to.
    pub open spec fn inserted(self, row: RowView, disk: Seq<u8>) -> TableView {
        let p = page_of(self.num_rows as int);
        let s = slot_of(self.num_rows as int);
        let fetched = self.pager.fetched(p, disk);
        TableView {
            num_rows: self.num_rows + 1,
            pager: fetched.with_slot(p, s, row_image(fetched.slot_bytes(p, s), row)),
        }
    }

    /// What appending `row` gives: the table with the row appended, or
    /// nothing where the table is full.
    pub open spec fn try_insert(self, row: RowView, disk: Seq<u8>) -> Option<TableView> {
        if self.num_rows >= TABLE_MAX_ROWS {
            None
        } else {
            Some(self.inserted(row, disk))
        }
    }

    /// The table after a scan has passed over its first `count` rows,
    /// `disk` holding what the file gave, by page number. A page that the
    /// scan has not reached is as it was. A page that it has reached is
    /// cached, and its slots that the scan has passed are materialized.
    pub open spec fn scanned(self, disk: Seq<Seq<u8>>, count: int) -> TableView {
        TableView {
            pager: PagerView {
                pages: Seq::new(
                    self.pager.pages.len(),
                    |p: int|
                        if p * ROWS_PER_PAGE >= count {
                            self.pager.pages[p]
                        } else {
                            Some(
                                scan_page(
                                    self.pager.fetched(p, disk_page(disk, p)).pages[p]->0,
                                    count - p * ROWS_PER_PAGE,
                                ),
                            )
                        },
                ),
                ..self.pager
            },
            ..self
        }
    }

    /// The rows that a scan of the table yields, `disk` holding what the
    /// file gave, by page number: every row, in the order of the row
    /// numbers, each decoded from the bytes that its slot reads as.
    pub open spec fn selected(self, disk: Seq<Seq<u8>>) -> Seq<RowView> {
        Seq::new(
            self.num_rows,
            |j: int| row_decoded(self.row_bytes(j, disk_page(disk, page_of(j)))),
        )
    }
}

impl View for Table {
    type V = TableView;

    open spec fn view(&self) -> TableView {
        TableView { num_rows: self.num_rows as nat, pager: self.pager@ }
    }
}

impl Table {
    /// The table's invariant: that of its pager.
    pub open spec fn wf(&self) -> bool {
        self.pager.wf()
    }

    /// Tells whether the invariant holds.
    pub fn well_formed(&self) -> (ok: bool)
        ensures
            ok == self.wf(),
    {
        self.pager.well_formed()
    }

    /// A table over a file that was `file_length` bytes long when it was
    /// opened. The file is taken to hold rows back to back, so its length
    /// gives their number; a remainder that is no whole row is not counted.
    pub fn open_db(file_length: usize) -> (table: Table)
        ensures
            table.wf(),
            table@.num_rows == file_length / ROW_SIZE,
            table@.pager.file_length == file_length,
            forall|p: int| 0 <= p < TABLE_MAX_PAGES ==> table@.pager.pages[p] is None,
    {
        let pager = Pager::open(file_length);
        let num_rows: usize = pager.file_length / ROW_SIZE;
        Table { num_rows, pager }
    }

    /// One step of closing the table.
    ///
    /// Closing writes every cached page that the rows reach back to the file,
    /// lowest page first, and drops each from the cache once it is written.
    /// The writing is the caller's: each step hands out one write, and the
    /// caller reports its completion to the next step as `flushed`, the
    /// number of the page written (`None` at the first step). That page
    /// leaves the cache. The step then hands out the write for the lowest
    /// page that the rows reach and that is still cached, or `None`, having
    /// closed the pager, when there is none left. A caller whose write fails
    /// stops there: the page that was not written, and those after it, stay
    /// cached.
    pub fn close_db(&mut self, flushed: Option<usize>) -> (step: Result<Option<PageWrite>, String>)
        requires
            old(self).wf(),
            old(self).num_rows <= TABLE_MAX_ROWS,
        ensures
            final(self).wf(),
            final(self)@.num_rows == old(self)@.num_rows,
            final(self)@.pager.file_length == old(self)@.pager.file_length,
            final(self)@.pager.pages == evicted(old(self)@.pager.pages, flushed),
            match step {
                Ok(Some(write)) => {
                    let p = write.page_num as int;
                    let pages = final(self)@.pager.pages;
                    &&& 0 <= p < pages_in_use(old(self).num_rows as int)
                    &&& pages[p] is Some
                    &&& forall|q: int| 0 <= q < p ==> pages[q] is None
                    &&& write.offset == page_offset(p)
                    &&& write.bytes@ == page_image(pages[p]->0).take(
                        flush_size(old(self).num_rows as int, p),
                    )
                },
                Ok(None) => {
                    let pages = final(self)@.pager.pages;
                    forall|q: int| 0 <= q < pages_in_use(old(self).num_rows as int) ==> pages[q] is None
                },
                Err(_) => false,
            },
    {
        proof {
            lemma_sizes();
        }
        match flushed {
            Some(p) => {
                if p < TABLE_MAX_PAGES {
                    self.pager.pages[p] = None;
                }
            },
            None => {},
        }
        assert(self@.pager.pages =~= evicted(old(self)@.pager.pages, flushed));
        let num_full_pages: usize = self.num_rows / ROWS_PER_PAGE;
        let mut i: usize = 0;
        while i < num_full_pages
            invariant
                i <= num_full_pages <= TABLE_MAX_PAGES,
                num_full_pages == self.num_rows / ROWS_PER_PAGE,
                ROWS_PER_PAGE == 14,
                self.wf(),
                self.num_rows == old(self).num_rows,
                self@.pager.file_length == old(self)@.pager.file_length,
                self@.pager.pages == evicted(old(self)@.pager.pages, flushed),
                forall|q: int| 0 <= q < i ==> self@.pager.pages[q] is None,
            decreases num_full_pages - i,
        {
            if self.pager.pages[i].is_some() {
                return Ok(Some(self.pager.flush(i, PAGE_SIZE)));
            }
            i += 1;
        }
        let num_additional_rows: usize = self.num_rows % ROWS_PER_PAGE;
        if num_additional_rows > 0 {
            let page_num: usize = num_full_pages;
            if self.pager.pages[page_num].is_some() {
                return Ok(Some(self.pager.flush(page_num, num_additional_rows * ROW_SIZE)));
            }
        }
        match self.pager.close() {
            Ok(()) => Ok(None),
            Err(e) => Err(e),
        }
    }
}

} // verus!
