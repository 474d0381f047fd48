//! The page cache.
//!
//! The pager keeps up to [`TABLE_MAX_PAGES`] pages in memory. A page comes
//! into the cache the first time it is asked for: from the backing file
//! where the file reaches that far, blank otherwise. The pager holds no file
//! handle. Before asking for a page, the caller learns from
//! [`Pager::pending_read`] whether the file must be read and hands the bytes
//! to [`Pager::get_page`]; [`Pager::flush`] hands back the bytes that the
//! caller is to write.

use vstd::prelude::*;

use crate::row::{blank_slot, write_at, ROW_SIZE};
use crate::{lemma_sizes, ROWS_PER_PAGE};

verus! {

/// Bytes in one page, the unit of transfer to and from the backing file.
pub const PAGE_SIZE: usize = 4096;

/// Pages that the cache can hold, and so the most that a table can have.
pub const TABLE_MAX_PAGES: usize = 100;

/// The bytes of one row slot.
pub type RowBuf = Vec<u8>;

/// One page: a fixed number of row slots, each either not yet materialized
/// or holding the bytes of a row.
pub type Page = Vec<Option<RowBuf>>;

/// The mathematical value of a page.
pub type PageView = Seq<Option<Seq<u8>>>;

/// A read that the caller is to perform: [`PAGE_SIZE`] bytes from `offset`
/// on, as far as the file has them, for page `page_num`.
#[derive(Debug, Clone, Copy, PartialEq, Eq, Structural)]
pub struct PageRead {
    pub page_num: usize,
    pub offset: u64,
}

/// A write that the caller is to perform: `bytes` at `offset` of the file,
/// for page `page_num`.
#[derive(Debug)]
pub struct PageWrite {
    pub page_num: usize,
    pub offset: u64,
    pub bytes: Vec<u8>,
}

/// The one failure of the pager, which no caller can recover from.
#[derive(Debug, Clone, Copy, PartialEq, Eq, Structural)]
pub enum PagerError {
    /// A page number that the cache has no entry for: [`TABLE_MAX_PAGES`]
    /// or more.
    PageOutOfBounds(usize),
}

/// The page cache and the length that the backing file had when it was
/// opened.
pub struct Pager {
    pub file_length: usize,
    pub pages: Vec<Option<Page>>,
}

/// The mathematical value of a [`Pager`].
#[verifier::ext_equal]
pub struct PagerView {
    pub file_length: nat,
    pub pages: Seq<Option<PageView>>,
}

/// The number of pages that a file of `file_length` bytes reaches into, a
/// partial last page counted.
pub open spec fn page_count(file_length: nat) -> nat {
    if file_length % (PAGE_SIZE as nat) > 0 {
        file_length / (PAGE_SIZE as nat) + 1
    } else {
        file_length / (PAGE_SIZE as nat)
    }
}

/// Where page `page_num` starts in the file.
pub open spec fn page_offset(page_num: int) -> int {
    page_num * PAGE_SIZE
}

/// What a read of one page returned, filled up with zero bytes to
/// [`PAGE_SIZE`].
pub open spec fn padded(disk: Seq<u8>) -> Seq<u8> {
    Seq::new(
        PAGE_SIZE as nat,
        |k: int|
            if k < disk.len() {
                disk[k]
            } else {
                0u8
            },
    )
}

/// The bytes of row slot `slot` within the bytes of a page.
pub open spec fn chunk(bytes: Seq<u8>, slot: int) -> Seq<u8> {
    bytes.subrange(slot * ROW_SIZE, (slot + 1) * ROW_SIZE)
}

/// Every byte is zero.
pub open spec fn all_zero(bytes: Seq<u8>) -> bool {
    forall|k: int| 0 <= k < bytes.len() ==> bytes[k] == 0
}

/// A page with no slot materialized.
pub open spec fn blank_page() -> PageView {
    Seq::new(ROWS_PER_PAGE as nat, |slot: int| None)
}

/// The page that the bytes read for it make: each row-sized chunk becomes a
/// materialized slot, but for a chunk of zero bytes only, whose slot stays
/// unmaterialized.
pub open spec fn page_from_disk(disk: Seq<u8>) -> PageView {
    Seq::new(
        ROWS_PER_PAGE as nat,
        |slot: int|
            if all_zero(chunk(padded(disk), slot)) {
                None
            } else {
                Some(chunk(padded(disk), slot))
            },
    )
}

/// The [`PAGE_SIZE`] bytes that a page is written back from: its slots one
/// after the other, an unmaterialized slot as zero bytes, and zero bytes
/// after the last slot.
pub open spec fn page_image(page: PageView) -> Seq<u8> {
    Seq::new(
        PAGE_SIZE as nat,
        |k: int|
            if k / (ROW_SIZE as int) < page.len() && page[k / (ROW_SIZE as int)] is Some {
                page[k / (ROW_SIZE as int)]->0[k % (ROW_SIZE as int)]
            } else {
                0u8
            },
    )
}

/// A page has all its slots, and each materialized slot all its bytes.
pub open spec fn page_wf(page: PageView) -> bool {
    &&& page.len() == ROWS_PER_PAGE
    &&& forall|slot: int|
        0 <= slot < page.len() && page[slot] is Some ==> (#[trigger] page[slot])->0.len()
            == ROW_SIZE
}

impl PagerView {
    /// The cache has all its entries, and each cached page is well formed.
    pub open spec fn wf(self) -> bool {
        &&& self.pages.len() == TABLE_MAX_PAGES
        &&& forall|p: int|
            0 <= p < self.pages.len() && self.pages[p] is Some ==> page_wf(
                (#[trigger] self.pages[p])->0,
            )
    }

    /// Asking for page `page_num` consults the file: the page is not cached
    /// and the file reaches it.
    pub open spec fn reads_file(self, page_num: int) -> bool {
        &&& 0 <= page_num < TABLE_MAX_PAGES
        &&& self.pages[page_num] is None
        &&& page_num < page_count(self.file_length)
    }

    /// The page that asking for `page_num` brings into the cache where it
    /// is not cached, `disk` being what the file gave for it.
    pub open spec fn fresh_page(self, page_num: int, disk: Seq<u8>) -> PageView {
        if page_num < page_count(self.file_length) {
            page_from_disk(disk)
        } else {
            blank_page()
        }
    }

    /// The bytes that slot `slot` of cached page `page_num` reads as: its
    /// own where it is materialized, zero bytes where it is not.
    pub open spec fn slot_bytes(self, page_num: int, slot: int) -> Seq<u8> {
        match self.pages[page_num]->0[slot] {
            Some(bytes) => bytes,
            None => blank_slot(),
        }
    }

    /// The pager with slot `slot` of cached page `page_num` materialized and
    /// holding `bytes`.
    pub open spec fn with_slot(self, page_num: int, slot: int, bytes: Seq<u8>) -> PagerView {
        PagerView {
            pages: self.pages.update(
                page_num,
                Some(self.pages[page_num]->0.update(slot, Some(bytes))),
            ),
            ..self
        }
    }

    /// The pager after page `page_num` has been asked for.
    pub open spec fn fetched(self, page_num: int, disk: Seq<u8>) -> PagerView {
        if self.pages[page_num] is Some {
            self
        } else {
            PagerView {
                pages: self.pages.update(page_num, Some(self.fresh_page(page_num, disk))),
                ..self
            }
        }
    }
}

/// Byte `k` of what a read of one page returned, zero where the read fell
/// short.
fn padded_byte(disk: &[u8], k: usize) -> (byte: u8)
    requires
        k < PAGE_SIZE,
    ensures
        byte == padded(disk@)[k as int],
{
    if k < disk.len() {
        disk[k]
    } else {
        0
    }
}

/// The bytes of row slot `slot` among those read for a page, or `None`
/// where all of them are zero.
fn read_slot(disk: &[u8], slot: usize) -> (buf: Option<RowBuf>)
    requires
        slot < ROWS_PER_PAGE,
    ensures
        buf.deep_view() == page_from_disk(disk@)[slot as int],
{
    proof {
        lemma_sizes();
    }
    let start: usize = slot * ROW_SIZE;
    let mut buf: RowBuf = Vec::new();
    let mut zero: bool = true;
    let mut i: usize = 0;
    while i < ROW_SIZE
        invariant
            i <= ROW_SIZE,
            ROW_SIZE == 291,
            start == slot * 291,
            slot < 14,
            buf@ == padded(disk@).subrange(start as int, start + i),
            zero <==> all_zero(buf@),
        decreases ROW_SIZE - i,
    {
        let byte: u8 = padded_byte(disk, start + i);
        let ghost before = buf@;
        buf.push(byte);
        assert(buf@ =~= padded(disk@).subrange(start as int, start + i + 1));
        if byte != 0 {
            zero = false;
            assert(buf@[i as int] != 0);
        } else {
            assert(all_zero(before) ==> all_zero(buf@));
            assert(!all_zero(before) ==> !all_zero(buf@)) by {
                if !all_zero(before) {
                    let k = choose|k: int| 0 <= k < before.len() && before[k] != 0;
                    assert(buf@[k] != 0);
                }
            }
        }
        i += 1;
    }
    assert(buf@ =~= chunk(padded(disk@), slot as int));
    if zero {
        None
    } else {
        Some(buf)
    }
}

/// A page with no slot materialized.
fn new_page() -> (page: Page)
    ensures
        page.deep_view() == blank_page(),
{
    let mut page: Page = Vec::new();
    let mut slot: usize = 0;
    while slot < ROWS_PER_PAGE
        invariant
            slot <= ROWS_PER_PAGE,
            page.len() == slot,
            forall|s: int| 0 <= s < slot ==> page[s] is None,
        decreases ROWS_PER_PAGE - slot,
    {
        page.push(None);
        slot += 1;
    }
    assert(page.deep_view() =~= blank_page());
    page
}

/// The page that the bytes read for it make.
fn load_page(disk: &[u8]) -> (page: Page)
    ensures
        page.deep_view() == page_from_disk(disk@),
{
    let mut page: Page = Vec::new();
    let mut slot: usize = 0;
    while slot < ROWS_PER_PAGE
        invariant
            slot <= ROWS_PER_PAGE,
            page.len() == slot,
            forall|s: int| 0 <= s < slot ==> page[s].deep_view() == page_from_disk(disk@)[s],
        decreases ROWS_PER_PAGE - slot,
    {
        page.push(read_slot(disk, slot));
        slot += 1;
    }
    assert(page.deep_view() =~= page_from_disk(disk@));
    page
}

/// A page fresh from the file or blank is well formed.
proof fn lemma_fresh_page_wf(view: PagerView, page_num: int, disk: Seq<u8>)
    ensures
        page_wf(view.fresh_page(page_num, disk)),
        page_wf(page_from_disk(disk)),
        page_wf(blank_page()),
{
    lemma_sizes();
    assert forall|slot: int| 0 <= slot < ROWS_PER_PAGE implies chunk(padded(disk), slot).len()
        == ROW_SIZE by {}
}

/// What a page is written back as, in full, is what it is read from, but
/// for a materialized slot of zero bytes only: it is written as an
/// unmaterialized slot is, and so comes back unmaterialized.
pub proof fn lemma_flush_then_load(page: PageView)
    requires
        page_wf(page),
    ensures
        page_from_disk(page_image(page)).len() == page.len(),
        forall|slot: int|
            0 <= slot < page.len() ==> #[trigger] page_from_disk(
                page_image(page),
            )[slot] == (match page[slot] {
                Some(bytes) => if all_zero(bytes) {
                    None
                } else {
                    Some(bytes)
                },
                None => None,
            }),
{
    lemma_sizes();
    let image = page_image(page);
    assert(padded(image) =~= image);
    assert forall|slot: int| 0 <= slot < page.len() implies #[trigger] page_from_disk(image)[slot]
        == (match page[slot] {
        Some(bytes) => if all_zero(bytes) {
            None
        } else {
            Some(bytes)
        },
        None => None,
    }) by {
        let piece = chunk(image, slot);
        assert forall|k: int| 0 <= k < 291 implies piece[k] == (match page[slot] {
            Some(bytes) => bytes[k],
            None => 0u8,
        }) by {
            let at = slot * 291 + k;
            assert(piece[k] == image[at]);
            assert(at / 291 == slot);
            assert(at % 291 == k);
        }
        match page[slot] {
            Some(bytes) => {
                assert(bytes.len() == 291);
                assert(piece =~= bytes);
            },
            None => {
                assert(all_zero(piece));
            },
        }
    }
}

impl View for Pager {
    type V = PagerView;

    open spec fn view(&self) -> PagerView {
        PagerView { file_length: self.file_length as nat, pages: self.pages.deep_view() }
    }
}

impl Pager {
    /// The pager's invariant, over its value.
    pub open spec fn wf(&self) -> bool {
        self@.wf()
    }

    /// Tells whether the invariant holds. Every operation of the pager keeps
    /// it; it can only be lost by writing to the public fields, or by
    /// changing the length of a page or of a slot that was handed out.
    pub fn well_formed(&self) -> (ok: bool)
        ensures
            ok == self.wf(),
    {
        if self.pages.len() != TABLE_MAX_PAGES {
            return false;
        }
        let mut page_num: usize = 0;
        while page_num < TABLE_MAX_PAGES
            invariant
                page_num <= TABLE_MAX_PAGES,
                self.pages.len() == TABLE_MAX_PAGES,
                forall|p: int|
                    0 <= p < page_num && self@.pages[p] is Some ==> page_wf(
                        (#[trigger] self@.pages[p])->0,
                    ),
            decreases TABLE_MAX_PAGES - page_num,
        {
            match &self.pages[page_num] {
                Some(page) => {
                    assert(self@.pages[page_num as int] == Some(page.deep_view()));
                    if page.len() != ROWS_PER_PAGE {
                        assert(!page_wf(self@.pages[page_num as int]->0));
                        return false;
                    }
                    let mut slot: usize = 0;
                    while slot < ROWS_PER_PAGE
                        invariant
                            slot <= ROWS_PER_PAGE,
                            page.len() == ROWS_PER_PAGE,
                            page_num < TABLE_MAX_PAGES,
                            self.pages.len() == TABLE_MAX_PAGES,
                            self@.pages[page_num as int] == Some(page.deep_view()),
                            forall|s: int|
                                0 <= s < slot && page.deep_view()[s] is Some ==> (
                                #[trigger] page.deep_view()[s])->0.len() == ROW_SIZE,
                        decreases ROWS_PER_PAGE - slot,
                    {
                        match &page[slot] {
                            Some(buf) => {
                                assert(page.deep_view()[slot as int] == Some(buf.deep_view()));
                                assert(buf.deep_view().len() == buf.len());
                                if buf.len() != ROW_SIZE {
                                    assert(!page_wf(self@.pages[page_num as int]->0));
                                    return false;
                                }
                            },
                            None => {},
                        }
                        slot += 1;
                    }
                },
                None => {},
            }
            page_num += 1;
        }
        true
    }

    /// A pager for a file that was `file_length` bytes long when it was
    /// opened. No page is cached.
    pub fn open(file_length: usize) -> (pager: Pager)
        ensures
            pager.wf(),
            pager@.file_length == file_length,
            forall|p: int| 0 <= p < TABLE_MAX_PAGES ==> pager@.pages[p] is None,
    {
        let mut pages: Vec<Option<Page>> = Vec::new();
        let mut i: usize = 0;
        while i < TABLE_MAX_PAGES
            invariant
                i <= TABLE_MAX_PAGES,
                pages.len() == i,
                forall|p: int| 0 <= p < i ==> pages[p] is None,
            decreases TABLE_MAX_PAGES - i,
        {
            pages.push(None);
            i += 1;
        }
        Pager { file_length, pages }
    }

    /// The read that asking for page `page_num` calls for, if any. The
    /// caller performs it and hands what it read to [`Pager::get_page`].
    pub fn pending_read(&self, page_num: usize) -> (read: Option<PageRead>)
        requires
            self.wf(),
        ensures
            read == if self@.reads_file(page_num as int) {
                Some(PageRead { page_num, offset: page_offset(page_num as int) as u64 })
            } else {
                None::<PageRead>
            },
    {
        if page_num >= TABLE_MAX_PAGES {
            return None;
        }
        if self.pages[page_num].is_some() {
            return None;
        }
        let mut num_pages: usize = self.file_length / PAGE_SIZE;
        if self.file_length % PAGE_SIZE > 0 {
            num_pages += 1;
        }
        if page_num < num_pages {
            Some(PageRead { page_num, offset: (page_num * PAGE_SIZE) as u64 })
        } else {
            None
        }
    }

    /// Hands out page `page_num`, bringing it into the cache first where it
    /// is not there yet: from `disk`, the bytes that the read named by
    /// [`Pager::pending_read`] returned, where the file reaches the page, and
    /// blank otherwise. A page number of [`TABLE_MAX_PAGES`] or more is
    /// refused, and the pager left as it was.
    ///
    /// A row-sized chunk of zero bytes only is taken for a slot that was
    /// never written: a row whose bytes are all zero comes back
    /// unmaterialized.
    pub fn get_page(&mut self, page_num: usize, disk: &[u8]) -> (got: Result<
        &mut Page,
        PagerError,
    >)
        requires
            old(self).wf(),
        ensures
            match got {
                Ok(page) => {
                    let fetched = old(self)@.fetched(page_num as int, disk@);
                    &&& page_num < TABLE_MAX_PAGES
                    &&& fetched.wf()
                    &&& page.deep_view() == fetched.pages[page_num as int]->0
                    &&& final(self)@.file_length == fetched.file_length
                    &&& final(self)@.pages == fetched.pages.update(
                        page_num as int,
                        Some(final(page).deep_view()),
                    )
                },
                Err(e) => {
                    &&& page_num >= TABLE_MAX_PAGES
                    &&& e == PagerError::PageOutOfBounds(page_num)
                    &&& *final(self) == *old(self)
                },
            },
    {
        if page_num >= TABLE_MAX_PAGES {
            return Err(PagerError::PageOutOfBounds(page_num));
        }
        if self.pages[page_num].is_none() {
            let mut num_pages: usize = self.file_length / PAGE_SIZE;
            if self.file_length % PAGE_SIZE > 0 {
                num_pages += 1;
            }
            let page = if page_num < num_pages {
                load_page(disk)
            } else {
                new_page()
            };
            self.pages[page_num] = Some(page);
            proof {
                lemma_fresh_page_wf(old(self)@, page_num as int, disk@);
                assert(self@.pages =~= old(self)@.fetched(page_num as int, disk@).pages);
            }
        }
        assert(self@ == old(self)@.fetched(page_num as int, disk@));
        match &mut self.pages[page_num] {
            Some(page) => Ok(page),
            None => vstd::pervasive::unreached(),
        }
    }

    /// The write that brings the first `page_size` bytes of cached page
    /// `page_num` to the file: the page's slots laid out one after the
    /// other, an unmaterialized slot as zero bytes, and the whole cut off at
    /// `page_size`. The caller performs the write; the cache is left as it
    /// is.
    pub fn flush(&self, page_num: usize, page_size: usize) -> (write: PageWrite)
        requires
            self.wf(),
            page_num < TABLE_MAX_PAGES,
            self@.pages[page_num as int] is Some,
            page_size <= PAGE_SIZE,
        ensures
            write.page_num == page_num,
            write.offset == page_offset(page_num as int),
            write.bytes@ == page_image(self@.pages[page_num as int]->0).take(page_size as int),
    {
        proof {
            lemma_sizes();
        }
        let page: &Page = match &self.pages[page_num] {
            Some(page) => page,
            None => vstd::pervasive::unreached(),
        };
        let ghost view = self@.pages[page_num as int]->0;
        assert(view == page.deep_view());
        assert(page_wf(view));
        let mut page_buf: Vec<u8> = vec![0u8; PAGE_SIZE];
        let mut slot: usize = 0;
        while slot < ROWS_PER_PAGE
            invariant
                slot <= ROWS_PER_PAGE,
                ROWS_PER_PAGE == 14,
                ROW_SIZE == 291,
                page_buf.len() == PAGE_SIZE,
                view == page.deep_view(),
                page_wf(view),
                forall|k: int|
                    0 <= k < PAGE_SIZE ==> #[trigger] page_buf[k] == (if k / 291 < slot
                        && view[k / 291] is Some {
                        view[k / 291]->0[k % 291]
                    } else {
                        0u8
                    }),
            decreases ROWS_PER_PAGE - slot,
        {
            let ghost before = page_buf@;
            match &page[slot] {
                Some(row) => {
                    assert(view[slot as int] == Some(row.deep_view()));
                    assert(row.deep_view() =~= row@);
                    write_at(&mut page_buf, slot * ROW_SIZE, row.as_slice());
                    assert forall|k: int| 0 <= k < PAGE_SIZE implies #[trigger] page_buf[k] == (if k
                        / 291 < slot + 1 && view[k / 291] is Some {
                        view[k / 291]->0[k % 291]
                    } else {
                        0u8
                    }) by {
                        if slot * 291 <= k < slot * 291 + 291 {
                            assert(k / 291 == slot);
                            assert(k % 291 == k - slot * 291);
                        } else {
                            assert(k / 291 != slot);
                            assert(page_buf[k] == before[k]);
                        }
                    }
                },
                None => {
                    assert(view[slot as int] is None);
                },
            }
            slot += 1;
        }
        assert(page_buf@ =~= page_image(view));
        page_buf.truncate(page_size);
        PageWrite { page_num, offset: (page_num * PAGE_SIZE) as u64, bytes: page_buf }
    }

    /// Closes the pager. There is nothing left to release: whatever had to
    /// reach the file was flushed before.
    pub fn close(&mut self) -> (closed: Result<(), String>)
        ensures
            closed is Ok,
            *final(self) == *old(self),
    {
        Ok(())
    }
}

} // verus!
