use rowdb::pager::{PageRead, Pager, PagerError, PAGE_SIZE, TABLE_MAX_PAGES};
use rowdb::row::ROW_SIZE;
use rowdb::ROWS_PER_PAGE;

fn slot_of(byte: u8) -> Vec<u8> {
    vec![byte; ROW_SIZE]
}

#[test]
fn page_sizes() {
    assert_eq!(PAGE_SIZE, 4096);
    assert_eq!(TABLE_MAX_PAGES, 100);
    assert_eq!(ROWS_PER_PAGE, 14);
}

#[test]
fn open_caches_nothing() {
    let pager = Pager::open(12345);
    assert_eq!(pager.file_length, 12345);
    assert_eq!(pager.pages.len(), 100);
    assert!(pager.pages.iter().all(|p| p.is_none()));
}

#[test]
fn empty_file_is_never_read() {
    let pager = Pager::open(0);
    assert_eq!(pager.pending_read(0), None);
    assert_eq!(pager.pending_read(1), None);
}

#[test]
fn one_byte_makes_a_page_to_read() {
    let pager = Pager::open(1);
    assert_eq!(pager.pending_read(0), Some(PageRead { page_num: 0, offset: 0 }));
    assert_eq!(pager.pending_read(1), None);
}

#[test]
fn file_is_read_as_far_as_it_reaches() {
    // Two whole pages and ten bytes: three pages.
    let pager = Pager::open(2 * 4096 + 10);
    assert_eq!(pager.pending_read(0), Some(PageRead { page_num: 0, offset: 0 }));
    assert_eq!(pager.pending_read(1), Some(PageRead { page_num: 1, offset: 4096 }));
    assert_eq!(pager.pending_read(2), Some(PageRead { page_num: 2, offset: 8192 }));
    assert_eq!(pager.pending_read(3), None);
}

#[test]
fn whole_pages_count_as_they_are() {
    let pager = Pager::open(2 * 4096);
    assert_eq!(pager.pending_read(1), Some(PageRead { page_num: 1, offset: 4096 }));
    assert_eq!(pager.pending_read(2), None);
}

#[test]
fn no_read_beyond_the_cache() {
    let pager = Pager::open(usize::MAX);
    assert_eq!(pager.pending_read(99), Some(PageRead { page_num: 99, offset: 99 * 4096 }));
    assert_eq!(pager.pending_read(100), None);
    assert_eq!(pager.pending_read(101), None);
    assert_eq!(pager.pending_read(usize::MAX), None);
}

#[test]
fn no_read_for_a_cached_page() {
    let mut pager = Pager::open(2 * 4096);
    pager.get_page(0, &[1u8; 4096]).unwrap();
    assert_eq!(pager.pending_read(0), None);
    assert_eq!(pager.pending_read(1), Some(PageRead { page_num: 1, offset: 4096 }));
}

#[test]
fn page_comes_from_what_was_read() {
    let mut disk = vec![0u8; PAGE_SIZE];
    disk[0..291].copy_from_slice(&slot_of(1));
    // Slot 1 stays zero.
    disk[582..873].copy_from_slice(&slot_of(3));
    disk[13 * 291 + 290] = 9;
    let mut pager = Pager::open(4096);
    let page = pager.get_page(0, &disk).unwrap();
    assert_eq!(page.len(), 14);
    assert_eq!(page[0], Some(slot_of(1)));
    assert_eq!(page[1], None);
    assert_eq!(page[2], Some(slot_of(3)));
    for slot in 3..13 {
        assert_eq!(page[slot], None);
    }
    let mut last = slot_of(0);
    last[290] = 9;
    assert_eq!(page[13], Some(last));
}

#[test]
fn bytes_after_the_last_slot_are_dropped() {
    let mut disk = vec![0u8; PAGE_SIZE];
    for b in disk[14 * 291..].iter_mut() {
        *b = 0xff;
    }
    let mut pager = Pager::open(4096);
    let page = pager.get_page(0, &disk).unwrap();
    assert!(page.iter().all(|s| s.is_none()));
}

#[test]
fn short_read_is_filled_with_zero_bytes() {
    let disk = vec![7u8; 300];
    let mut pager = Pager::open(300);
    let page = pager.get_page(0, &disk).unwrap();
    assert_eq!(page[0], Some(slot_of(7)));
    let mut second = slot_of(0);
    for b in second[0..9].iter_mut() {
        *b = 7;
    }
    assert_eq!(page[1], Some(second));
    assert_eq!(page[2], None);
}

#[test]
fn long_read_is_cut_at_the_page() {
    let disk = vec![7u8; 3 * PAGE_SIZE];
    let mut pager = Pager::open(3 * PAGE_SIZE);
    let page = pager.get_page(1, &disk).unwrap();
    assert_eq!(page.len(), 14);
    assert!(page.iter().all(|s| *s == Some(slot_of(7))));
}

#[test]
fn nothing_read_makes_a_blank_page() {
    let mut pager = Pager::open(4096);
    let page = pager.get_page(0, &[]).unwrap();
    assert_eq!(page.len(), 14);
    assert!(page.iter().all(|s| s.is_none()));
    assert!(pager.pages[0].is_some());
    assert!(pager.pages[1].is_none());
}

#[test]
fn page_beyond_the_file_is_blank_whatever_was_read() {
    let disk = vec![5u8; PAGE_SIZE];
    let mut pager = Pager::open(4096);
    // The file reaches one page: page 0 comes from it, page 1 does not.
    let page = pager.get_page(1, &disk).unwrap();
    assert!(page.iter().all(|s| s.is_none()));
    let page = pager.get_page(0, &disk).unwrap();
    assert!(page.iter().all(|s| *s == Some(slot_of(5))));
}

#[test]
fn cached_page_is_handed_out_as_it_is() {
    let mut pager = Pager::open(4096);
    let first = vec![1u8; PAGE_SIZE];
    let other = vec![2u8; PAGE_SIZE];
    pager.get_page(0, &first).unwrap()[3] = Some(slot_of(8));
    let page = pager.get_page(0, &other).unwrap();
    assert_eq!(page[0], Some(slot_of(1)));
    assert_eq!(page[3], Some(slot_of(8)));
}

#[test]
fn page_number_at_the_bound_is_refused() {
    let mut pager = Pager::open(usize::MAX);
    let disk = vec![1u8; PAGE_SIZE];
    assert_eq!(pager.get_page(100, &disk).unwrap_err(), PagerError::PageOutOfBounds(100));
    assert_eq!(pager.pages.len(), 100);
    assert!(pager.pages.iter().all(|p| p.is_none()));
    assert_eq!(pager.file_length, usize::MAX);
}

#[test]
fn page_number_beyond_the_bound_is_refused() {
    let mut pager = Pager::open(0);
    assert_eq!(pager.get_page(101, &[]).unwrap_err(), PagerError::PageOutOfBounds(101));
    assert_eq!(
        pager.get_page(usize::MAX, &[]).unwrap_err(),
        PagerError::PageOutOfBounds(usize::MAX)
    );
    assert!(pager.pages.iter().all(|p| p.is_none()));
}

#[test]
fn last_page_is_within_the_bound() {
    let mut pager = Pager::open(0);
    assert!(pager.get_page(99, &[]).is_ok());
    assert!(pager.pages[99].is_some());
}

fn sample_pager() -> Pager {
    let mut pager = Pager::open(0);
    let page = pager.get_page(3, &[]).unwrap();
    page[0] = Some(slot_of(1));
    page[2] = Some(slot_of(3));
    page[13] = Some(slot_of(14));
    pager
}

#[test]
fn flush_writes_the_whole_page() {
    let pager = sample_pager();
    let write = pager.flush(3, PAGE_SIZE);
    assert_eq!(write.page_num, 3);
    assert_eq!(write.offset, 3 * 4096);
    let mut expected = vec![0u8; 4096];
    expected[0..291].copy_from_slice(&slot_of(1));
    expected[582..873].copy_from_slice(&slot_of(3));
    expected[13 * 291..14 * 291].copy_from_slice(&slot_of(14));
    assert_eq!(write.bytes, expected);
}

#[test]
fn flush_writes_part_of_a_page() {
    let pager = sample_pager();
    let write = pager.flush(3, 3 * ROW_SIZE);
    assert_eq!(write.offset, 12288);
    let mut expected = vec![0u8; 873];
    expected[0..291].copy_from_slice(&slot_of(1));
    expected[582..873].copy_from_slice(&slot_of(3));
    assert_eq!(write.bytes, expected);
}

#[test]
fn flush_cuts_a_slot_where_the_size_says() {
    let pager = sample_pager();
    // Two whole slots and a hundred bytes of the third.
    let write = pager.flush(3, 2 * ROW_SIZE + 100);
    let mut expected = vec![0u8; 682];
    expected[0..291].copy_from_slice(&slot_of(1));
    for b in expected[582..682].iter_mut() {
        *b = 3;
    }
    assert_eq!(write.bytes, expected);
}

#[test]
fn flush_of_nothing_writes_nothing() {
    let pager = sample_pager();
    let write = pager.flush(3, 0);
    assert_eq!(write.page_num, 3);
    assert!(write.bytes.is_empty());
}

#[test]
fn flush_leaves_the_cache_alone() {
    let pager = sample_pager();
    let _ = pager.flush(3, PAGE_SIZE);
    assert_eq!(pager.pages[3].as_ref().unwrap()[0], Some(slot_of(1)));
}

#[test]
fn what_is_flushed_is_what_is_loaded() {
    let pager = sample_pager();
    let write = pager.flush(3, PAGE_SIZE);
    let mut again = Pager::open(4 * PAGE_SIZE);
    let page = again.get_page(3, &write.bytes).unwrap();
    assert_eq!(*page, *pager.pages[3].as_ref().unwrap());
}

#[test]
fn slot_of_zero_bytes_comes_back_unmaterialized() {
    let mut pager = Pager::open(0);
    pager.get_page(0, &[]).unwrap()[4] = Some(slot_of(0));
    let write = pager.flush(0, PAGE_SIZE);
    assert_eq!(write.bytes, vec![0u8; 4096]);
    let mut again = Pager::open(PAGE_SIZE);
    let page = again.get_page(0, &write.bytes).unwrap();
    assert_eq!(page[4], None);
}

#[test]
fn close_does_nothing() {
    let mut pager = sample_pager();
    assert_eq!(pager.close(), Ok(()));
    assert!(pager.pages[3].is_some());
    assert_eq!(pager.file_length, 0);
}
