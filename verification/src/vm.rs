//! Executing statements and meta-commands against a table.
//!
//! Executing a statement may fault pages into the cache. Which pages must
//! be read from the file for a statement is told by [`read_plan`]; the
//! caller reads them and hands the bytes, by page number, to
//! [`execute_statement`].

use vstd::prelude::*;

use crate::compiler::{Statement, StatementType};
use crate::cursor::Cursor;
use crate::lemma_sizes;
use crate::pager::{page_offset, PageRead, TABLE_MAX_PAGES};
use crate::row::{blank_slot, lemma_round_trip, row_decoded, row_image, Row, RowView, ROW_SIZE};
use crate::table::{disk_page, page_of, pages_in_use, scan_page, slot_of, Table, TableView};
use crate::text::{debug_quote, debug_quoted, str_eq};
use crate::{ROWS_PER_PAGE, TABLE_MAX_ROWS};

verus! {

/// What a meta-command asks the caller to do.
#[derive(Debug, Clone, Copy, PartialEq, Eq, Structural)]
pub enum MetaCommand {
    /// Close the table and leave.
    Exit,
}

/// Statement `kind` on a table of `num_rows` rows asks the pager for page
/// `page_num`: an insert for the page of the row to come, unless the table
/// is full; a select for every page that the rows reach.
pub open spec fn touches(kind: StatementType, num_rows: int, page_num: int) -> bool {
    match kind {
        StatementType::Insert => num_rows < TABLE_MAX_ROWS && page_num == page_of(num_rows),
        StatementType::Select => 0 <= page_num < pages_in_use(num_rows),
    }
}

/// `read` is a read that statement `kind` calls for on `table`: of a page
/// that the statement asks the pager for and that the pager takes from the
/// file, at the offset of that page.
pub open spec fn planned(kind: StatementType, table: TableView, read: PageRead) -> bool {
    &&& touches(kind, table.num_rows as int, read.page_num as int)
    &&& table.pager.reads_file(read.page_num as int)
    &&& read.offset == page_offset(read.page_num as int)
}

/// The table after the rows of `rows` have been appended to it one after the
/// other, `disks` holding what the file gave for the page of each; nothing
/// where one of them found the table full.
pub open spec fn inserted_all(table: TableView, rows: Seq<RowView>, disks: Seq<Seq<u8>>) -> Option<
    TableView,
>
    decreases rows.len(),
{
    if rows.len() == 0 {
        Some(table)
    } else {
        match inserted_all(table, rows.drop_last(), disks.drop_last()) {
            Some(so_far) => so_far.try_insert(rows.last(), disks.last()),
            None => None,
        }
    }
}

/// As many rows as the table has room for are all appended, and each counts.
pub proof fn lemma_inserts_count(table: TableView, rows: Seq<RowView>, disks: Seq<Seq<u8>>)
    requires
        table.num_rows + rows.len() <= TABLE_MAX_ROWS,
    ensures
        inserted_all(table, rows, disks) is Some,
        inserted_all(table, rows, disks)->0.num_rows == table.num_rows + rows.len(),
    decreases rows.len(),
{
    if rows.len() > 0 {
        lemma_inserts_count(table, rows.drop_last(), disks.drop_last());
    }
}

/// An empty table takes exactly [`TABLE_MAX_ROWS`] rows: after that many
/// appends it holds that many rows, and one more append finds it full.
pub proof fn lemma_capacity_exhaustion(
    table: TableView,
    rows: Seq<RowView>,
    disks: Seq<Seq<u8>>,
    row: RowView,
    disk: Seq<u8>,
)
    requires
        table.num_rows == 0,
        rows.len() == TABLE_MAX_ROWS,
    ensures
        inserted_all(table, rows, disks) is Some,
        inserted_all(table, rows, disks)->0.num_rows == TABLE_MAX_ROWS,
        inserted_all(table, rows, disks)->0.try_insert(row, disk) is None,
{
    lemma_inserts_count(table, rows, disks);
}

/// A scan is lazy: it leaves every page beyond those that the rows reach as
/// it was, cached or not.
pub proof fn lemma_scan_is_lazy(table: TableView, disk: Seq<Seq<u8>>, page_num: int)
    requires
        pages_in_use(table.num_rows as int) <= page_num < table.pager.pages.len(),
    ensures
        table.scanned(disk, table.num_rows as int).pager.pages[page_num]
            == table.pager.pages[page_num],
{
    lemma_sizes();
}

/// Rows are read in the order in which they were appended: after an append
/// a scan yields the rows that it yielded before, and then the new row as
/// its slot decodes. `disk` is what the file gave for the page of the new
/// row, and the scans are given the same.
pub proof fn lemma_insert_appends(
    table: TableView,
    row: RowView,
    disk: Seq<u8>,
    scan_disk: Seq<Seq<u8>>,
)
    requires
        table.pager.wf(),
        table.num_rows < TABLE_MAX_ROWS,
        table.pager.pages[page_of(table.num_rows as int)] is None ==> disk_page(
            scan_disk,
            page_of(table.num_rows as int),
        ) == disk,
    ensures
        table.inserted(row, disk).selected(scan_disk) == table.selected(scan_disk).push(
            row_decoded(row_image(table.row_bytes(table.num_rows as int, disk), row)),
        ),
{
    lemma_sizes();
    let n = table.num_rows as int;
    let p = page_of(n);
    let s = slot_of(n);
    let after = table.inserted(row, disk);
    let expected = table.selected(scan_disk).push(
        row_decoded(row_image(table.row_bytes(n, disk), row)),
    );
    assert(after.selected(scan_disk).len() == expected.len());
    assert forall|j: int| 0 <= j < expected.len() implies after.selected(scan_disk)[j]
        == expected[j] by {
        let q = page_of(j);
        let d = disk_page(scan_disk, q);
        if j < n {
            if q == p {
                assert(slot_of(j) != s);
                assert(after.row_bytes(j, d) == table.row_bytes(j, d));
            } else {
                assert(after.pager.pages[q] == table.pager.pages[q]);
                assert(after.row_bytes(j, d) == table.row_bytes(j, d));
            }
        } else {
            assert(after.row_bytes(n, d) == row_image(table.row_bytes(n, disk), row));
        }
    }
    assert(after.selected(scan_disk) =~= expected);
}

/// A row that fits its columns and encodes without a zero byte, appended
/// where the slot read as zero bytes, is read back by a scan as it was
/// appended, after the rows that were there before.
pub proof fn lemma_insert_then_select(
    table: TableView,
    row: RowView,
    disk: Seq<u8>,
    scan_disk: Seq<Seq<u8>>,
)
    requires
        table.pager.wf(),
        table.num_rows < TABLE_MAX_ROWS,
        table.pager.pages[page_of(table.num_rows as int)] is None ==> disk_page(
            scan_disk,
            page_of(table.num_rows as int),
        ) == disk,
        table.row_bytes(table.num_rows as int, disk) == blank_slot(),
        row.fits(),
        !vstd::utf8::encode_utf8(row.username).contains(0u8),
        !vstd::utf8::encode_utf8(row.email).contains(0u8),
    ensures
        table.inserted(row, disk).selected(scan_disk) == table.selected(scan_disk).push(row),
{
    lemma_insert_appends(table, row, disk, scan_disk);
    lemma_round_trip(row);
}

/// Reads a meta-command. `.exit` is the only one there is; anything else is
/// answered with a message that quotes it.
pub fn do_meta_command(command: &str) -> (outcome: Result<MetaCommand, String>)
    ensures
        match outcome {
            Ok(meta) => command@ == ".exit"@ && meta == MetaCommand::Exit,
            Err(message) => {
                &&& command@ != ".exit"@
                &&& message@ == "Unrecognized Meta Command: "@ + debug_quoted(command@)
            },
        },
{
    if str_eq(command, ".exit") {
        Ok(MetaCommand::Exit)
    } else {
        Err("Unrecognized Meta Command: ".to_owned().concat(debug_quote(command).as_str()))
    }
}

/// The bytes that the caller read for page `page_num`.
fn page_read(disk: &Vec<Vec<u8>>, page_num: usize) -> (bytes: &[u8])
    ensures
        bytes@ == disk_page(disk.deep_view(), page_num as int),
{
    if page_num < disk.len() {
        assert(disk.deep_view()[page_num as int] =~= disk[page_num as int]@);
        disk[page_num].as_slice()
    } else {
        let nothing: &[u8] = &[];
        assert(nothing@ =~= Seq::<u8>::empty());
        nothing
    }
}

/// The reads that executing `stmt` on `table` calls for: one for each page
/// that the statement asks the pager for and that the pager takes from the
/// file, lowest page first. The caller performs them and hands what it read
/// to [`execute_statement`].
pub fn read_plan(stmt: &Statement, table: &Table) -> (plan: Vec<PageRead>)
    requires
        table.wf(),
    ensures
        forall|k: int| 0 <= k < plan.len() ==> planned(stmt.type_, table@, #[trigger] plan[k]),
        forall|j: int, k: int|
            0 <= j < k < plan.len() ==> (#[trigger] plan[j]).page_num < (#[trigger] plan[k]).page_num,
        forall|p: int|
            touches(stmt.type_, table.num_rows as int, p) && table@.pager.reads_file(p)
                ==> exists|k: int| 0 <= k < plan.len() && (#[trigger] plan[k]).page_num == p,
{
    proof {
        lemma_sizes();
    }
    let mut plan: Vec<PageRead> = Vec::new();
    match stmt.type_ {
        StatementType::Insert => {
            if table.num_rows < TABLE_MAX_ROWS {
                match table.pager.pending_read(table.num_rows / ROWS_PER_PAGE) {
                    Some(read) => {
                        plan.push(read);
                        assert(plan[0].page_num == page_of(table.num_rows as int));
                    },
                    None => {},
                }
            }
        },
        StatementType::Select => {
            let mut end: usize = table.num_rows / ROWS_PER_PAGE;
            if table.num_rows % ROWS_PER_PAGE > 0 {
                end += 1;
            }
            if end > TABLE_MAX_PAGES {
                end = TABLE_MAX_PAGES;
            }
            let mut page_num: usize = 0;
            while page_num < end
                invariant
                    ROWS_PER_PAGE == 14,
                    table.wf(),
                    stmt.type_ == StatementType::Select,
                    page_num <= end <= TABLE_MAX_PAGES,
                    end <= pages_in_use(table.num_rows as int),
                    forall|k: int|
                        0 <= k < plan.len() ==> planned(stmt.type_, table@, #[trigger] plan[k]),
                    forall|k: int| 0 <= k < plan.len() ==> (#[trigger] plan[k]).page_num < page_num,
                    forall|j: int, k: int|
                        0 <= j < k < plan.len() ==> (#[trigger] plan[j]).page_num < (
                        #[trigger] plan[k]).page_num,
                    forall|p: int|
                        0 <= p < page_num && table@.pager.reads_file(p) ==> exists|k: int|
                            0 <= k < plan.len() && (#[trigger] plan[k]).page_num == p,
                decreases end - page_num,
            {
                let ghost before = plan@;
                match table.pager.pending_read(page_num) {
                    Some(read) => {
                        plan.push(read);
                        assert(plan[plan.len() - 1].page_num == page_num);
                    },
                    None => {},
                }
                assert forall|p: int|
                    0 <= p < page_num + 1 && table@.pager.reads_file(p) implies exists|k: int|
                    0 <= k < plan.len() && (#[trigger] plan[k]).page_num == p by {
                    if p < page_num {
                        let k = choose|k: int|
                            0 <= k < before.len() && (#[trigger] before[k]).page_num == p;
                        assert(plan[k].page_num == p);
                    }
                }
                page_num += 1;
            }
        },
    }
    plan
}

/// Appends the row of `stmt` to the table, unless the table is full.
///
/// `disk` holds what the caller read from the file, by page number; of it
/// only the page that the row goes to is looked at, and only where that
/// page is not cached.
pub fn execute_insert(stmt: Statement, table: &mut Table, disk: &Vec<Vec<u8>>) -> (outcome: Result<
    (),
    String,
>)
    requires
        old(table).wf(),
        stmt.row_to_insert is Some,
    ensures
        final(table).wf(),
        match outcome {
            Ok(()) => Some(final(table)@) == old(table)@.try_insert(
                stmt@.row_to_insert->0,
                disk_page(disk.deep_view(), page_of(old(table).num_rows as int)),
            ),
            Err(message) => {
                &&& old(table)@.num_rows >= TABLE_MAX_ROWS
                &&& message@ == "Execute Table Full"@
                &&& *final(table) == *old(table)
            },
        },
{
    proof {
        lemma_sizes();
    }
    if table.num_rows >= TABLE_MAX_ROWS {
        return Err("Execute Table Full".to_owned());
    }
    let cursor = Cursor::table_end(table);
    let page = page_read(disk, cursor.row_num / ROWS_PER_PAGE);
    match cursor.cursor_value(table, page) {
        Ok(buf) => {
            stmt.row_to_insert.unwrap().serialize(buf);
        },
        Err(_) => {
            // The row is within the capacity, and so is its page.
            assert(false);
        },
    }
    table.num_rows += 1;
    assert(table@ =~= old(table)@.inserted(
        stmt@.row_to_insert->0,
        disk_page(disk.deep_view(), page_of(old(table).num_rows as int)),
    ));
    Ok(())
}

/// Reads every row of the table, in order.
///
/// `disk` holds what the caller read from the file, by page number; a page
/// of it is looked at only where the rows reach that page and it is not
/// cached. The scan brings every page that the rows reach into the cache
/// and materializes the slot of every row; no other page is touched.
pub fn execute_select(_stmt: Statement, table: &mut Table, disk: &Vec<Vec<u8>>) -> (outcome: Result<
    Vec<Row>,
    String,
>)
    requires
        old(table).wf(),
        old(table).num_rows <= TABLE_MAX_ROWS,
    ensures
        final(table).wf(),
        final(table)@ == old(table)@.scanned(disk.deep_view(), old(table).num_rows as int),
        outcome matches Ok(rows) && rows.len() == old(table).num_rows && rows.deep_view() == old(
            table,
        )@.selected(disk.deep_view()),
{
    proof {
        lemma_sizes();
    }
    let mut rows: Vec<Row> = Vec::new();
    let mut cursor = Cursor::table_start(table);
    assert(table@ =~= old(table)@.scanned(disk.deep_view(), 0));
    while !cursor.end_of_table
        invariant
            ROWS_PER_PAGE == 14,
            TABLE_MAX_ROWS == 1400,
            ROW_SIZE == 291,
            old(table).wf(),
            table.wf(),
            table.num_rows == old(table).num_rows,
            table.num_rows <= TABLE_MAX_ROWS,
            table@.pager.file_length == old(table)@.pager.file_length,
            cursor.row_num <= table.num_rows,
            cursor.end_of_table == (cursor.row_num >= table.num_rows),
            rows.len() == cursor.row_num,
            table@ == old(table)@.scanned(disk.deep_view(), cursor.row_num as int),
            forall|j: int|
                0 <= j < cursor.row_num ==> (#[trigger] rows[j])@ == row_decoded(
                    old(table)@.row_bytes(j, disk_page(disk.deep_view(), page_of(j))),
                ),
        decreases table.num_rows - cursor.row_num,
    {
        let ghost before = table@;
        let ghost i = cursor.row_num as int;
        let ghost p = page_of(i);
        let ghost s = slot_of(i);
        let ghost bytes = disk_page(disk.deep_view(), p);
        let page = page_read(disk, cursor.row_num / ROWS_PER_PAGE);
        assert(before.pager.fetched(p, bytes).pages[p] == Some(
            if s == 0 {
                old(table)@.pager.fetched(p, bytes).pages[p]->0
            } else {
                scan_page(old(table)@.pager.fetched(p, bytes).pages[p]->0, s)
            },
        ));
        match cursor.cursor_value(table, page) {
            Ok(buf) => {
                let row = Row::deserialize(buf);
                rows.push(row);
            },
            Err(_) => {
                // The rows are within the capacity, and so are their pages.
                assert(false);
            },
        }
        cursor.advance(table);
        proof {
            let base = old(table)@.pager.fetched(p, bytes).pages[p]->0;
            let after = old(table)@.scanned(disk.deep_view(), i + 1).pager.pages;
            assert(table@.pager.pages.len() == after.len());
            assert forall|q: int| 0 <= q < after.len() implies table@.pager.pages[q] == after[q] by {
                if q == p {
                    assert(table@.pager.pages[p] is Some);
                    assert(table@.pager.pages[p]->0 =~= scan_page(base, s + 1));
                } else {
                    assert(table@.pager.pages[q] == before.pager.pages[q]);
                }
            }
            assert(table@.pager.pages =~= after);
            assert(table@ =~= old(table)@.scanned(disk.deep_view(), i + 1));
        }
    }
    assert(rows.deep_view() =~= old(table)@.selected(disk.deep_view()));
    Ok(rows)
}

/// Executes a statement: an insert appends its row and yields no rows, a
/// select yields every row of the table.
pub fn execute_statement(stmt: Statement, table: &mut Table, disk: &Vec<Vec<u8>>) -> (outcome:
    Result<Vec<Row>, String>)
    requires
        old(table).wf(),
        stmt.type_ == StatementType::Insert ==> stmt.row_to_insert is Some,
        stmt.type_ == StatementType::Select ==> old(table).num_rows <= TABLE_MAX_ROWS,
    ensures
        final(table).wf(),
        match stmt.type_ {
            StatementType::Insert => match outcome {
                Ok(rows) => {
                    &&& rows.len() == 0
                    &&& Some(final(table)@) == old(table)@.try_insert(
                        stmt@.row_to_insert->0,
                        disk_page(disk.deep_view(), page_of(old(table).num_rows as int)),
                    )
                },
                Err(message) => {
                    &&& old(table)@.num_rows >= TABLE_MAX_ROWS
                    &&& message@ == "Execute Table Full"@
                    &&& *final(table) == *old(table)
                },
            },
            StatementType::Select => {
                &&& final(table)@ == old(table)@.scanned(
                    disk.deep_view(),
                    old(table).num_rows as int,
                )
                &&& outcome matches Ok(rows) && rows.deep_view() == old(table)@.selected(
                    disk.deep_view(),
                )
            },
        },
{
    match stmt.type_ {
        StatementType::Insert => match execute_insert(stmt, table, disk) {
            Ok(()) => Ok(Vec::new()),
            Err(message) => Err(message),
        },
        StatementType::Select => execute_select(stmt, table, disk),
    }
}

} // verus!
