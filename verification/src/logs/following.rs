//! Reading all host log files by following the cursors from page to page.

use crate::logs::cursor::{CursorView, SourcePos};
use crate::logs::entry::{EntryView, LogFilter, Timestamp};
use crate::logs::lines::{
    all_lines_from, law_a_page_and_the_rest, law_position_moves_forward, lines_from,
};
use crate::logs::paging::{
    asks_for_everything, lemma_all_lines_pass, line_entries, line_entry, positions_behind, resume_at,
    saved_pos, scan_files, LogFile, Scan,
};
use crate::paths::source_of;
use vstd::prelude::*;

verus! {

/// Files that can all be read and that go by different names.
pub open spec fn readable(files: Seq<LogFile>) -> bool {
    &&& forall|i: int|
        0 <= i < files.len() ==> (#[trigger] files[i]).bytes is Some && files[i].bytes->0@.len()
            <= u64::MAX
    &&& forall|i: int, j: int|
        0 <= i < j < files.len() ==> source_of((#[trigger] files[i]).path@) != source_of(
            (#[trigger] files[j]).path@,
        )
}

/// A cursor of this boot, or none.
pub open spec fn of_this_boot(cursor: Option<CursorView>, boot_epoch: u64) -> bool {
    cursor matches Some(c) ==> c.boot_epoch == boot_epoch
}

/// Where reading each file resumes.
pub open spec fn offsets(files: Seq<LogFile>, cursor: Option<CursorView>, boot_epoch: u64) -> Seq<
    int,
> {
    Seq::new(
        files.len(),
        |i: int| resume_at(cursor, boot_epoch, files[i].path@, files[i].bytes->0@.len()),
    )
}

/// The entries of all lines of a file from a byte on that are complete and not blank.
pub open spec fn entries_from(file: LogFile, from: int) -> Seq<EntryView> {
    all_lines_from(file.bytes->0@, from).map_values(
        |line: Seq<char>| line_entry(source_of(file.path@), file.mtime, line),
    )
}

/// The entries that the first `n` files still hold, one file behind the other.
pub open spec fn still_held(files: Seq<LogFile>, n: nat, at: Seq<int>) -> Seq<EntryView>
    decreases n,
{
    if n == 0 {
        Seq::empty()
    } else {
        still_held(files, (n - 1) as nat, at) + entries_from(files[n - 1], at[n - 1])
    }
}

/// The bytes of the first `n` files that were not passed yet.
pub open spec fn bytes_left(files: Seq<LogFile>, n: nat, at: Seq<int>) -> int
    decreases n,
{
    if n == 0 {
        0
    } else {
        bytes_left(files, (n - 1) as nat, at) + files[n - 1].bytes->0@.len() - at[n - 1]
    }
}

/// Where reading each file resumes after a scan.
pub open spec fn offsets_behind(files: Seq<LogFile>, scan: Scan, at: Seq<int>) -> Seq<int> {
    Seq::new(
        files.len(),
        |i: int|
            if scan.next.contains_key(source_of(files[i].path@)) {
                scan.next[source_of(files[i].path@)].offset as int
            } else {
                at[i]
            },
    )
}

/// All that following the cursors from one on gives, in up to `pages` pages: every
/// page, up to the first that did not get any further.
pub open spec fn followed(
    files: Seq<LogFile>,
    filter: LogFilter,
    cursor: Option<CursorView>,
    boot_epoch: u64,
    pages: nat,
) -> Seq<EntryView>
    decreases pages,
{
    if pages == 0 {
        Seq::empty()
    } else {
        let scan = scan_files(files, files.len(), filter, cursor, boot_epoch);
        if scan.advanced {
            scan.items + followed(
                files,
                filter,
                Some(positions_behind(scan, cursor, boot_epoch)),
                boot_epoch,
                (pages - 1) as nat,
            )
        } else {
            scan.items
        }
    }
}

/// Following the cursors from one on comes to an end within `pages` pages.
pub open spec fn comes_to_an_end(
    files: Seq<LogFile>,
    filter: LogFilter,
    cursor: Option<CursorView>,
    boot_epoch: u64,
    pages: nat,
) -> bool
    decreases pages,
{
    if pages == 0 {
        false
    } else {
        let scan = scan_files(files, files.len(), filter, cursor, boot_epoch);
        !scan.advanced || comes_to_an_end(
            files,
            filter,
            Some(positions_behind(scan, cursor, boot_epoch)),
            boot_epoch,
            (pages - 1) as nat,
        )
    }
}

proof fn lemma_held_depends_on_offsets(files: Seq<LogFile>, n: nat, a: Seq<int>, b: Seq<int>)
    requires
        n <= files.len(),
        forall|i: int| 0 <= i < n ==> a[i] == b[i],
    ensures
        still_held(files, n, a) == still_held(files, n, b),
        bytes_left(files, n, a) == bytes_left(files, n, b),
    decreases n,
{
    if n > 0 {
        lemma_held_depends_on_offsets(files, (n - 1) as nat, a, b);
    }
}

/// What a scan over the first `n` files did: its entries and what the files hold
/// behind it are what they held before.
pub open spec fn scan_accounts(files: Seq<LogFile>, n: nat, size: nat, scan: Scan, at: Seq<int>) -> bool {
    let behind = offsets_behind(files, scan, at);
    &&& still_held(files, n, at) == scan.items + still_held(files, n, behind)
    &&& !scan.full ==> still_held(files, n, behind).len() == 0 && scan.items.len() < size
    &&& scan.full ==> scan.advanced
    &&& !scan.advanced ==> scan.items.len() == 0
    &&& bytes_left(files, n, behind) <= bytes_left(files, n, at)
    &&& scan.advanced ==> bytes_left(files, n, behind) < bytes_left(files, n, at)
    &&& forall|s: Seq<char>| #[trigger]
        scan.next.contains_key(s) ==> exists|i: int|
            0 <= i < n && source_of((#[trigger] files[i]).path@) == s
    &&& forall|i: int|
        0 <= i < n ==> 0 <= #[trigger] behind[i] <= files[i].bytes->0@.len()
}

proof fn lemma_scan_accounts(
    files: Seq<LogFile>,
    n: nat,
    filter: LogFilter,
    cursor: Option<CursorView>,
    boot_epoch: u64,
)
    requires
        n <= files.len(),
        readable(files),
        asks_for_everything(filter),
        filter.page_size() > 0,
    ensures
        scan_accounts(
            files,
            n,
            filter.page_size(),
            scan_files(files, n, filter, cursor, boot_epoch),
            offsets(files, cursor, boot_epoch),
        ),
    decreases n,
{
    let at = offsets(files, cursor, boot_epoch);
    let scan = scan_files(files, n, filter, cursor, boot_epoch);
    let behind = offsets_behind(files, scan, at);
    if n == 0 {
        assert(still_held(files, 0, at) =~= scan.items + still_held(files, 0, behind));
    } else {
        let m = (n - 1) as nat;
        lemma_scan_accounts(files, m, filter, cursor, boot_epoch);
        let before = scan_files(files, m, filter, cursor, boot_epoch);
        let behind_before = offsets_behind(files, before, at);
        let file = files[n - 1];
        let source = source_of(file.path@);
        let bytes = file.bytes->0@;
        assert(file.bytes is Some);
        assert(!before.next.contains_key(source)) by {
            if before.next.contains_key(source) {
                let i = choose|i: int|
                    0 <= i < m && source_of((#[trigger] files[i]).path@) == source;
                assert(source_of(files[i].path@) != source_of(files[n - 1].path@));
            }
        }
        assert(at[n - 1] == resume_at(cursor, boot_epoch, file.path@, bytes.len()));
        assert(0 <= at[n - 1] <= bytes.len());
        if before.full {
            assert(scan == before);
            assert(behind =~= behind_before);
            assert(behind[n - 1] == at[n - 1]);
            assert(still_held(files, n, at) =~= scan.items + still_held(files, n, behind));
            assert forall|s: Seq<char>| #[trigger] scan.next.contains_key(s) implies exists|i: int|
                0 <= i < n && source_of((#[trigger] files[i]).path@) == s by {
                let i = choose|i: int| 0 <= i < m && source_of((#[trigger] files[i]).path@) == s;
                assert(0 <= i < n && source_of(files[i].path@) == s);
            }
        } else {
            let start = at[n - 1];
            let room = (filter.page_size() - before.items.len()) as nat;
            let read = lines_from(bytes, start, room);
            let entry = |line: Seq<char>| line_entry(source, file.mtime, line);
            law_a_page_and_the_rest(bytes, start, room);
            law_position_moves_forward(bytes, start, room);
            lemma_all_lines_pass(source, file.mtime, read.0, filter);
            let rest = all_lines_from(bytes, read.1);
            assert(scan.items =~= before.items + read.0.map_values(entry));
            assert(scan.next == before.next.insert(
                source,
                SourcePos { gen: 0, offset: read.1 as u64 },
            ));
            assert(behind[n - 1] == read.1);
            assert forall|i: int| 0 <= i < m implies behind[i] == #[trigger] behind_before[i] by {
                assert(source_of(files[i].path@) != source_of(files[n - 1].path@));
            }
            lemma_held_depends_on_offsets(files, m, behind, behind_before);
            assert((read.0 + rest).map_values(entry) =~= read.0.map_values(entry) + rest.map_values(
                entry,
            ));
            assert(entries_from(file, start) =~= read.0.map_values(entry) + entries_from(
                file,
                read.1,
            ));
            assert(still_held(files, m, behind) =~= Seq::empty());
            assert(still_held(files, n, behind) =~= entries_from(file, read.1));
            assert(still_held(files, m, at) =~= before.items);
            assert(still_held(files, n, at) =~= scan.items + still_held(files, n, behind));
            assert forall|s: Seq<char>| #[trigger] scan.next.contains_key(s) implies exists|i: int|
                0 <= i < n && source_of((#[trigger] files[i]).path@) == s by {
                if s == source {
                    assert(source_of(files[n - 1].path@) == s);
                } else {
                    let i = choose|i: int|
                        0 <= i < m && source_of((#[trigger] files[i]).path@) == s;
                    assert(0 <= i < n && source_of(files[i].path@) == s);
                }
            }
            assert forall|i: int| 0 <= i < n implies 0 <= #[trigger] behind[i]
                <= files[i].bytes->0@.len() by {
                if i < m {
                    assert(behind[i] == behind_before[i]);
                }
            }
        }
    }
}

/// The cursor that a page gives leads to where the page stopped.
proof fn lemma_cursor_leads_on(
    files: Seq<LogFile>,
    filter: LogFilter,
    cursor: Option<CursorView>,
    boot_epoch: u64,
)
    requires
        readable(files),
        of_this_boot(cursor, boot_epoch),
        asks_for_everything(filter),
        filter.page_size() > 0,
    ensures
        ({
            let scan = scan_files(files, files.len(), filter, cursor, boot_epoch);
            offsets(files, Some(positions_behind(scan, cursor, boot_epoch)), boot_epoch)
                == offsets_behind(files, scan, offsets(files, cursor, boot_epoch))
        }),
{
    let at = offsets(files, cursor, boot_epoch);
    let scan = scan_files(files, files.len(), filter, cursor, boot_epoch);
    let behind = offsets_behind(files, scan, at);
    let next = Some(positions_behind(scan, cursor, boot_epoch));
    lemma_scan_accounts(files, files.len(), filter, cursor, boot_epoch);
    assert forall|i: int| 0 <= i < files.len() implies #[trigger] offsets(
        files,
        next,
        boot_epoch,
    )[i] == behind[i] by {
        let source = source_of(files[i].path@);
        assert(0 <= behind[i] <= files[i].bytes->0@.len());
        if scan.next.contains_key(source) {
            assert(saved_pos(next, source) == Some(scan.next[source]));
        } else {
            assert(saved_pos(next, source) == saved_pos(cursor, source));
        }
    }
    assert(offsets(files, next, boot_epoch) =~= behind);
}

/// Following the cursors from one of this boot on comes to an end, and gives every
/// line that was not passed yet, complete and not blank, exactly once: file by file,
/// and each file from its beginning to its end.
pub proof fn law_following_the_cursors_reads_everything(
    files: Seq<LogFile>,
    filter: LogFilter,
    cursor: Option<CursorView>,
    boot_epoch: u64,
    pages: nat,
)
    requires
        readable(files),
        of_this_boot(cursor, boot_epoch),
        asks_for_everything(filter),
        filter.page_size() > 0,
        pages > bytes_left(files, files.len(), offsets(files, cursor, boot_epoch)),
    ensures
        followed(files, filter, cursor, boot_epoch, pages) == still_held(
            files,
            files.len(),
            offsets(files, cursor, boot_epoch),
        ),
        comes_to_an_end(files, filter, cursor, boot_epoch, pages),
    decreases pages,
{
    let n = files.len();
    let at = offsets(files, cursor, boot_epoch);
    let scan = scan_files(files, n, filter, cursor, boot_epoch);
    let next = Some(positions_behind(scan, cursor, boot_epoch));
    lemma_scan_accounts(files, n, filter, cursor, boot_epoch);
    lemma_cursor_leads_on(files, filter, cursor, boot_epoch);
    lemma_left_is_not_negative(files, n, at);
    lemma_left_is_not_negative(files, n, offsets_behind(files, scan, at));
    if scan.advanced {
        law_following_the_cursors_reads_everything(
            files,
            filter,
            next,
            boot_epoch,
            (pages - 1) as nat,
        );
    } else {
        assert(still_held(files, n, at) =~= scan.items);
    }
}

proof fn lemma_left_is_not_negative(files: Seq<LogFile>, n: nat, at: Seq<int>)
    requires
        n <= files.len(),
        forall|i: int| 0 <= i < n ==> #[trigger] at[i] <= files[i].bytes->0@.len(),
    ensures
        bytes_left(files, n, at) >= 0,
    decreases n,
{
    if n > 0 {
        lemma_left_is_not_negative(files, (n - 1) as nat, at);
        assert(at[n - 1] <= files[n - 1].bytes->0@.len());
    }
}

/// A reader who begins without a cursor begins at the start of every file, so that
/// following the cursors gives every line of every file that is complete and not
/// blank.
pub proof fn law_without_a_cursor_everything_is_left(files: Seq<LogFile>, boot_epoch: u64, i: int)
    requires
        0 <= i < files.len(),
    ensures
        offsets(files, None, boot_epoch)[i] == 0,
{
}

/// A filter that differs from another in the cursor alone.
pub open spec fn same_but_cursor(a: LogFilter, b: LogFilter) -> bool {
    a == (LogFilter { after: a.after, ..b })
}

/// Asking for the next page means to ask again with the cursor of this one: the page
/// that is then scanned is the one that following the cursors comes to.
pub proof fn law_next_page_follows(
    files: Seq<LogFile>,
    n: nat,
    first: LogFilter,
    second: LogFilter,
    cursor: Option<CursorView>,
    boot_epoch: u64,
)
    requires
        n <= files.len(),
        same_but_cursor(second, first),
    ensures
        scan_files(files, n, second, cursor, boot_epoch) == scan_files(
            files,
            n,
            first,
            cursor,
            boot_epoch,
        ),
    decreases n,
{
    if n > 0 {
        law_next_page_follows(files, (n - 1) as nat, first, second, cursor, boot_epoch);
        let file = files[n - 1];
        if let Some(bytes) = file.bytes {
            let start = resume_at(cursor, boot_epoch, file.path@, bytes@.len());
            let scan = scan_files(files, (n - 1) as nat, first, cursor, boot_epoch);
            let room = if scan.items.len() < first.page_size() {
                (first.page_size() - scan.items.len()) as nat
            } else {
                0
            };
            lemma_same_entries(
                source_of(file.path@),
                file.mtime,
                lines_from(bytes@, start, room).0,
                first,
                second,
            );
        }
    }
}

proof fn lemma_same_entries(
    source: Seq<char>,
    ts: Timestamp,
    lines: Seq<Seq<char>>,
    a: LogFilter,
    b: LogFilter,
)
    requires
        same_but_cursor(b, a),
    ensures
        line_entries(source, ts, lines, a) == line_entries(source, ts, lines, b),
    decreases lines.len(),
{
    if lines.len() > 0 {
        lemma_same_entries(source, ts, lines.drop_last(), a, b);
    }
}

} // verus!
