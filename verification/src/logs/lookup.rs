//! Looking an entry up again by its id, in all that the sources hold.

use crate::error::{BackendError, BackendFault};
use crate::logs::cursor::{CursorView, SourcePos};
use crate::logs::dumps::{dump_entries, held_dumps, law_listed_dumps_are_held, DumpFile};
use crate::logs::entry::{entries_view, texts, EntryView, LogEntry, LogFilter, Timestamp};
use crate::logs::following::{of_this_boot, readable};
use crate::logs::ids::{
    find_log_entry, finds, law_line_ids_are_ids, law_listed_entry_is_found, parsed_id, IdView,
};
use crate::logs::lines::{
    all_complete_lines, all_file_lines, all_lines_from, byte_lines, law_page_lines_are_file_lines,
    law_pages_end_at_line_starts, law_position_moves_forward, law_tail_lines_are_file_lines,
    lines_from, not_blank, starts_line, tail_lines,
};
use crate::logs::listing::{law_merge_keeps_entries, newest_first};
use crate::logs::paging::{
    cursor_asked, gathered, last_entries, lemma_all_lines_pass, line_entries, line_entry,
    page_scan, positions_behind, push_entries, resume_at, saved_pos, scan_files, LogFile, Scan,
};
use crate::paths::{source_name, source_of};
use vstd::prelude::*;

verus! {

/// The entry that each line of a file makes.
pub open spec fn made_of(file: LogFile, lines: Seq<Seq<char>>) -> Seq<EntryView> {
    lines.map_values(|line: Seq<char>| line_entry(source_of(file.path@), file.mtime, line))
}

/// The entries of all lines of a file. A page cuts every carriage return off the end of
/// a line, the listing of the file's end only one, and it takes a last line without its
/// line end too, so the lines stand there as either reads them.
pub open spec fn held_lines(file: LogFile) -> Seq<EntryView> {
    match file.bytes {
        Some(bytes) => made_of(file, not_blank(byte_lines(bytes@, 0))) + made_of(
            file,
            all_lines_from(bytes@, 0),
        ),
        None => Seq::empty(),
    }
}

/// The entries of all lines of the first `n` files.
pub open spec fn held(files: Seq<LogFile>, n: nat) -> Seq<EntryView>
    decreases n,
{
    if n == 0 {
        Seq::empty()
    } else {
        held(files, (n - 1) as nat) + held_lines(files[n - 1])
    }
}

/// All that host log files hold, without a limit on the lines or the bytes: what an
/// entry is looked for in.
pub fn all_host_lines(files: &Vec<LogFile>) -> (r: Vec<LogEntry>)
    ensures
        entries_view(r@) == held(files@, files@.len()),
{
    let everything = LogFilter::default();
    let mut found: Vec<LogEntry> = Vec::new();
    let mut i: usize = 0;
    assert(entries_view(found@) =~= Seq::empty());
    while i < files.len()
        invariant
            i <= files@.len(),
            everything.pattern is None,
            entries_view(found@) == held(files@, i as nat),
        decreases files@.len() - i,
    {
        let file = &files[i];
        let ghost before = entries_view(found@);
        if let Some(bytes) = &file.bytes {
            let source = source_name(file.path.as_str());
            let lines = all_file_lines(bytes.as_slice());
            proof {
                lemma_all_lines_pass(source@, file.mtime, texts(lines@), everything);
            }
            push_entries(&mut found, source.as_str(), file.mtime, lines, &everything);
            let complete = all_complete_lines(bytes.as_slice());
            proof {
                lemma_all_lines_pass(source@, file.mtime, texts(complete@), everything);
            }
            push_entries(&mut found, source.as_str(), file.mtime, complete, &everything);
        }
        assert(entries_view(found@) =~= before + held_lines(*file));
        i += 1;
    }
    found
}

/// The answer with an entry that was asked for by its id.
pub open spec fn looked_up(
    pool: Seq<LogEntry>,
    id: Seq<char>,
    r: Result<LogEntry, BackendError>,
) -> bool {
    match r {
        Ok(e) => finds(pool, id, Some(e)),
        Err(x) => finds(pool, id, None) && x@ == BackendFault::EntityNotFound(id),
    }
}

/// The entry with an id in a fresh list of all that the sources hold. An id that is
/// none, or one that nothing has any more, is refused with the id.
pub fn get_log(pool: Vec<LogEntry>, id: &str) -> (r: Result<LogEntry, BackendError>)
    ensures
        looked_up(pool@, id@, r),
{
    match find_log_entry(pool, id) {
        Some(e) => Ok(e),
        None => Err(BackendError::EntityNotFound(id.to_owned())),
    }
}

proof fn lemma_filtered(
    source: Seq<char>,
    ts: Timestamp,
    lines: Seq<Seq<char>>,
    filter: LogFilter,
    e: EntryView,
)
    requires
        line_entries(source, ts, lines, filter).contains(e),
    ensures
        lines.contains(e.message),
        e == line_entry(source, ts, e.message),
    decreases lines.len(),
{
    let made = line_entries(source, ts, lines, filter);
    let i = choose|i: int| 0 <= i < made.len() && made[i] == e;
    let before = line_entries(source, ts, lines.drop_last(), filter);
    if i < before.len() {
        assert(before[i] == e);
        lemma_filtered(source, ts, lines.drop_last(), filter, e);
        let j = choose|j: int|
            0 <= j < lines.drop_last().len() && lines.drop_last()[j] == e.message;
        assert(lines[j] == e.message);
    } else {
        assert(lines[lines.len() - 1] == e.message);
    }
}

proof fn lemma_made(file: LogFile, lines: Seq<Seq<char>>, line: Seq<char>)
    requires
        lines.contains(line),
    ensures
        made_of(file, lines).contains(line_entry(source_of(file.path@), file.mtime, line)),
{
    let i = choose|i: int| 0 <= i < lines.len() && lines[i] == line;
    assert(made_of(file, lines)[i] == line_entry(source_of(file.path@), file.mtime, line));
}

proof fn lemma_either(a: Seq<EntryView>, b: Seq<EntryView>, e: EntryView)
    requires
        a.contains(e) || b.contains(e),
    ensures
        (a + b).contains(e),
{
    if a.contains(e) {
        let i = choose|i: int| 0 <= i < a.len() && a[i] == e;
        assert((a + b)[i] == e);
    } else {
        let i = choose|i: int| 0 <= i < b.len() && b[i] == e;
        assert((a + b)[i + a.len()] == e);
    }
}

/// An entry is that of a line, and so has the id of one.
pub open spec fn is_line_entry(e: EntryView) -> bool {
    e.source matches Some(source) && e == line_entry(source, e.timestamp, e.message)
}

proof fn lemma_gathered_is_held(files: Seq<LogFile>, n: nat, filter: LogFilter, e: EntryView)
    requires
        n <= files.len(),
        gathered(files, n, filter).contains(e),
    ensures
        held(files, n).contains(e),
        is_line_entry(e),
    decreases n,
{
    let all = gathered(files, n, filter);
    let i = choose|i: int| 0 <= i < all.len() && all[i] == e;
    if n > 0 {
        let before = gathered(files, (n - 1) as nat, filter);
        let file = files[n - 1];
        let source = source_of(file.path@);
        if i < before.len() {
            assert(before[i] == e);
            lemma_gathered_is_held(files, (n - 1) as nat, filter, e);
        } else {
            let bytes = file.bytes->0@;
            let made = line_entries(source, file.mtime, tail_lines(bytes, 65536), filter);
            assert(made[i - before.len()] == e);
            lemma_filtered(source, file.mtime, tail_lines(bytes, 65536), filter, e);
            law_tail_lines_are_file_lines(bytes, 65536, e.message);
            lemma_made(file, not_blank(byte_lines(bytes, 0)), e.message);
            lemma_either(
                made_of(file, not_blank(byte_lines(bytes, 0))),
                made_of(file, all_lines_from(bytes, 0)),
                e,
            );
        }
        lemma_either(held(files, (n - 1) as nat), held_lines(file), e);
    }
}

/// Every entry that the listing of the ends of the files gives, whatever the filter, is
/// among all that the files hold.
pub proof fn law_listed_lines_are_held(files: Seq<LogFile>, filter: LogFilter, e: EntryView)
    requires
        last_entries(gathered(files, files.len(), filter), filter.page_size()).contains(e),
    ensures
        held(files, files.len()).contains(e),
        is_line_entry(e),
{
    let all = gathered(files, files.len(), filter);
    let shown = last_entries(all, filter.page_size());
    let i = choose|i: int| 0 <= i < shown.len() && shown[i] == e;
    assert(all[i + (all.len() - shown.len())] == e);
    lemma_gathered_is_held(files, files.len(), filter, e);
}

/// A cursor that stands at the start of a line in every file. The absent one does, and
/// so does every cursor that was given out for these files.
pub open spec fn at_line_starts(
    files: Seq<LogFile>,
    cursor: Option<CursorView>,
    boot_epoch: u64,
) -> bool {
    forall|i: int|
        0 <= i < files.len() ==> ((#[trigger] files[i]).bytes matches Some(bytes) ==> starts_line(
            bytes@,
            resume_at(cursor, boot_epoch, files[i].path@, bytes@.len()),
        ))
}

proof fn lemma_scanned_is_held(
    files: Seq<LogFile>,
    n: nat,
    filter: LogFilter,
    cursor: Option<CursorView>,
    boot_epoch: u64,
    e: EntryView,
)
    requires
        n <= files.len(),
        at_line_starts(files, cursor, boot_epoch),
        scan_files(files, n, filter, cursor, boot_epoch).items.contains(e),
    ensures
        held(files, n).contains(e),
        is_line_entry(e),
    decreases n,
{
    let scan = scan_files(files, n, filter, cursor, boot_epoch);
    let i = choose|i: int| 0 <= i < scan.items.len() && scan.items[i] == e;
    if n > 0 {
        let before = scan_files(files, (n - 1) as nat, filter, cursor, boot_epoch);
        let file = files[n - 1];
        let source = source_of(file.path@);
        if i < before.items.len() {
            assert(before.items[i] == e);
            lemma_scanned_is_held(files, (n - 1) as nat, filter, cursor, boot_epoch, e);
        } else {
            let bytes = file.bytes->0@;
            let start = resume_at(cursor, boot_epoch, file.path@, bytes.len());
            let room = if before.items.len() < filter.page_size() {
                (filter.page_size() - before.items.len()) as nat
            } else {
                0
            };
            let read = lines_from(bytes, start, room);
            let made = line_entries(source, file.mtime, read.0, filter);
            assert(made[i - before.items.len()] == e);
            lemma_filtered(source, file.mtime, read.0, filter, e);
            law_page_lines_are_file_lines(bytes, start, room, e.message);
            lemma_made(file, all_lines_from(bytes, 0), e.message);
            lemma_either(
                made_of(file, not_blank(byte_lines(bytes, 0))),
                made_of(file, all_lines_from(bytes, 0)),
                e,
            );
        }
        lemma_either(held(files, (n - 1) as nat), held_lines(file), e);
    }
}

/// Every entry of a page, whatever the filter, is among all that the files hold. The
/// page is one that begins with whole lines.
pub proof fn law_paged_lines_are_held(
    files: Seq<LogFile>,
    filter: LogFilter,
    boot_epoch: u64,
    e: EntryView,
)
    requires
        at_line_starts(files, cursor_asked(filter), boot_epoch),
        page_scan(files, filter, boot_epoch).items.contains(e),
    ensures
        held(files, files.len()).contains(e),
        is_line_entry(e),
{
    lemma_scanned_is_held(files, files.len(), filter, cursor_asked(filter), boot_epoch, e);
}

/// The first page begins with whole lines.
pub proof fn law_first_page_is_at_line_starts(files: Seq<LogFile>, boot_epoch: u64)
    ensures
        at_line_starts(files, None, boot_epoch),
{
}

/// A position is past the end of a file or at the start of one of its lines.
spec fn good_pos(file: LogFile, pos: SourcePos) -> bool {
    file.bytes matches Some(bytes) ==> pos.offset > bytes@.len() || starts_line(
        bytes@,
        pos.offset as int,
    )
}

spec fn good_scan(files: Seq<LogFile>, scan: Scan) -> bool {
    forall|i: int|
        0 <= i < files.len() && scan.next.contains_key(source_of((#[trigger] files[i]).path@))
            ==> good_pos(files[i], scan.next[source_of(files[i].path@)])
}

proof fn lemma_scan_keeps_to_lines(
    files: Seq<LogFile>,
    n: nat,
    filter: LogFilter,
    cursor: Option<CursorView>,
    boot_epoch: u64,
)
    requires
        n <= files.len(),
        readable(files),
        of_this_boot(cursor, boot_epoch),
        at_line_starts(files, cursor, boot_epoch),
    ensures
        good_scan(files, scan_files(files, n, filter, cursor, boot_epoch)),
    decreases n,
{
    if n > 0 {
        let before = scan_files(files, (n - 1) as nat, filter, cursor, boot_epoch);
        let scan = scan_files(files, n, filter, cursor, boot_epoch);
        lemma_scan_keeps_to_lines(files, (n - 1) as nat, filter, cursor, boot_epoch);
        let file = files[n - 1];
        let source = source_of(file.path@);
        let bytes = file.bytes->0@;
        assert(file.bytes is Some);
        let start = resume_at(cursor, boot_epoch, file.path@, bytes.len());
        let room = if before.items.len() < filter.page_size() {
            (filter.page_size() - before.items.len()) as nat
        } else {
            0
        };
        law_position_moves_forward(bytes, start, room);
        law_pages_end_at_line_starts(bytes, start, room);
        assert forall|i: int|
            0 <= i < files.len() && scan.next.contains_key(
                source_of((#[trigger] files[i]).path@),
            ) implies good_pos(files[i], scan.next[source_of(files[i].path@)]) by {
            if i != n - 1 {
                if i < n - 1 {
                    assert(source_of(files[i].path@) != source_of(files[n - 1].path@));
                } else {
                    assert(source_of(files[n - 1].path@) != source_of(files[i].path@));
                }
                assert(before.next.contains_key(source_of(files[i].path@)));
            } else if before.next.contains_key(source) {
                assert(good_pos(file, before.next[source]));
            }
        }
    }
}

/// The cursor of a page stands at the start of a line in every file, where the cursor
/// of the page before it did. So each page that is reached from the first by following
/// the cursors begins with whole lines.
pub proof fn law_cursors_stand_at_line_starts(
    files: Seq<LogFile>,
    filter: LogFilter,
    cursor: Option<CursorView>,
    boot_epoch: u64,
)
    requires
        readable(files),
        of_this_boot(cursor, boot_epoch),
        at_line_starts(files, cursor, boot_epoch),
    ensures
        ({
            let scan = scan_files(files, files.len(), filter, cursor, boot_epoch);
            at_line_starts(files, Some(positions_behind(scan, cursor, boot_epoch)), boot_epoch)
        }),
{
    let scan = scan_files(files, files.len(), filter, cursor, boot_epoch);
    let next = Some(positions_behind(scan, cursor, boot_epoch));
    lemma_scan_keeps_to_lines(files, files.len(), filter, cursor, boot_epoch);
    assert forall|i: int| 0 <= i < files.len() implies ((#[trigger] files[i]).bytes matches Some(
        bytes,
    ) ==> starts_line(bytes@, resume_at(next, boot_epoch, files[i].path@, bytes@.len()))) by {
        let source = source_of(files[i].path@);
        if scan.next.contains_key(source) {
            assert(good_pos(files[i], scan.next[source]));
            assert(saved_pos(next, source) == Some(scan.next[source]));
        } else {
            assert(saved_pos(next, source) == saved_pos(cursor, source));
        }
    }
}

/// The listing of the ends of the files shows an entry, or a page that begins with
/// whole lines does.
pub open spec fn shown(
    files: Seq<LogFile>,
    filter: LogFilter,
    boot_epoch: u64,
    e: EntryView,
) -> bool {
    ||| last_entries(gathered(files, files.len(), filter), filter.page_size()).contains(e)
    ||| at_line_starts(files, cursor_asked(filter), boot_epoch) && page_scan(
        files,
        filter,
        boot_epoch,
    ).items.contains(e)
}

/// A line that the listing or a page showed, whatever the filter, is found again by its
/// id in all that the files hold, alone or among the entries of other sources: what
/// comes back has the same id.
pub proof fn law_shown_line_is_found(
    files: Seq<LogFile>,
    filter: LogFilter,
    boot_epoch: u64,
    e: EntryView,
    pool: Seq<LogEntry>,
    r: Option<LogEntry>,
)
    requires
        shown(files, filter, boot_epoch, e),
        forall|x: EntryView|
            held(files, files.len()).contains(x) ==> #[trigger] entries_view(pool).contains(x),
        finds(pool, e.id, r),
    ensures
        r is Some,
        r->0.id@ == e.id,
        pool.contains(r->0),
{
    if last_entries(gathered(files, files.len(), filter), filter.page_size()).contains(e) {
        law_listed_lines_are_held(files, filter, e);
    } else {
        law_paged_lines_are_held(files, filter, boot_epoch, e);
    }
    assert(entries_view(pool).contains(e));
    let j = choose|j: int| 0 <= j < entries_view(pool).len() && entries_view(pool)[j] == e;
    assert(pool[j]@ == e);
    law_line_ids_are_ids(e.source->0, e.timestamp, e.message);
    law_listed_entry_is_found(pool, j, r);
}

/// A dump that the catalogue showed is found again by its id among all dumps: what
/// comes back is an entry of the same file.
pub proof fn law_shown_dump_is_found(
    files: Seq<DumpFile>,
    filter: LogFilter,
    e: EntryView,
    pool: Seq<LogEntry>,
    r: Option<LogEntry>,
)
    requires
        dump_entries(files, files.len(), filter).contains(e),
        parsed_id(e.id) == Some(IdView::HostDump(e.message)),
        entries_view(pool) == held_dumps(files, files.len()),
        forall|i: int|
            0 <= i < pool.len() ==> parsed_id((#[trigger] pool[i]).id@) == Some(
                IdView::HostDump(pool[i].message@),
            ),
        finds(pool, e.id, r),
    ensures
        r is Some,
        r->0.id@ == e.id,
        r->0.message@ == e.message,
{
    law_listed_dumps_are_held(files, files.len(), filter, e);
    let j = choose|j: int| 0 <= j < entries_view(pool).len() && entries_view(pool)[j] == e;
    assert(pool[j]@ == e);
    law_listed_entry_is_found(pool, j, r);
    let k = choose|k: int| 0 <= k < pool.len() && pool[k] == r->0;
    assert(parsed_id(pool[k].id@) == Some(IdView::HostDump(pool[k].message@)));
}

/// Putting the newest first loses nothing that could be found.
pub proof fn law_merged_entries_stay(s: Seq<EntryView>, e: EntryView)
    ensures
        newest_first(s).contains(e) <==> s.contains(e),
{
    broadcast use vstd::seq_lib::group_to_multiset_ensures;

    law_merge_keeps_entries(s);
    assert(s.contains(e) <==> s.to_multiset().count(e) > 0);
    assert(newest_first(s).contains(e) <==> newest_first(s).to_multiset().count(e) > 0);
}

/// An entry that is asked for by its id comes back exactly when the id is one and some
/// entry has it; else the id is not found.
pub proof fn law_an_entry_is_given_out_by_its_id(
    pool: Seq<LogEntry>,
    id: Seq<char>,
    r: Result<LogEntry, BackendError>,
)
    requires
        looked_up(pool, id, r),
    ensures
        r is Ok <==> parsed_id(id) is Some && exists|j: int|
            0 <= j < pool.len() && (#[trigger] pool[j]).id@ == id,
        r matches Ok(e) ==> e.id@ == id && pool.contains(e),
        r matches Err(x) ==> x@ == BackendFault::EntityNotFound(id),
{
    crate::logs::ids::law_what_is_found_has_the_id(
        pool,
        id,
        match r {
            Ok(e) => Some(e),
            Err(_) => None,
        },
    );
}

} // verus!
