//! Reading host log files: page by page with a cursor, or just their ends.

use crate::logs::cursor::{cursor_of, cursor_token, CursorView, LogCursor, SourceMap, SourcePos};
use crate::logs::entry::{
    entries_view, texts, EntryView, LogEntry, LogFilter, LogPage, LogPriority, Timestamp,
};
use crate::logs::ids::{line_id, line_log_id};
use crate::logs::lines::{
    law_position_moves_forward, lines_from, read_lines_from, tail_file_lines, tail_lines,
};
use crate::paths::{in_volatile_memory, is_volatile, source_name, source_of};
use vstd::prelude::*;

verus! {

/// A host log file as it was found.
#[derive(Debug, Clone)]
pub struct LogFile {
    pub path: String,
    pub mtime: Timestamp,
    /// What the file holds; absent where it could not be read.
    pub bytes: Option<Vec<u8>>,
}

/// The entry that a line of a host file makes: the file's modification time
/// stands for the line's, and the line counts as information.
pub open spec fn line_entry(source: Seq<char>, ts: Timestamp, line: Seq<char>) -> EntryView {
    EntryView {
        id: line_id(source, ts, line),
        timestamp: ts,
        priority: LogPriority::Info,
        message: line,
        source: Some(source),
        log_type: None,
        size: None,
        status: None,
    }
}

/// The entries that those lines of a file make whose message passes the filter.
pub open spec fn line_entries(
    source: Seq<char>,
    ts: Timestamp,
    lines: Seq<Seq<char>>,
    filter: LogFilter,
) -> Seq<EntryView>
    decreases lines.len(),
{
    if lines.len() == 0 {
        Seq::empty()
    } else {
        let before = line_entries(source, ts, lines.drop_last(), filter);
        if filter.passes_message(lines.last()) {
            before.push(line_entry(source, ts, lines.last()))
        } else {
            before
        }
    }
}

/// The position that a cursor keeps for a source.
pub open spec fn saved_pos(cursor: Option<CursorView>, source: Seq<char>) -> Option<SourcePos> {
    match cursor {
        Some(c) => if c.sources.contains_key(source) {
            Some(c.sources[source])
        } else {
            None
        },
        None => None,
    }
}

/// The byte at which reading a file resumes: the saved position, but the start
/// of the file where none is saved, where the file lies in volatile memory and
/// the cursor stems from another boot, or where the file is shorter than the
/// saved position, so that it was cut or replaced.
pub open spec fn resume_at(
    cursor: Option<CursorView>,
    boot_epoch: u64,
    path: Seq<char>,
    len: nat,
) -> int {
    match saved_pos(cursor, source_of(path)) {
        Some(pos) => if cursor->0.boot_epoch != boot_epoch && in_volatile_memory(path) {
            0
        } else if pos.offset > len {
            0
        } else {
            pos.offset as int
        },
        None => 0,
    }
}

/// How far a scan over the files has come.
pub struct Scan {
    /// The entries found so far.
    pub items: Seq<EntryView>,
    /// Where each source that was looked at resumes.
    pub next: Map<Seq<char>, SourcePos>,
    /// Some source was read further than before.
    pub advanced: bool,
    /// The page is full.
    pub full: bool,
}

/// A scan over nothing.
pub open spec fn scan_start() -> Scan {
    Scan {
        items: Seq::empty(),
        next: Map::empty(),
        advanced: false,
        full: false,
    }
}

/// A scan taken one file further.
pub open spec fn scan_file(
    scan: Scan,
    file: LogFile,
    filter: LogFilter,
    cursor: Option<CursorView>,
    boot_epoch: u64,
) -> Scan {
    let source = source_of(file.path@);
    if scan.full || !filter.passes_source(source) {
        scan
    } else if !filter.passes_time(file.mtime) {
        match saved_pos(cursor, source) {
            Some(pos) => Scan { next: scan.next.insert(source, pos), ..scan },
            None => scan,
        }
    } else {
        match file.bytes {
            None => scan,
            Some(bytes) => {
                let start = resume_at(cursor, boot_epoch, file.path@, bytes@.len());
                let room = if scan.items.len() < filter.page_size() {
                    (filter.page_size() - scan.items.len()) as nat
                } else {
                    0
                };
                let read = lines_from(bytes@, start, room);
                let items = scan.items + line_entries(source, file.mtime, read.0, filter);
                Scan {
                    items,
                    next: scan.next.insert(source, SourcePos { gen: 0, offset: read.1 as u64 }),
                    advanced: scan.advanced || read.1 > start,
                    full: items.len() >= filter.page_size(),
                }
            },
        }
    }
}

/// A scan over the first `n` files.
pub open spec fn scan_files(
    files: Seq<LogFile>,
    n: nat,
    filter: LogFilter,
    cursor: Option<CursorView>,
    boot_epoch: u64,
) -> Scan
    decreases n,
{
    if n == 0 {
        scan_start()
    } else {
        scan_file(
            scan_files(files, (n - 1) as nat, filter, cursor, boot_epoch),
            files[n - 1],
            filter,
            cursor,
            boot_epoch,
        )
    }
}

/// The cursor that a filter names, if it names one.
pub open spec fn cursor_asked(filter: LogFilter) -> Option<CursorView> {
    match filter.after {
        Some(token) => cursor_of(token@),
        None => None,
    }
}

/// The scan that answers a filter.
pub open spec fn page_scan(files: Seq<LogFile>, filter: LogFilter, boot_epoch: u64) -> Scan {
    scan_files(files, files.len(), filter, cursor_asked(filter), boot_epoch)
}

/// Where the page behind a scan begins: where the scan stopped, and for a source that
/// it did not look at, where the cursor had it.
pub open spec fn positions_behind(
    scan: Scan,
    cursor: Option<CursorView>,
    boot_epoch: u64,
) -> CursorView {
    CursorView {
        boot_epoch,
        sources: match cursor {
            Some(c) => c.sources.union_prefer_right(scan.next),
            None => scan.next,
        },
    }
}

/// Where the next page begins: where this one stopped, and for a source that the
/// scan did not look at, where the cursor had it.
pub open spec fn next_positions(
    files: Seq<LogFile>,
    filter: LogFilter,
    boot_epoch: u64,
) -> CursorView {
    positions_behind(page_scan(files, filter, boot_epoch), cursor_asked(filter), boot_epoch)
}

/// The start of every source.
pub open spec fn source_starts(files: Seq<LogFile>) -> Map<Seq<char>, SourcePos> {
    Map::new(
        |source: Seq<char>|
            exists|i: int| 0 <= i < files.len() && source_of((#[trigger] files[i]).path@) == source,
        |source: Seq<char>| SourcePos { gen: 0, offset: 0 },
    )
}

/// Where every source begins.
pub open spec fn oldest_positions(files: Seq<LogFile>, boot_epoch: u64) -> CursorView {
    CursorView { boot_epoch, sources: source_starts(files) }
}

fn starts_of(files: &Vec<LogFile>) -> (r: SourceMap)
    ensures
        r@ == source_starts(files@),
{
    let mut starts = SourceMap::new();
    let mut i: usize = 0;
    assert(starts@ =~= source_starts(files@.take(0)));
    while i < files.len()
        invariant
            i <= files@.len(),
            starts@ == source_starts(files@.take(i as int)),
        decreases files@.len() - i,
    {
        let source = source_name(files[i].path.as_str());
        starts.insert(source.as_str(), SourcePos { gen: 0, offset: 0 });
        proof {
            let less = files@.take(i as int);
            let more = files@.take(i + 1);
            assert(more[i as int] == files@[i as int]);
            assert forall|s: Seq<char>|
                (s == source@ || source_starts(less).contains_key(s)) == #[trigger] source_starts(
                    more,
                ).contains_key(s) by {
                if source_starts(less).contains_key(s) {
                    let j = choose|j: int|
                        0 <= j < less.len() && source_of((#[trigger] less[j]).path@) == s;
                    assert(more[j] == less[j]);
                }
                if source_starts(more).contains_key(s) && s != source@ {
                    let j = choose|j: int|
                        0 <= j < more.len() && source_of((#[trigger] more[j]).path@) == s;
                    assert(less[j] == more[j]);
                }
            }
            assert(starts@ =~= source_starts(more));
        }
        i += 1;
    }
    assert(files@.take(i as int) =~= files@);
    starts
}

pub(crate) fn push_entries(
    items: &mut Vec<LogEntry>,
    source: &str,
    ts: Timestamp,
    lines: Vec<String>,
    filter: &LogFilter,
)
    ensures
        entries_view(final(items)@) == entries_view(old(items)@) + line_entries(
            source@,
            ts,
            texts(lines@),
            *filter,
        ),
{
    let ghost before = entries_view(items@);
    let mut i: usize = 0;
    assert(texts(lines@).take(0) =~= Seq::empty());
    assert(entries_view(items@) =~= before + Seq::empty());
    while i < lines.len()
        invariant
            i <= lines@.len(),
            before == entries_view(old(items)@),
            entries_view(items@) == before + line_entries(
                source@,
                ts,
                texts(lines@).take(i as int),
                *filter,
            ),
        decreases lines@.len() - i,
    {
        let line = lines[i].as_str();
        let ghost upto = texts(lines@).take(i as int + 1);
        assert(upto.drop_last() =~= texts(lines@).take(i as int));
        assert(upto.last() == line@);
        if filter.takes_message(line) {
            let ghost held = items@;
            let entry = LogEntry {
                id: line_log_id(source, ts, line),
                timestamp: ts,
                priority: LogPriority::Info,
                message: line.to_owned(),
                source: Some(source.to_owned()),
                log_type: None,
                size: None,
                status: None,
            };
            assert(entry@ == line_entry(source@, ts, line@));
            items.push(entry);
            assert(entries_view(items@) =~= entries_view(held).push(line_entry(source@, ts, line@)));
            assert(entries_view(items@) =~= before + line_entries(source@, ts, upto, *filter));
        }
        i += 1;
    }
    assert(texts(lines@).take(i as int) =~= texts(lines@));
}

fn saved(cursor: &Option<LogCursor>, source: &str) -> (r: Option<SourcePos>)
    ensures
        r == saved_pos(cursor_view(*cursor), source@),
{
    match cursor {
        Some(c) => c.sources.get(source),
        None => None,
    }
}

/// What an optional cursor says.
pub open spec fn cursor_view(cursor: Option<LogCursor>) -> Option<CursorView> {
    match cursor {
        Some(c) => Some(c@),
        None => None,
    }
}

/// The byte at which reading a file resumes.
pub fn resume_offset(cursor: &Option<LogCursor>, boot_epoch: u64, path: &str, len: usize) -> (r: u64)
    ensures
        r == resume_at(cursor_view(*cursor), boot_epoch, path@, len as nat),
        r <= len,
{
    match cursor {
        Some(c) => {
            let source = source_name(path);
            match c.sources.get(source.as_str()) {
                Some(pos) => if c.boot_epoch != boot_epoch && is_volatile(path) {
                    0
                } else if pos.offset > len as u64 {
                    0
                } else {
                    pos.offset
                },
                None => 0,
            }
        },
        None => 0,
    }
}

/// A page of the lines of host log files.
pub open spec fn page_given(
    files: Seq<LogFile>,
    filter: LogFilter,
    boot_epoch: u64,
    page: LogPage,
) -> bool {
    &&& entries_view(page.items@) == if filter.passes_priority(LogPriority::Info) {
        page_scan(files, filter, boot_epoch).items
    } else {
        Seq::empty()
    }
    &&& page.oldest_cursor matches Some(t)
    &&& t@ == cursor_token(oldest_positions(files, boot_epoch))
    &&& cursor_of(t@) == Some(oldest_positions(files, boot_epoch))
    &&& match page.next_cursor {
        Some(t) => page_scan(files, filter, boot_epoch).advanced && t@ == cursor_token(
            next_positions(files, filter, boot_epoch),
        ) && cursor_of(t@) == Some(next_positions(files, filter, boot_epoch)),
        None => !page_scan(files, filter, boot_epoch).advanced,
    }
}

/// One page of the lines of host log files, read forward from a cursor.
///
/// The page holds the complete lines that follow what the cursor has consumed.
/// Its `next_cursor` is present exactly where some file was read further, so a
/// reader who follows the cursors comes to an end; `oldest_cursor` stands at the
/// start of every file, those behind the one at which the page was full too.
pub fn host_file_logs_paged(files: &Vec<LogFile>, filter: &LogFilter, boot_epoch: u64) -> (page:
    LogPage)
    ensures
        page_given(files@, *filter, boot_epoch, page),
{
    let cursor: Option<LogCursor> = match &filter.after {
        Some(token) => LogCursor::decode(token.as_str()),
        None => None,
    };
    let page_size: usize = filter.entries_wanted();
    let mut items: Vec<LogEntry> = Vec::new();
    let mut next = SourceMap::new();
    let mut advanced = false;
    let mut full = false;
    let mut i: usize = 0;
    assert(entries_view(items@) =~= Seq::empty());
    while i < files.len() && !full
        invariant
            i <= files@.len(),
            page_size == filter.page_size(),
            cursor_view(cursor) == cursor_asked(*filter),
            ({
                let scan = scan_files(
                    files@,
                    i as nat,
                    *filter,
                    cursor_asked(*filter),
                    boot_epoch,
                );
                &&& scan.items == entries_view(items@)
                &&& scan.next == next@
                &&& scan.advanced == advanced
                &&& scan.full == full
            }),
        decreases files@.len() - i,
    {
        let file = &files[i];
        let source = source_name(file.path.as_str());
        if filter.takes_source(source.as_str()) {
            if !filter.takes_time(&file.mtime) {
                if let Some(pos) = saved(&cursor, source.as_str()) {
                    next.insert(source.as_str(), pos);
                }
            } else if let Some(bytes) = &file.bytes {
                let start: u64 = resume_offset(
                    &cursor,
                    boot_epoch,
                    file.path.as_str(),
                    bytes.len(),
                );
                let room: usize = if items.len() < page_size {
                    page_size - items.len()
                } else {
                    0
                };
                let (lines, end) = read_lines_from(bytes.as_slice(), start, room);
                if end > start {
                    advanced = true;
                }
                next.insert(source.as_str(), SourcePos { gen: 0, offset: end });
                push_entries(&mut items, source.as_str(), file.mtime, lines, filter);
                full = items.len() >= page_size;
            }
        }
        i += 1;
    }
    proof {
        lemma_full_scan_stops(
            files@,
            i as nat,
            *filter,
            cursor_asked(*filter),
            boot_epoch,
        );
    }
    if let Some(c) = &cursor {
        next.fill_in(&c.sources);
    }
    let oldest_cursor = LogCursor { boot_epoch, sources: starts_of(files) };
    let oldest_token = oldest_cursor.encode();
    let next_token = if advanced {
        let next_cursor = LogCursor { boot_epoch, sources: next };
        Some(next_cursor.encode())
    } else {
        None
    };
    if !filter.takes_priority(LogPriority::Info) {
        items = Vec::new();
        assert(entries_view(items@) =~= Seq::empty());
    }
    LogPage { items, next_cursor: next_token, oldest_cursor: Some(oldest_token) }
}

proof fn lemma_full_scan_stops(
    files: Seq<LogFile>,
    n: nat,
    filter: LogFilter,
    cursor: Option<CursorView>,
    boot_epoch: u64,
)
    requires
        n <= files.len(),
        n == files.len() || scan_files(files, n, filter, cursor, boot_epoch).full,
    ensures
        scan_files(files, files.len(), filter, cursor, boot_epoch) == scan_files(
            files,
            n,
            filter,
            cursor,
            boot_epoch,
        ),
    decreases files.len() - n,
{
    if n < files.len() {
        lemma_full_scan_stops(files, n + 1, filter, cursor, boot_epoch);
    }
}

// ---------------------------------------------------------------------------
// Laws
// ---------------------------------------------------------------------------

/// A page never holds more entries than were asked for.
pub proof fn law_page_is_bounded(
    files: Seq<LogFile>,
    n: nat,
    filter: LogFilter,
    cursor: Option<CursorView>,
    boot_epoch: u64,
)
    requires
        n <= files.len(),
    ensures
        scan_files(files, n, filter, cursor, boot_epoch).items.len() <= filter.page_size(),
    decreases n,
{
    if n > 0 {
        law_page_is_bounded(files, (n - 1) as nat, filter, cursor, boot_epoch);
        let scan = scan_files(files, (n - 1) as nat, filter, cursor, boot_epoch);
        let file = files[n - 1];
        if let Some(bytes) = file.bytes {
            let start = resume_at(cursor, boot_epoch, file.path@, bytes@.len());
            let room = if scan.items.len() < filter.page_size() {
                (filter.page_size() - scan.items.len()) as nat
            } else {
                0
            };
            law_position_moves_forward(bytes@, start, room);
            lemma_fewer_entries_than_lines(
                source_of(file.path@),
                file.mtime,
                lines_from(bytes@, start, room).0,
                filter,
            );
        }
    }
}

proof fn lemma_fewer_entries_than_lines(
    source: Seq<char>,
    ts: Timestamp,
    lines: Seq<Seq<char>>,
    filter: LogFilter,
)
    ensures
        line_entries(source, ts, lines, filter).len() <= lines.len(),
    decreases lines.len(),
{
    if lines.len() > 0 {
        lemma_fewer_entries_than_lines(source, ts, lines.drop_last(), filter);
    }
}

/// A cursor from another boot is void for a file in volatile memory: it is read
/// from its start.
pub proof fn law_volatile_file_restarts_after_reboot(
    cursor: CursorView,
    boot_epoch: u64,
    path: Seq<char>,
    len: nat,
)
    requires
        cursor.boot_epoch != boot_epoch,
        in_volatile_memory(path),
    ensures
        resume_at(Some(cursor), boot_epoch, path, len) == 0,
{
}

/// A cursor stays good for every other file, whatever boot it stems from: a file
/// that still reaches up to the saved position is read on from there.
pub proof fn law_persistent_file_resumes_after_reboot(
    cursor: CursorView,
    boot_epoch: u64,
    path: Seq<char>,
    len: nat,
)
    requires
        !in_volatile_memory(path),
        cursor.sources.contains_key(source_of(path)),
        cursor.sources[source_of(path)].offset <= len,
    ensures
        resume_at(Some(cursor), boot_epoch, path, len) == cursor.sources[source_of(path)].offset,
{
}

/// A file that has become shorter than the saved position was cut or replaced,
/// and is read from its start.
pub proof fn law_shrunk_file_restarts(
    cursor: CursorView,
    boot_epoch: u64,
    path: Seq<char>,
    len: nat,
)
    requires
        cursor.sources.contains_key(source_of(path)),
        cursor.sources[source_of(path)].offset > len,
    ensures
        resume_at(Some(cursor), boot_epoch, path, len) == 0,
{
}

/// A source that the scan did not look at keeps the position that the cursor
/// had for it.
pub proof fn law_untouched_sources_keep_their_place(
    files: Seq<LogFile>,
    filter: LogFilter,
    boot_epoch: u64,
    source: Seq<char>,
)
    requires
        cursor_asked(filter) is Some,
        cursor_asked(filter)->0.sources.contains_key(source),
        !page_scan(files, filter, boot_epoch).next.contains_key(source),
    ensures
        next_positions(files, filter, boot_epoch).sources.contains_key(source),
        next_positions(files, filter, boot_epoch).sources[source] == cursor_asked(
            filter,
        )->0.sources[source],
{
}

/// The oldest cursor leads back to the start of every file.
pub proof fn law_oldest_cursor_starts_over(files: Seq<LogFile>, boot_epoch: u64, i: int)
    requires
        0 <= i < files.len(),
    ensures
        oldest_positions(files, boot_epoch).sources.contains_key(source_of(files[i].path@)),
        forall|len: nat|
            resume_at(
                Some(oldest_positions(files, boot_epoch)),
                boot_epoch,
                files[i].path@,
                len,
            ) == 0,
{
    assert(source_of(files[i].path@) == source_of(files[i].path@));
}

/// Reading up to `room` lines of a file goes beyond the byte at which it is
/// resumed.
pub open spec fn read_further(
    file: LogFile,
    cursor: Option<CursorView>,
    boot_epoch: u64,
    room: nat,
) -> bool {
    match file.bytes {
        Some(b) => {
            let start = resume_at(cursor, boot_epoch, file.path@, b@.len());
            lines_from(b@, start, room).1 > start
        },
        None => false,
    }
}

/// Some file is read beyond the byte at which it was resumed wherever a page says
/// that there is more.
pub proof fn law_a_page_with_more_made_progress(
    files: Seq<LogFile>,
    n: nat,
    filter: LogFilter,
    cursor: Option<CursorView>,
    boot_epoch: u64,
)
    requires
        n <= files.len(),
        scan_files(files, n, filter, cursor, boot_epoch).advanced,
    ensures
        exists|i: int, room: nat|
            0 <= i < n && #[trigger] read_further(files[i], cursor, boot_epoch, room),
    decreases n,
{
    if n > 0 {
        let scan = scan_files(files, (n - 1) as nat, filter, cursor, boot_epoch);
        if scan.advanced {
            law_a_page_with_more_made_progress(files, (n - 1) as nat, filter, cursor, boot_epoch);
        } else {
            let file = files[n - 1];
            let bytes = file.bytes->0;
            let start = resume_at(cursor, boot_epoch, file.path@, bytes@.len());
            let room = if scan.items.len() < filter.page_size() {
                (filter.page_size() - scan.items.len()) as nat
            } else {
                0
            };
            assert(read_further(files[n - 1], cursor, boot_epoch, room));
        }
    }
}

/// What a filter passes without a choice of source, message or time.
pub open spec fn asks_for_everything(filter: LogFilter) -> bool {
    &&& filter.source is None
    &&& filter.pattern is None
    &&& filter.since is None
    &&& filter.until is None
}

pub(crate) proof fn lemma_all_lines_pass(
    source: Seq<char>,
    ts: Timestamp,
    lines: Seq<Seq<char>>,
    filter: LogFilter,
)
    requires
        filter.pattern is None,
    ensures
        line_entries(source, ts, lines, filter) == lines.map_values(
            |line: Seq<char>| line_entry(source, ts, line),
        ),
    decreases lines.len(),
{
    let made = lines.map_values(|line: Seq<char>| line_entry(source, ts, line));
    if lines.len() > 0 {
        lemma_all_lines_pass(source, ts, lines.drop_last(), filter);
        let shorter = lines.drop_last().map_values(
            |line: Seq<char>| line_entry(source, ts, line),
        );
        assert(made =~= shorter.push(line_entry(source, ts, lines.last())));
    } else {
        assert(made =~= Seq::empty());
    }
}

// ---------------------------------------------------------------------------
// The ends of the files
// ---------------------------------------------------------------------------

/// The smaller of two counts.
pub open spec fn at_most(n: nat, bound: nat) -> nat {
    if n <= bound {
        n
    } else {
        bound
    }
}

/// The entries gathered from the ends of the first `n` files. Two thousand
/// entries are enough: a file that comes later adds one at most.
pub open spec fn gathered(files: Seq<LogFile>, n: nat, filter: LogFilter) -> Seq<EntryView>
    decreases n,
{
    if n == 0 {
        Seq::empty()
    } else {
        let before = gathered(files, (n - 1) as nat, filter);
        let file = files[n - 1];
        let source = source_of(file.path@);
        if filter.passes_source(source) && filter.passes_time(file.mtime) {
            match file.bytes {
                Some(bytes) => {
                    let made = line_entries(
                        source,
                        file.mtime,
                        tail_lines(bytes@, 65536),
                        filter,
                    );
                    let room = if before.len() < 2000 {
                        (2000 - before.len()) as nat
                    } else {
                        1
                    };
                    before + made.take(at_most(made.len(), room) as int)
                },
                None => before,
            }
        } else {
            before
        }
    }
}

/// The last `n` entries.
pub open spec fn last_entries(s: Seq<EntryView>, n: nat) -> Seq<EntryView> {
    if s.len() > n {
        s.skip(s.len() - n)
    } else {
        s
    }
}

/// What the ends of host log files hold that was asked for.
pub open spec fn ends_given(files: Seq<LogFile>, filter: LogFilter) -> Seq<EntryView> {
    if filter.passes_priority(LogPriority::Info) {
        last_entries(gathered(files, files.len(), filter), filter.page_size())
    } else {
        Seq::empty()
    }
}

/// What the ends of host log files hold: the last 64 KiB of each file, and of
/// all their entries the newest that were asked for.
pub fn host_file_logs(files: &Vec<LogFile>, filter: &LogFilter) -> (r: Vec<LogEntry>)
    ensures
        entries_view(r@) == ends_given(files@, *filter),
{
    let mut items: Vec<LogEntry> = Vec::new();
    let mut i: usize = 0;
    assert(entries_view(items@) =~= Seq::empty());
    while i < files.len()
        invariant
            i <= files@.len(),
            entries_view(items@) == gathered(files@, i as nat, *filter),
        decreases files@.len() - i,
    {
        let file = &files[i];
        let source = source_name(file.path.as_str());
        if filter.takes_source(source.as_str()) && filter.takes_time(&file.mtime) {
            if let Some(bytes) = &file.bytes {
                let lines = tail_file_lines(bytes.as_slice(), 65536);
                let mut made: Vec<LogEntry> = Vec::new();
                assert(entries_view(made@) =~= Seq::empty());
                push_entries(&mut made, source.as_str(), file.mtime, lines, filter);
                let ghost all = line_entries(
                    source@,
                    file.mtime,
                    tail_lines(bytes@, 65536),
                    *filter,
                );
                assert(entries_view(made@) =~= all);
                let room: usize = if items.len() < 2000 {
                    2000 - items.len()
                } else {
                    1
                };
                let ghost before = items@;
                if made.len() > room {
                    made.truncate(room);
                }
                let ghost added = made@;
                assert(entries_view(added) =~= all.take(at_most(all.len(), room as nat) as int));
                items.append(&mut made);
                assert(entries_view(items@) =~= entries_view(before) + entries_view(added));
            }
        }
        i += 1;
    }
    if !filter.takes_priority(LogPriority::Info) {
        let none: Vec<LogEntry> = Vec::new();
        assert(entries_view(none@) =~= Seq::empty());
        return none;
    }
    let wanted: usize = filter.entries_wanted();
    if items.len() > wanted {
        let ghost all = items@;
        let n: usize = items.len() - wanted;
        let kept = items.split_off(n);
        assert(entries_view(kept@) =~= entries_view(all).skip(entries_view(all).len() - wanted));
        return kept;
    }
    items
}

// ---------------------------------------------------------------------------
// What is given out was asked for
// ---------------------------------------------------------------------------

/// An entry is one that a filter lets through.
pub open spec fn asked_for(filter: LogFilter, e: EntryView) -> bool {
    &&& e.source is Some
    &&& filter.source is Some ==> filter.source->0@ == e.source->0
    &&& filter.since is Some ==> !e.timestamp.before(filter.since->0)
    &&& filter.until is Some ==> !filter.until->0.before(e.timestamp)
    &&& filter.pattern is Some ==> crate::text::occurs_in(filter.pattern->0@, e.message)
    &&& e.priority is Info
}

/// A line makes an entry exactly when its text is let through, and the entry says the
/// line, its source and the time of its file.
pub proof fn law_lines_make_entries(
    source: Seq<char>,
    ts: Timestamp,
    lines: Seq<Seq<char>>,
    filter: LogFilter,
    line: Seq<char>,
)
    ensures
        line_entries(source, ts, lines, filter).contains(line_entry(source, ts, line)) <==> (
        lines.contains(line) && filter.passes_message(line)),
        line_entry(source, ts, line).message == line,
        line_entry(source, ts, line).source == Some(source),
        line_entry(source, ts, line).timestamp == ts,
        line_entry(source, ts, line).priority is Info,
    decreases lines.len(),
{
    let made = line_entries(source, ts, lines, filter);
    let e = line_entry(source, ts, line);
    if lines.len() > 0 {
        let shorter = lines.drop_last();
        law_lines_make_entries(source, ts, shorter, filter, line);
        let before = line_entries(source, ts, shorter, filter);
        if made.contains(e) {
            let i = choose|i: int| 0 <= i < made.len() && made[i] == e;
            if i < before.len() {
                assert(before[i] == e);
                let j = choose|j: int| 0 <= j < shorter.len() && shorter[j] == line;
                assert(lines[j] == line);
            } else {
                assert(e.message == lines.last());
                assert(lines[lines.len() - 1] == line);
            }
        }
        if lines.contains(line) && filter.passes_message(line) {
            let j = choose|j: int| 0 <= j < lines.len() && lines[j] == line;
            if j < shorter.len() {
                assert(shorter[j] == line);
                let i = choose|i: int| 0 <= i < before.len() && before[i] == e;
                assert(made[i] == e);
            } else {
                assert(made[made.len() - 1] == e);
            }
        }
    }
}

proof fn lemma_lines_asked_for(
    source: Seq<char>,
    ts: Timestamp,
    lines: Seq<Seq<char>>,
    filter: LogFilter,
    i: int,
)
    requires
        filter.passes_source(source),
        filter.passes_time(ts),
        0 <= i < line_entries(source, ts, lines, filter).len(),
    ensures
        asked_for(filter, line_entries(source, ts, lines, filter)[i]),
    decreases lines.len(),
{
    let before = line_entries(source, ts, lines.drop_last(), filter);
    if i < before.len() {
        lemma_lines_asked_for(source, ts, lines.drop_last(), filter, i);
        assert(line_entries(source, ts, lines, filter)[i] == before[i]);
    }
}

proof fn lemma_scan_asked_for(
    files: Seq<LogFile>,
    n: nat,
    filter: LogFilter,
    cursor: Option<CursorView>,
    boot_epoch: u64,
    i: int,
)
    requires
        n <= files.len(),
        0 <= i < scan_files(files, n, filter, cursor, boot_epoch).items.len(),
    ensures
        asked_for(filter, scan_files(files, n, filter, cursor, boot_epoch).items[i]),
    decreases n,
{
    let scan = scan_files(files, (n - 1) as nat, filter, cursor, boot_epoch);
    let after = scan_files(files, n, filter, cursor, boot_epoch);
    let file = files[n - 1];
    let source = source_of(file.path@);
    if i < scan.items.len() {
        lemma_scan_asked_for(files, (n - 1) as nat, filter, cursor, boot_epoch, i);
        assert(after.items[i] == scan.items[i]);
    } else {
        let bytes = file.bytes->0;
        let start = resume_at(cursor, boot_epoch, file.path@, bytes@.len());
        let room = if scan.items.len() < filter.page_size() {
            (filter.page_size() - scan.items.len()) as nat
        } else {
            0
        };
        let read = lines_from(bytes@, start, room);
        let made = line_entries(source, file.mtime, read.0, filter);
        assert(after.items == scan.items + made);
        lemma_lines_asked_for(source, file.mtime, read.0, filter, i - scan.items.len());
        assert(after.items[i] == made[i - scan.items.len()]);
    }
}

proof fn lemma_gathered_asked_for(files: Seq<LogFile>, n: nat, filter: LogFilter, i: int)
    requires
        n <= files.len(),
        0 <= i < gathered(files, n, filter).len(),
    ensures
        asked_for(filter, gathered(files, n, filter)[i]),
    decreases n,
{
    let before = gathered(files, (n - 1) as nat, filter);
    let file = files[n - 1];
    if i < before.len() {
        lemma_gathered_asked_for(files, (n - 1) as nat, filter, i);
        assert(gathered(files, n, filter)[i] == before[i]);
    } else {
        let lines = tail_lines(file.bytes->0@, 65536);
        let made = line_entries(source_of(file.path@), file.mtime, lines, filter);
        lemma_lines_asked_for(
            source_of(file.path@),
            file.mtime,
            lines,
            filter,
            i - before.len(),
        );
        assert(gathered(files, n, filter)[i] == made[i - before.len()]);
    }
}

/// Every entry on a page was asked for: it is of the source, within the time, and holds
/// the pattern. Where only what is more severe than information was asked for the page
/// is empty, but says where to go on all the same; and no page is longer than was asked
/// for.
pub proof fn law_a_page_holds_what_was_asked_for(
    files: Seq<LogFile>,
    filter: LogFilter,
    boot_epoch: u64,
    page: LogPage,
    i: int,
)
    requires
        page_given(files, filter, boot_epoch, page),
    ensures
        0 <= i < page.items@.len() ==> asked_for(filter, page.items@[i]@),
        page.items@.len() <= filter.page_size(),
        filter.priority is Some && !(filter.priority->0 is Info) && !(filter.priority->0 is Debug)
            ==> page.items@.len() == 0,
        page.oldest_cursor is Some,
        page.next_cursor is Some <==> page_scan(files, filter, boot_epoch).advanced,
        page.next_cursor matches Some(t) ==> (cursor_of(t@) matches Some(c) && c.boot_epoch
            == boot_epoch),
        page.oldest_cursor matches Some(t) ==> (cursor_of(t@) matches Some(c) && c.boot_epoch
            == boot_epoch && forall|s: Seq<char>| #[trigger]
            c.sources.contains_key(s) ==> c.sources[s].offset == 0),
{
    law_page_is_bounded(files, files.len(), filter, cursor_asked(filter), boot_epoch);
    assert(entries_view(page.items@).len() == page.items@.len());
    if 0 <= i < page.items@.len() {
        assert(entries_view(page.items@)[i] == page.items@[i]@);
        lemma_scan_asked_for(files, files.len(), filter, cursor_asked(filter), boot_epoch, i);
    }
}

/// Of the ends of the files the last entries are given out, as many as were asked for
/// and each of them asked for; none where only what is more severe was asked for.
pub proof fn law_the_ends_hold_what_was_asked_for(files: Seq<LogFile>, filter: LogFilter, i: int)
    ensures
        0 <= i < ends_given(files, filter).len() ==> asked_for(filter, ends_given(files, filter)[i]),
        ends_given(files, filter).len() <= filter.page_size(),
        filter.priority is Some && !(filter.priority->0 is Info) && !(filter.priority->0 is Debug)
            ==> ends_given(files, filter).len() == 0,
        filter.priority is None ==> ends_given(files, filter).is_suffix_of(
            gathered(files, files.len(), filter),
        ) && (ends_given(files, filter).len() == filter.page_size() || ends_given(
            files,
            filter,
        ) == gathered(files, files.len(), filter)),
{
    let all = gathered(files, files.len(), filter);
    let n = filter.page_size();
    let given = ends_given(files, filter);
    if 0 <= i < given.len() {
        if all.len() > n {
            assert(given[i] == all[i + all.len() - n]);
            lemma_gathered_asked_for(files, files.len(), filter, i + all.len() - n);
        } else {
            lemma_gathered_asked_for(files, files.len(), filter, i);
        }
    }
    assert(all.subrange(all.len() - last_entries(all, n).len(), all.len() as int)
        =~= last_entries(all, n));
}

/// A file that cannot be read, one of another source and one from outside the time add
/// nothing to a page.
pub proof fn law_some_files_add_nothing(
    scan: Scan,
    file: LogFile,
    filter: LogFilter,
    cursor: Option<CursorView>,
    boot_epoch: u64,
)
    ensures
        file.bytes is None || !filter.passes_source(source_of(file.path@)) || !filter.passes_time(
            file.mtime,
        ) || scan.full ==> scan_file(scan, file, filter, cursor, boot_epoch).items == scan.items
            && scan_file(scan, file, filter, cursor, boot_epoch).advanced == scan.advanced,
        scan.items.len() <= scan_file(scan, file, filter, cursor, boot_epoch).items.len(),
{
}

/// The oldest cursor names the sources of the files, and no other.
pub proof fn law_the_oldest_cursor_names_the_files(
    files: Seq<LogFile>,
    boot_epoch: u64,
    source: Seq<char>,
)
    ensures
        oldest_positions(files, boot_epoch).sources.contains_key(source) <==> exists|i: int|
            0 <= i < files.len() && source_of((#[trigger] files[i]).path@) == source,
        oldest_positions(files, boot_epoch).boot_epoch == boot_epoch,
{
}

} // verus!
