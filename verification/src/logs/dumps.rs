//! Dump directories: every file in one is an entry that can be fetched and
//! deleted by its id.

use crate::error::{BackendError, BackendFault};
use crate::json::{is_null, items_in, json_of, json_parsed, keys_in, member, read_json, text_in, Json};
use crate::logs::entry::{
    entries_view, text_option, EntryView, LogEntry, LogFilter, LogPriority, LogStatus, Timestamp,
};
use crate::logs::ids::{
    bare_name, dump_id, dump_log_id, is_bare_name, parse_log_id, parsed_id, IdView, ParsedLogId,
};
use crate::text::{finishes_with, same_text};
use serde_json::Value;
use vstd::prelude::*;

verus! {

/// A file in a dump directory, with what its sidecar file holds.
#[derive(Debug, Clone)]
pub struct DumpFile {
    pub name: String,
    pub size: Option<u64>,
    pub mtime: Timestamp,
    /// The contents of `<name>.meta.json`, where there is one.
    pub sidecar: Option<Vec<u8>>,
}

/// A text that may be null and may be missing; anything else makes the whole record
/// unusable.
pub open spec fn optional_text(j: Option<Json>) -> Option<Option<Seq<char>>> {
    match j {
        None => Some(None),
        Some(Json::Null) => Some(None),
        Some(Json::Text(s)) => Some(Some(s)),
        Some(_) => None,
    }
}

/// A field of a sidecar, which is written either as an object or as the list of its
/// fields, of which any at the end may be missing.
pub open spec fn sidecar_field(j: Json, key: Seq<char>, at: nat) -> Option<Json> {
    match j {
        Json::List(items) => if at < items.len() {
            Some(items[at as int])
        } else {
            None
        },
        _ => j.member(key),
    }
}

/// A value is a sidecar, if its fields can be understood.
pub open spec fn is_sidecar(j: Json) -> bool {
    match j {
        Json::Object(_) => true,
        Json::List(items) => items.len() <= 2,
        _ => false,
    }
}

/// What a sidecar says of its dump: a type and a status, each perhaps unsaid. A
/// sidecar that cannot be understood says nothing.
pub open spec fn sidecar_says(sidecar: Option<Vec<u8>>) -> (Option<Seq<char>>, Option<Seq<char>>) {
    match sidecar {
        Some(bytes) => match json_parsed(bytes@) {
            Some(j) => match (
                is_sidecar(j),
                optional_text(sidecar_field(j, "type"@, 0)),
                optional_text(sidecar_field(j, "status"@, 1)),
            ) {
                (true, Some(t), Some(s)) => (t, s),
                _ => (None, None),
            },
            None => (None, None),
        },
        None => (None, None),
    }
}

/// The status that a sidecar's word stands for; a dump is pending unless its
/// sidecar says otherwise.
pub open spec fn status_named(word: Option<Seq<char>>) -> LogStatus {
    if word == Some("retrieved"@) {
        LogStatus::Retrieved
    } else if word == Some("processed"@) {
        LogStatus::Processed
    } else {
        LogStatus::Pending
    }
}

/// The entry that a dump file makes.
pub open spec fn dump_entry(file: DumpFile) -> EntryView {
    EntryView {
        id: dump_id(file.name@),
        timestamp: file.mtime,
        priority: LogPriority::Notice,
        message: file.name@,
        source: Some(file.name@),
        log_type: sidecar_says(file.sidecar).0,
        size: file.size,
        status: Some(status_named(sidecar_says(file.sidecar).1)),
    }
}

/// A dump file is listed: its name can be that of a file in the directory, it is no
/// sidecar, and it passes the filter.
pub open spec fn dump_listed(file: DumpFile, filter: LogFilter) -> bool {
    let says = sidecar_says(file.sidecar);
    &&& is_bare_name(file.name@)
    &&& !".meta.json"@.is_suffix_of(file.name@)
    &&& filter.passes_source(file.name@)
    &&& filter.log_type matches Some(t) ==> says.0 == Some(t@)
    &&& filter.status matches Some(s) ==> status_named(says.1) == s
    &&& filter.passes_time(file.mtime)
}

/// The entries that the first `n` files of a directory make, two thousand at
/// most.
pub open spec fn dump_entries(files: Seq<DumpFile>, n: nat, filter: LogFilter) -> Seq<EntryView>
    decreases n,
{
    if n == 0 {
        Seq::empty()
    } else {
        let before = dump_entries(files, (n - 1) as nat, filter);
        if before.len() < 2000 && dump_listed(files[n - 1], filter) {
            before.push(dump_entry(files[n - 1]))
        } else {
            before
        }
    }
}

fn optional_field(v: &Value, key: &str, at: usize) -> (r: Option<Option<String>>)
    ensures
        match r {
            Some(t) => optional_text(sidecar_field(json_of(*v), key@, at as nat)) == Some(
                text_option(t),
            ),
            None => optional_text(sidecar_field(json_of(*v), key@, at as nat)) is None,
        },
{
    let found: Option<&Value> = match items_in(v) {
        Some(items) => if at < items.len() {
            Some(&items[at])
        } else {
            None
        },
        None => member(v, key),
    };
    match found {
        None => Some(None),
        Some(m) => if is_null(m) {
            Some(None)
        } else {
            match text_in(m) {
                Some(s) => Some(Some(s)),
                None => None,
            }
        },
    }
}

fn read_sidecar(sidecar: &Option<Vec<u8>>) -> (r: (Option<String>, Option<String>))
    ensures
        (text_option(r.0), text_option(r.1)) == sidecar_says(*sidecar),
{
    let bytes = match sidecar {
        Some(b) => b,
        None => {
            return (None, None);
        },
    };
    let v = match read_json(bytes.as_slice()) {
        Some(v) => v,
        None => {
            return (None, None);
        },
    };
    let sound = match items_in(&v) {
        Some(items) => items.len() <= 2,
        None => keys_in(&v).is_some(),
    };
    if !sound {
        return (None, None);
    }
    match (optional_field(&v, "type", 0), optional_field(&v, "status", 1)) {
        (Some(t), Some(s)) => (t, s),
        _ => (None, None),
    }
}

fn read_status(word: &Option<String>) -> (s: LogStatus)
    ensures
        s == status_named(text_option(*word)),
{
    proof {
        reveal_strlit("retrieved");
        reveal_strlit("processed");
        assert("retrieved"@[0] == 'r' && "processed"@[0] == 'p');
    }
    match word {
        Some(w) => if same_text(w.as_str(), "retrieved") {
            LogStatus::Retrieved
        } else if same_text(w.as_str(), "processed") {
            LogStatus::Processed
        } else {
            LogStatus::Pending
        },
        None => LogStatus::Pending,
    }
}

/// The entry of a dump file, where it is listed.
fn listed_dump(file: &DumpFile, filter: &LogFilter) -> (r: Option<LogEntry>)
    ensures
        match r {
            Some(e) => dump_listed(*file, *filter) && e@ == dump_entry(*file) && parsed_id(e.id@)
                == Some(IdView::HostDump(e.message@)),
            None => !dump_listed(*file, *filter),
        },
{
    let (log_type, word) = read_sidecar(&file.sidecar);
    let status = read_status(&word);
    let type_fits = match &filter.log_type {
        Some(want) => match &log_type {
            Some(t) => same_text(t.as_str(), want.as_str()),
            None => false,
        },
        None => true,
    };
    let status_fits = match filter.status {
        Some(want) => status == want,
        None => true,
    };
    if bare_name(file.name.as_str()) && !finishes_with(file.name.as_str(), ".meta.json")
        && filter.takes_source(file.name.as_str()) && type_fits && status_fits
        && filter.takes_time(&file.mtime) {
        let entry = LogEntry {
            id: dump_log_id(file.name.as_str()),
            timestamp: file.mtime,
            priority: LogPriority::Notice,
            message: file.name.clone(),
            source: Some(file.name.clone()),
            log_type,
            size: file.size,
            status: Some(status),
        };
        assert(entry@ == dump_entry(*file));
        Some(entry)
    } else {
        None
    }
}

/// The catalogue of a dump directory: the entries of its files, but for the
/// sidecars and for what the filter leaves out. Every dump that is listed can be
/// fetched: its id leads back to its file.
pub fn host_dump_logs(files: &Vec<DumpFile>, filter: &LogFilter) -> (r: Vec<LogEntry>)
    ensures
        entries_view(r@) == dump_entries(files@, files@.len(), *filter),
        forall|i: int|
            0 <= i < r@.len() ==> parsed_id((#[trigger] r@[i]).id@) == Some(
                IdView::HostDump(r@[i].message@),
            ),
{
    let mut found: Vec<LogEntry> = Vec::new();
    let mut i: usize = 0;
    assert(entries_view(found@) =~= Seq::empty());
    while i < files.len()
        invariant
            i <= files@.len(),
            entries_view(found@) == dump_entries(files@, i as nat, *filter),
            forall|k: int|
                0 <= k < found@.len() ==> parsed_id((#[trigger] found@[k]).id@) == Some(
                    IdView::HostDump(found@[k].message@),
                ),
        decreases files@.len() - i,
    {
        if found.len() < 2000 {
            if let Some(entry) = listed_dump(&files[i], filter) {
                let ghost before = found@;
                found.push(entry);
                assert(entries_view(found@) =~= entries_view(before).push(entry@));
            }
        }
        i += 1;
    }
    found
}

/// The entries of all dumps among the first `n` files of a directory, however many
/// there are.
pub open spec fn held_dumps(files: Seq<DumpFile>, n: nat) -> Seq<EntryView>
    decreases n,
{
    if n == 0 {
        Seq::empty()
    } else {
        let before = held_dumps(files, (n - 1) as nat);
        let name = files[n - 1].name@;
        if is_bare_name(name) && !".meta.json"@.is_suffix_of(name) {
            before.push(dump_entry(files[n - 1]))
        } else {
            before
        }
    }
}

/// All dumps of a directory: what an entry is looked for in.
pub fn all_dumps(files: &Vec<DumpFile>) -> (r: Vec<LogEntry>)
    ensures
        entries_view(r@) == held_dumps(files@, files@.len()),
        forall|i: int|
            0 <= i < r@.len() ==> parsed_id((#[trigger] r@[i]).id@) == Some(
                IdView::HostDump(r@[i].message@),
            ),
{
    let everything = LogFilter::default();
    let mut found: Vec<LogEntry> = Vec::new();
    let mut i: usize = 0;
    assert(entries_view(found@) =~= Seq::empty());
    while i < files.len()
        invariant
            i <= files@.len(),
            everything.source is None && everything.since is None && everything.until is None,
            everything.log_type is None && everything.status is None,
            entries_view(found@) == held_dumps(files@, i as nat),
            forall|k: int|
                0 <= k < found@.len() ==> parsed_id((#[trigger] found@[k]).id@) == Some(
                    IdView::HostDump(found@[k].message@),
                ),
        decreases files@.len() - i,
    {
        if let Some(entry) = listed_dump(&files[i], &everything) {
            let ghost before = found@;
            found.push(entry);
            assert(entries_view(found@) =~= entries_view(before).push(entry@));
        }
        i += 1;
    }
    found
}

/// Every dump that is listed, whatever the filter, is one of all dumps.
pub proof fn law_listed_dumps_are_held(
    files: Seq<DumpFile>,
    n: nat,
    filter: LogFilter,
    e: EntryView,
)
    requires
        n <= files.len(),
        dump_entries(files, n, filter).contains(e),
    ensures
        held_dumps(files, n).contains(e),
    decreases n,
{
    let listed = dump_entries(files, n, filter);
    let i = choose|i: int| 0 <= i < listed.len() && listed[i] == e;
    if n > 0 {
        let listed_before = dump_entries(files, (n - 1) as nat, filter);
        let held_before = held_dumps(files, (n - 1) as nat);
        let held = held_dumps(files, n);
        if i < listed_before.len() {
            assert(listed_before[i] == e);
            law_listed_dumps_are_held(files, (n - 1) as nat, filter, e);
            let j = choose|j: int| 0 <= j < held_before.len() && held_before[j] == e;
            assert(held[j] == e);
        } else {
            assert(held[held_before.len() as int] == e);
        }
    }
}

/// What to do about an entry that is asked for by its id.
#[derive(Debug, Clone)]
pub enum EntryAction {
    /// Deal with this file of the dump directory.
    Dump { file: String },
    /// Find the line by listing again.
    Line,
}

/// The answer on handing out the contents of an entry.
pub open spec fn content_planned(id: Seq<char>, r: Result<EntryAction, BackendError>) -> bool {
    match r {
        Ok(EntryAction::Dump { file }) => parsed_id(id) == Some(IdView::HostDump(file@)),
        Ok(EntryAction::Line) => parsed_id(id) == Some(IdView::Line),
        Err(e) => {
            ||| parsed_id(id) == Some(IdView::GuestDump) && e@ == BackendFault::NotSupported(
                "guest dump content (guest /dumps proxy not yet wired)"@,
            )
            ||| parsed_id(id) is None && e@ == BackendFault::EntityNotFound(id)
        },
    }
}

/// The answer on deleting an entry.
pub open spec fn delete_planned(id: Seq<char>, r: Result<String, BackendError>) -> bool {
    match r {
        Ok(file) => parsed_id(id) == Some(IdView::HostDump(file@)),
        Err(e) => {
            ||| parsed_id(id) == Some(IdView::Line) && e@ == BackendFault::NotSupported(
                "a standard log line cannot be individually deleted"@,
            )
            ||| parsed_id(id) == Some(IdView::GuestDump) && e@ == BackendFault::NotSupported(
                "guest dump delete (guest /dumps proxy not yet wired)"@,
            )
            ||| parsed_id(id) is None && e@ == BackendFault::EntityNotFound(id)
        },
    }
}

/// The answer on where a dump file is.
pub open spec fn path_resolved(
    found: Seq<Option<String>>,
    id: Seq<char>,
    r: Result<String, BackendError>,
) -> bool {
    match r {
        Ok(path) => exists|i: int|
            0 <= i < found.len() && #[trigger] found[i] == Some(path) && forall|j: int|
                0 <= j < i ==> #[trigger] found[j] is None,
        Err(e) => e@ == BackendFault::EntityNotFound(id) && forall|j: int|
            0 <= j < found.len() ==> #[trigger] found[j] is None,
    }
}

/// What to do to hand out the contents of the entry with an id: read a dump
/// file, or find a line and hand out its text. An id that is none, or that lies
/// inside a guest, is refused.
pub fn plan_log_content(id: &str) -> (r: Result<EntryAction, BackendError>)
    ensures
        content_planned(id@, r),
{
    match parse_log_id(id) {
        Some(ParsedLogId::HostDump { file }) => Ok(EntryAction::Dump { file }),
        Some(ParsedLogId::Line) => Ok(EntryAction::Line),
        Some(ParsedLogId::GuestDump) => Err(
            BackendError::NotSupported(
                "guest dump content (guest /dumps proxy not yet wired)".to_owned(),
            ),
        ),
        None => Err(BackendError::EntityNotFound(id.to_owned())),
    }
}

/// The dump file to remove, with its sidecar, for a request to delete the entry
/// with an id. A line cannot be deleted; neither can a dump inside a guest.
pub fn plan_log_delete(id: &str) -> (r: Result<String, BackendError>)
    ensures
        delete_planned(id@, r),
{
    match parse_log_id(id) {
        Some(ParsedLogId::HostDump { file }) => Ok(file),
        Some(ParsedLogId::Line) => Err(
            BackendError::NotSupported(
                "a standard log line cannot be individually deleted".to_owned(),
            ),
        ),
        Some(ParsedLogId::GuestDump) => Err(
            BackendError::NotSupported(
                "guest dump delete (guest /dumps proxy not yet wired)".to_owned(),
            ),
        ),
        None => Err(BackendError::EntityNotFound(id.to_owned())),
    }
}

/// The name of the sidecar of a dump file: the whole name, with a suffix.
pub fn sidecar_name(file: &str) -> (r: String)
    ensures
        r@ == file@ + ".meta.json"@,
{
    crate::text::cat2(file, ".meta.json")
}

/// The first of the places where a dump file was looked for and found, or the
/// refusal where it was found in none.
pub fn resolve_dump_path(found: Vec<Option<String>>, id: &str) -> (r: Result<String, BackendError>)
    ensures
        path_resolved(found@, id@, r),
{
    let mut i: usize = 0;
    while i < found.len()
        invariant
            i <= found@.len(),
            forall|j: int| 0 <= j < i ==> #[trigger] found@[j] is None,
        decreases found@.len() - i,
    {
        if let Some(path) = &found[i] {
            assert(found@[i as int] == Some(*path));
            return Ok(path.clone());
        }
        i += 1;
    }
    Err(BackendError::EntityNotFound(id.to_owned()))
}

/// Contents are handed out of dump files and lines, and only dump files are deleted; a
/// dump inside a guest is neither, and what is no id is not found.
pub proof fn law_what_can_be_done_with_an_id(
    id: Seq<char>,
    content: Result<EntryAction, BackendError>,
    deleted: Result<String, BackendError>,
)
    requires
        content_planned(id, content),
        delete_planned(id, deleted),
    ensures
        content is Ok <==> (parsed_id(id) matches Some(what) && !(what is GuestDump)),
        (content matches Ok(a) && a is Line) <==> parsed_id(id) == Some(IdView::Line),
        content matches Ok(EntryAction::Dump { file }) ==> is_bare_name(file@),
        deleted is Ok <==> (parsed_id(id) matches Some(what) && what is HostDump),
        deleted matches Ok(file) ==> (content matches Ok(EntryAction::Dump { file: f }) && f@
            == file@),
        parsed_id(id) is None ==> (content matches Err(e) && e@ == BackendFault::EntityNotFound(id))
            && (deleted matches Err(e) && e@ == BackendFault::EntityNotFound(id)),
        parsed_id(id) == Some(IdView::GuestDump) ==> (content matches Err(e) && e@ is NotSupported)
            && (deleted matches Err(e) && e@ is NotSupported),
        parsed_id(id) == Some(IdView::Line) ==> (deleted matches Err(e) && e@ is NotSupported),
{
}

/// A dump file is where it was first found, and nowhere exactly when it was found
/// nowhere.
pub proof fn law_a_dump_is_where_it_was_first_found(
    found: Seq<Option<String>>,
    id: Seq<char>,
    r: Result<String, BackendError>,
)
    requires
        path_resolved(found, id, r),
    ensures
        r is Ok <==> exists|i: int| 0 <= i < found.len() && #[trigger] found[i] is Some,
        found.len() > 0 && found[0] is Some ==> (r matches Ok(p) && p == found[0]->0),
        r matches Err(e) ==> e@ == BackendFault::EntityNotFound(id),
{
    if let Ok(p) = r {
        let i = choose|i: int|
            0 <= i < found.len() && #[trigger] found[i] == Some(p) && forall|j: int|
                0 <= j < i ==> #[trigger] found[j] is None;
        assert(found[i] is Some);
    }
}

/// A dump is retrieved or processed exactly when its sidecar says so in a word, and
/// pending otherwise.
pub proof fn law_a_dump_is_pending_unless_said_otherwise(word: Option<Seq<char>>)
    ensures
        status_named(word) is Retrieved <==> word == Some("retrieved"@),
        status_named(word) is Processed <==> word == Some("processed"@),
        word is None ==> status_named(word) is Pending,
{
    reveal_strlit("retrieved");
    reveal_strlit("processed");
    assert("retrieved"@[0] == 'r' && "processed"@[0] == 'p');
}

/// What a sidecar says in an object: the type under `type` and the status under
/// `status`, where they are texts; and nothing where there is no sidecar.
pub proof fn law_a_sidecar_says_its_type_and_status(
    sidecar: Option<Vec<u8>>,
    members: Map<Seq<char>, Json>,
    kind: Seq<char>,
    word: Seq<char>,
)
    requires
        sidecar matches Some(bytes) ==> json_parsed(bytes@) == Some(Json::Object(members)),
    ensures
        sidecar is None ==> sidecar_says(sidecar) == (None::<Seq<char>>, None::<Seq<char>>),
        sidecar is Some && members.contains_key("type"@) && members["type"@] == Json::Text(kind)
            && members.contains_key("status"@) && members["status"@] == Json::Text(word)
            ==> sidecar_says(sidecar) == (Some(kind), Some(word)),
        sidecar is Some && members.contains_key("type"@) && members["type"@] == Json::Text(kind)
            && !members.contains_key("status"@) ==> sidecar_says(sidecar) == (
            Some(kind),
            None::<Seq<char>>,
        ),
        sidecar is Some && !members.contains_key("type"@) && members.contains_key("status"@)
            && members["status"@] == Json::Text(word) ==> sidecar_says(sidecar) == (
            None::<Seq<char>>,
            Some(word),
        ),
        sidecar is Some && members.contains_key("type"@) && members["type"@] is Unsigned
            ==> sidecar_says(sidecar) == (None::<Seq<char>>, None::<Seq<char>>),
{
}

/// What is told of a dump: its name as message and as source, when it was written, its
/// size, and what its sidecar says.
pub proof fn law_a_dump_is_told_by_its_file(file: DumpFile)
    ensures
        dump_entry(file).message == file.name@,
        dump_entry(file).source == Some(file.name@),
        dump_entry(file).timestamp == file.mtime,
        dump_entry(file).size == file.size,
        dump_entry(file).log_type == sidecar_says(file.sidecar).0,
        dump_entry(file).status == Some(status_named(sidecar_says(file.sidecar).1)),
        dump_entry(file).priority is Notice,
{
}

/// Sidecars, and names that lead elsewhere, are never listed; a dump outside what the
/// filter asks for is not; and every other dump is.
pub proof fn law_dumps_that_are_listed(file: DumpFile, f: LogFilter)
    ensures
        ".meta.json"@.is_suffix_of(file.name@) ==> !dump_listed(file, f),
        file.name@.contains('/') || file.name@ == ".."@ || file.name@.len() == 0 ==> !dump_listed(
            file,
            f,
        ),
        f.since matches Some(s) && file.mtime.before(s) ==> !dump_listed(file, f),
        f.until matches Some(u) && u.before(file.mtime) ==> !dump_listed(file, f),
        f.source matches Some(s) && s@ != file.name@ ==> !dump_listed(file, f),
        f.status matches Some(s) && dump_entry(file).status != Some(s) ==> !dump_listed(file, f),
        f.log_type matches Some(t) && dump_entry(file).log_type != Some(t@) ==> !dump_listed(
            file,
            f,
        ),
        f.since is None && f.until is None && f.source is None && f.status is None && f.log_type
            is None && is_bare_name(file.name@) && !".meta.json"@.is_suffix_of(file.name@)
            ==> dump_listed(file, f),
        dump_listed(file, f) ==> f.passes_time(file.mtime) && f.passes_source(file.name@),
{
}

/// A catalogue holds two thousand dumps at most, and every dump that is listed as long
/// as there are no more than that.
pub proof fn law_a_catalogue_is_bounded(files: Seq<DumpFile>, n: nat, f: LogFilter, i: int)
    requires
        n <= files.len(),
        0 <= i < n,
    ensures
        dump_entries(files, n, f).len() <= 2000,
        dump_entries(files, n, f).len() <= n,
        dump_listed(files[i], f) && dump_entries(files, n, f).len() < 2000 ==> dump_entries(
            files,
            n,
            f,
        ).contains(dump_entry(files[i])),
    decreases n,
{
    let all = dump_entries(files, n, f);
    let before = dump_entries(files, (n - 1) as nat, f);
    if n > 1 {
        law_a_catalogue_is_bounded(files, (n - 1) as nat, f, if i < n - 1 {
            i
        } else {
            0
        });
    }
    if dump_listed(files[i], f) && all.len() < 2000 {
        if i < n - 1 {
            let j = choose|j: int| 0 <= j < before.len() && before[j] == dump_entry(files[i]);
            assert(before.contains(dump_entry(files[i])));
            assert(all[j] == dump_entry(files[i]));
        } else {
            assert(all[all.len() - 1] == dump_entry(files[i]));
        }
    }
}

/// A field of a sidecar that is null says nothing, like one that is missing; and a
/// sidecar may be written as the list of its fields, the type first, of which any at the
/// end may be missing.
pub proof fn law_a_sidecar_may_leave_things_unsaid(
    kind: Seq<char>,
    word: Seq<char>,
    bytes: Vec<u8>,
    items: Seq<Json>,
)
    requires
        json_parsed(bytes@) == Some(Json::List(items)),
    ensures
        optional_text(Some(Json::Null)) == Some(None::<Seq<char>>),
        optional_text(None) == Some(None::<Seq<char>>),
        optional_text(Some(Json::Text(kind))) == Some(Some(kind)),
        optional_text(Some(Json::Bool(true))) is None,
        items.len() == 2 && items[0] == Json::Text(kind) && items[1] == Json::Text(word)
            ==> sidecar_says(Some(bytes)) == (Some(kind), Some(word)),
        items.len() == 1 && items[0] == Json::Text(kind) ==> sidecar_says(Some(bytes)) == (
            Some(kind),
            None::<Seq<char>>,
        ),
        items.len() == 0 || items.len() > 2 ==> sidecar_says(Some(bytes)) == (
            None::<Seq<char>>,
            None::<Seq<char>>,
        ),
{
}

} // verus!
