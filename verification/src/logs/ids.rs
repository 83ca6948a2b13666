//! The ids of log entries.
//!
//! An id says by itself where its entry is found, so that nothing has to be kept
//! between giving an id out and being asked for it: `line:<source>:<digest>` is a
//! line, found by listing again and comparing ids; `dump:host:<name>` is a file
//! in the dump directory, its bare name encoded; any other `dump:` is a dump
//! inside a guest.

use crate::logs::entry::{LogEntry, Timestamp};
use crate::outside::{
    b64url, b64url_bytes, b64url_decode, b64url_text, rfc3339, rfc3339_text, sha256, sha256_of,
    utf8_text,
};
use crate::text::{
    cat2, cat4, cut, first_char_at, lemma_cut, same_text, split_once,
};
use vstd::prelude::*;
use vstd::string::*;
use vstd::utf8::*;

verus! {

/// What the id of a line is the digest of.
pub open spec fn line_bytes(source: Seq<char>, ts: Timestamp, message: Seq<char>) -> Seq<u8> {
    encode_utf8(source) + seq![124u8] + encode_utf8(
        rfc3339_text(ts.seconds(), ts.nanoseconds()),
    ) + seq![124u8] + encode_utf8(message)
}

/// The id of a line: its source, and the first twelve bytes of a digest of its
/// source, instant and message.
pub open spec fn line_id(source: Seq<char>, ts: Timestamp, message: Seq<char>) -> Seq<char> {
    "line:"@ + source + ":"@ + b64url_text(sha256(line_bytes(source, ts, message)).take(12))
}

/// The id of a dump file: its bare name, encoded.
pub open spec fn dump_id(file: Seq<char>) -> Seq<char> {
    "dump:host:"@ + b64url_text(encode_utf8(file))
}

/// A name that leads neither further down from a directory nor up. Without a
/// separator only the name `..` itself leads up: one that merely holds two dots in a
/// row, such as `a..bin`, is the name of a file in the directory.
pub open spec fn is_bare_name(file: Seq<char>) -> bool {
    &&& file.len() > 0
    &&& !file.contains('/')
    &&& file != ".."@
}

/// Whether a name leads neither further down from a directory nor up.
pub fn bare_name(file: &str) -> (r: bool)
    ensures
        r == is_bare_name(file@),
{
    let cs = crate::text::chars_of(file);
    cs.len() > 0 && crate::text::find_char(&cs, '/').is_none() && !same_text(file, "..")
}

/// Where an entry is found.
#[derive(Debug, Clone)]
pub enum ParsedLogId {
    /// A line: list the sources again and compare ids.
    Line,
    /// A file in the dump directory.
    HostDump { file: String },
    /// A dump inside a guest.
    GuestDump,
}

/// Where an id says that its entry is found.
pub enum IdView {
    Line,
    HostDump(Seq<char>),
    GuestDump,
}

impl View for ParsedLogId {
    type V = IdView;

    open spec fn view(&self) -> IdView {
        match self {
            ParsedLogId::Line => IdView::Line,
            ParsedLogId::HostDump { file } => IdView::HostDump(file@),
            ParsedLogId::GuestDump => IdView::GuestDump,
        }
    }
}

/// The file name that the key of a dump id encodes, if it is a bare name.
pub open spec fn dump_file(key: Seq<char>) -> Option<Seq<char>> {
    match b64url_bytes(key) {
        Some(bytes) => if valid_utf8(bytes) && is_bare_name(decode_utf8(bytes)) {
            Some(decode_utf8(bytes))
        } else {
            None
        },
        None => None,
    }
}

/// What an id says, if it is one.
pub open spec fn parsed_id(id: Seq<char>) -> Option<IdView> {
    match cut(id, ':') {
        Some((kind, rest)) => if kind == "line"@ {
            if rest.contains(':') {
                Some(IdView::Line)
            } else {
                None
            }
        } else if kind == "dump"@ {
            match cut(rest, ':') {
                Some((place, key)) => if place == "host"@ {
                    match dump_file(key) {
                        Some(file) => Some(IdView::HostDump(file)),
                        None => None,
                    }
                } else {
                    Some(IdView::GuestDump)
                },
                None => None,
            }
        } else {
            None
        },
        None => None,
    }
}

/// The id of a line.
pub fn line_log_id(source: &str, ts: Timestamp, message: &str) -> (r: String)
    ensures
        r@ == line_id(source@, ts, message@),
        parsed_id(r@) == Some(IdView::Line),
{
    ts.check();
    let when = rfc3339(ts.secs(), ts.nanos());
    let mut bytes: Vec<u8> = source.as_bytes_vec();
    bytes.push(124);
    let mut rest: Vec<u8> = when.as_str().as_bytes_vec();
    bytes.append(&mut rest);
    bytes.push(124);
    let mut tail: Vec<u8> = message.as_bytes_vec();
    bytes.append(&mut tail);
    assert(bytes@ =~= line_bytes(source@, ts, message@));
    let digest = sha256_of(bytes.as_slice());
    let head = vstd::slice::slice_subrange(digest.as_slice(), 0, 12);
    assert(head@ =~= sha256(bytes@).take(12));
    let r = cat4("line:", source, ":", b64url(head).as_str());
    proof {
        law_line_ids_are_ids(source@, ts, message@);
    }
    r
}

/// The id of a line is an id, and says that it is that of a line.
pub proof fn law_line_ids_are_ids(source: Seq<char>, ts: Timestamp, message: Seq<char>)
    ensures
        parsed_id(line_id(source, ts, message)) == Some(IdView::Line),
{
    let r = line_id(source, ts, message);
    reveal_strlit("line:");
    reveal_strlit("line");
    reveal_strlit(":");
    assert(first_char_at(r, ':', 4)) by {
        assert(r[4] == "line:"@[4]);
        assert(r.take(4) =~= "line"@);
        assert(!"line"@.contains(':'));
    }
    lemma_cut(r, ':', 4);
    assert(r.take(4) =~= "line"@);
    let behind = r.skip(5);
    assert(behind[source.len() as int] == ':');
    assert(behind.contains(':'));
}

/// The id of a dump file.
pub fn dump_log_id(file: &str) -> (r: String)
    ensures
        r@ == dump_id(file@),
        is_bare_name(file@) ==> parsed_id(r@) == Some(IdView::HostDump(file@)),
        !is_bare_name(file@) ==> parsed_id(r@) is None,
{
    let key = b64url(file.as_bytes());
    let r = cat2("dump:host:", key.as_str());
    proof {
        reveal_strlit("dump:host:");
        reveal_strlit("dump");
        reveal_strlit("host");
        assert(first_char_at(r@, ':', 4)) by {
            assert(r@[4] == "dump:host:"@[4]);
            assert(r@.take(4) =~= "dump"@);
            assert(!"dump"@.contains(':'));
        }
        lemma_cut(r@, ':', 4);
        assert(r@.take(4) =~= "dump"@);
        reveal_strlit("line");
        assert("line"@[0] == 'l' && "dump"@[0] == 'd');
        let behind = r@.skip(5);
        assert(first_char_at(behind, ':', 4)) by {
            assert(behind[4] == "dump:host:"@[9]);
            assert(behind.take(4) =~= "host"@);
            assert(!"host"@.contains(':'));
        }
        lemma_cut(behind, ':', 4);
        assert(behind.take(4) =~= "host"@);
        assert(behind.skip(5) =~= key@);
        encode_utf8_valid_utf8(file@);
        encode_utf8_decode_utf8(file@);
    }
    r
}

/// Reads an id. What comes back as a dump file is always a bare name, so an id
/// cannot lead out of the dump directory.
pub fn parse_log_id(id: &str) -> (r: Option<ParsedLogId>)
    ensures
        match r {
            Some(p) => parsed_id(id@) == Some(p@),
            None => parsed_id(id@) is None,
        },
        r matches Some(ParsedLogId::HostDump { file }) ==> is_bare_name(file@),
{
    proof {
        reveal_strlit("line");
        reveal_strlit("dump");
        assert("line"@[0] == 'l' && "dump"@[0] == 'd');
    }
    let (kind, rest) = match split_once(id, ':') {
        Some(p) => p,
        None => {
            return None;
        },
    };
    if same_text(kind.as_str(), "line") {
        let cs = crate::text::chars_of(rest.as_str());
        if crate::text::find_char(&cs, ':').is_some() {
            Some(ParsedLogId::Line)
        } else {
            None
        }
    } else if same_text(kind.as_str(), "dump") {
        let (place, key) = match split_once(rest.as_str(), ':') {
            Some(p) => p,
            None => {
                return None;
            },
        };
        if !same_text(place.as_str(), "host") {
            return Some(ParsedLogId::GuestDump);
        }
        let bytes = match b64url_decode(key.as_str()) {
            Some(b) => b,
            None => {
                return None;
            },
        };
        let file = match utf8_text(bytes.as_slice()) {
            Some(f) => f,
            None => {
                return None;
            },
        };
        if !bare_name(file.as_str()) {
            return None;
        }
        Some(ParsedLogId::HostDump { file })
    } else {
        None
    }
}

/// The first entry of a list with an id, if there is one.
pub open spec fn first_with_id(entries: Seq<LogEntry>, id: Seq<char>, at: int) -> bool {
    &&& 0 <= at < entries.len()
    &&& entries[at].id@ == id
    &&& forall|j: int| 0 <= j < at ==> (#[trigger] entries[j]).id@ != id
}

/// What looking for an id in a list gives: the first entry with the id, and nothing
/// where there is none or the id is none.
pub open spec fn finds(entries: Seq<LogEntry>, id: Seq<char>, r: Option<LogEntry>) -> bool {
    match r {
        Some(e) => parsed_id(id) is Some && exists|at: int| #[trigger]
            first_with_id(entries, id, at) && e == entries[at],
        None => parsed_id(id) is None || forall|j: int|
            0 <= j < entries.len() ==> (#[trigger] entries[j]).id@ != id,
    }
}

/// An entry of a list whose id is one is found again by that id: what comes back is
/// in the list and has the id.
pub proof fn law_listed_entry_is_found(entries: Seq<LogEntry>, j: int, r: Option<LogEntry>)
    requires
        0 <= j < entries.len(),
        parsed_id(entries[j].id@) is Some,
        finds(entries, entries[j].id@, r),
    ensures
        r is Some,
        r->0.id@ == entries[j].id@,
        entries.contains(r->0),
{
    let id = entries[j].id@;
    if r is Some {
        let at = choose|at: int| #[trigger] first_with_id(entries, id, at) && r->0 == entries[at];
        assert(entries[at] == r->0);
    }
}

/// Finds an entry by its id in a fresh list of everything the sources hold. An
/// id that is none finds nothing.
pub fn find_log_entry(entries: Vec<LogEntry>, id: &str) -> (r: Option<LogEntry>)
    ensures
        finds(entries@, id@, r),
{
    if parse_log_id(id).is_none() {
        return None;
    }
    let mut pool = entries;
    let mut i: usize = 0;
    while i < pool.len()
        invariant
            pool@ == entries@,
            i <= pool@.len(),
            parsed_id(id@) is Some,
            forall|j: int| 0 <= j < i ==> (#[trigger] entries@[j]).id@ != id@,
        decreases pool@.len() - i,
    {
        if same_text(pool[i].id.as_str(), id) {
            let e = pool.swap_remove(i);
            assert(first_with_id(entries@, id@, i as int));
            return Some(e);
        }
        i += 1;
    }
    None
}

/// An id that leads to a dump file leads to one in the dump directory itself: its name
/// is not empty, holds no separator and is not the way up.
pub proof fn law_an_id_cannot_lead_out(id: Seq<char>, file: Seq<char>)
    requires
        parsed_id(id) == Some(IdView::HostDump(file)),
    ensures
        file.len() > 0,
        !file.contains('/'),
        file != ".."@,
        "dump:host:"@.is_prefix_of(id),
{
    reveal_strlit("line");
    reveal_strlit("dump");
    reveal_strlit("host");
    reveal_strlit("dump:host:");
    crate::text::law_a_text_is_cut_at_the_first_place(id, ':');
    let (kind, rest) = cut(id, ':')->0;
    crate::text::law_a_text_is_cut_at_the_first_place(rest, ':');
    let (place, key) = cut(rest, ':')->0;
    assert("line"@[0] == 'l' && "dump"@[0] == 'd');
    assert(id =~= "dump"@ + seq![':'] + ("host"@ + seq![':'] + key));
    assert("dump:host:"@ =~= id.take(10));
}

/// The id of a line names its source, and starts like the id of no dump.
pub proof fn law_a_line_id_names_its_source(source: Seq<char>, ts: Timestamp, message: Seq<char>)
    ensures
        ("line:"@ + source + ":"@).is_prefix_of(line_id(source, ts, message)),
        !"dump:"@.is_prefix_of(line_id(source, ts, message)),
{
    reveal_strlit("line:");
    reveal_strlit("dump:");
    let id = line_id(source, ts, message);
    let front = "line:"@ + source + ":"@;
    assert(id.take(front.len() as int) =~= front);
    assert(id[0] == "line:"@[0] && "line:"@[0] == 'l' && "dump:"@[0] == 'd');
    if "dump:"@.is_prefix_of(id) {
        assert(id.take(5)[0] == 'd');
    }
}

/// What is no id of a line or a dump is no id: without a kind, with another kind, or
/// with a kind alone.
pub proof fn law_what_is_no_id(kind: Seq<char>, rest: Seq<char>)
    requires
        !kind.contains(':'),
    ensures
        parsed_id(kind) is None,
        kind != "line"@ && kind != "dump"@ ==> parsed_id(kind + seq![':'] + rest) is None,
        !rest.contains(':') ==> parsed_id(kind + seq![':'] + rest) is None,
        kind == "line"@ && rest.contains(':') ==> parsed_id(kind + seq![':'] + rest) == Some(
            IdView::Line,
        ),
{
    let id = kind + seq![':'] + rest;
    assert(first_char_at(id, ':', kind.len() as int)) by {
        assert(id[kind.len() as int] == ':');
        assert(id.take(kind.len() as int) =~= kind);
    }
    lemma_cut(id, ':', kind.len() as int);
    assert(id.take(kind.len() as int) =~= kind);
    assert(id.skip(kind.len() as int + 1) =~= rest);
}

/// A name is that of a file in a directory exactly when it is one part that is not the
/// way up.
pub proof fn law_bare_names(file: Seq<char>)
    ensures
        is_bare_name(file) <==> file.len() > 0 && !file.contains('/') && file != ".."@,
{
}

/// Whoever looks for an id is given an entry with that id, the first there is, and
/// nothing exactly when no entry has it or it is no id.
pub proof fn law_what_is_found_has_the_id(
    entries: Seq<LogEntry>,
    id: Seq<char>,
    r: Option<LogEntry>,
)
    requires
        finds(entries, id, r),
    ensures
        r is Some <==> parsed_id(id) is Some && exists|j: int|
            0 <= j < entries.len() && (#[trigger] entries[j]).id@ == id,
        r matches Some(e) ==> e.id@ == id && entries.contains(e),
{
    if let Some(e) = r {
        let at = choose|at: int| #[trigger] first_with_id(entries, id, at) && e == entries[at];
        assert(entries[at].id@ == id);
    }
}

/// Behind its source the id of a line has the first twelve bytes of the digest of its
/// source, instant and message, so two lines with the same id agree in those bytes.
pub proof fn law_a_line_id_ends_with_its_digest(source: Seq<char>, ts: Timestamp, message: Seq<char>)
    ensures
        b64url_text(sha256(line_bytes(source, ts, message)).subrange(0, 12)).is_suffix_of(
            line_id(source, ts, message),
        ),
        encode_utf8(source).is_prefix_of(line_bytes(source, ts, message)),
        encode_utf8(message).is_suffix_of(line_bytes(source, ts, message)),
{
    let d = sha256(line_bytes(source, ts, message));
    let id = line_id(source, ts, message);
    let key = b64url_text(d.take(12));
    assert(d.take(12) == d.subrange(0, 12));
    assert(id.subrange(id.len() - key.len(), id.len() as int) =~= key);
    let bytes = line_bytes(source, ts, message);
    let front = encode_utf8(source);
    let back = encode_utf8(message);
    assert(bytes.take(front.len() as int) =~= front);
    assert(bytes.subrange(bytes.len() - back.len(), bytes.len() as int) =~= back);
}

} // verus!
