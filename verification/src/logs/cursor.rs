//! The cursor with which a reader of host log files comes back for more.
//!
//! A cursor says, for every source, up to which byte it has been read, and under
//! which boot it was given out. A byte position in a file that only grows stays
//! good across a reboot; the boot count serves to void positions in files that a
//! reboot wipes. On the wire a cursor is an opaque token.

use crate::json::{
    field, json_bytes, json_of, json_parsed, keys_in, member, members_of, new_object, object_value,
    put, read_json, unsigned_in, unsigned_value, write_json, Json,
};
use crate::outside::{b64url, b64url_bytes, b64url_decode, b64url_text};
use crate::text::same_text;
use serde_json::Value;
use vstd::prelude::*;

verus! {

/// Where reading a source resumes.
#[derive(Debug, Clone, Copy, PartialEq, Eq, Structural)]
pub struct SourcePos {
    /// The rotation of the file; 0 is the file that is being written.
    pub gen: u64,
    /// The byte to resume at.
    pub offset: u64,
}

/// The positions that a list of entries gives: a later entry displaces an
/// earlier one of the same name.
pub open spec fn positions(entries: Seq<(String, SourcePos)>) -> Map<Seq<char>, SourcePos>
    decreases entries.len(),
{
    if entries.len() == 0 {
        Map::empty()
    } else {
        positions(entries.drop_last()).insert(entries.last().0@, entries.last().1)
    }
}

proof fn lemma_positions_prefix(entries: Seq<(String, SourcePos)>, n: int, name: Seq<char>)
    requires
        0 <= n <= entries.len(),
        forall|j: int| n <= j < entries.len() ==> (#[trigger] entries[j]).0@ != name,
    ensures
        positions(entries).contains_key(name) == positions(entries.take(n)).contains_key(name),
        positions(entries).contains_key(name) ==> positions(entries)[name] == positions(
            entries.take(n),
        )[name],
    decreases entries.len(),
{
    if n == entries.len() {
        assert(entries.take(n) =~= entries);
    } else {
        let shorter = entries.drop_last();
        assert(entries[entries.len() - 1].0@ != name);
        assert forall|j: int| n <= j < shorter.len() implies (#[trigger] shorter[j]).0@ != name by {
            assert(shorter[j] == entries[j]);
        }
        lemma_positions_prefix(shorter, n, name);
        assert(shorter.take(n) =~= entries.take(n));
    }
}

proof fn lemma_positions_names(entries: Seq<(String, SourcePos)>, name: Seq<char>)
    ensures
        positions(entries).contains_key(name) <==> exists|i: int|
            0 <= i < entries.len() && (#[trigger] entries[i]).0@ == name,
    decreases entries.len(),
{
    if entries.len() > 0 {
        let shorter = entries.drop_last();
        lemma_positions_names(shorter, name);
        if positions(shorter).contains_key(name) {
            let i = choose|i: int| 0 <= i < shorter.len() && (#[trigger] shorter[i]).0@ == name;
            assert(entries[i].0@ == name);
        }
        if exists|i: int| 0 <= i < entries.len() && (#[trigger] entries[i]).0@ == name {
            let i = choose|i: int| 0 <= i < entries.len() && (#[trigger] entries[i]).0@ == name;
            if i < shorter.len() {
                assert(shorter[i].0@ == name);
            }
        }
        if entries.last().0@ == name {
            assert(entries[entries.len() - 1].0@ == name);
        }
    }
}

/// Positions by the name of the source.
#[derive(Debug, Clone)]
pub struct SourceMap {
    entries: Vec<(String, SourcePos)>,
}

impl View for SourceMap {
    type V = Map<Seq<char>, SourcePos>;

    closed spec fn view(&self) -> Map<Seq<char>, SourcePos> {
        positions(self.entries@)
    }
}

impl SourceMap {
    /// No positions.
    pub fn new() -> (m: SourceMap)
        ensures
            m@ == Map::<Seq<char>, SourcePos>::empty(),
    {
        SourceMap { entries: Vec::new() }
    }

    /// Sets the position of a source.
    pub fn insert(&mut self, name: &str, pos: SourcePos)
        ensures
            final(self)@ == old(self)@.insert(name@, pos),
    {
        let ghost before = self.entries@;
        self.entries.push((name.to_owned(), pos));
        assert(self.entries@.drop_last() =~= before);
    }

    /// The position of a source.
    pub fn get(&self, name: &str) -> (r: Option<SourcePos>)
        ensures
            match r {
                Some(pos) => self@.contains_key(name@) && self@[name@] == pos,
                None => !self@.contains_key(name@),
            },
    {
        let mut i: usize = self.entries.len();
        while i > 0
            invariant
                i <= self.entries@.len(),
                forall|j: int| i <= j < self.entries@.len() ==> (#[trigger] self.entries@[j]).0@ != name@,
            decreases i,
        {
            if same_text(self.entries[i - 1].0.as_str(), name) {
                proof {
                    lemma_positions_prefix(self.entries@, i as int, name@);
                    let upto = self.entries@.take(i as int);
                    assert(upto.last() == self.entries@[i - 1]);
                }
                return Some(self.entries[i - 1].1);
            }
            i -= 1;
        }
        proof {
            lemma_positions_prefix(self.entries@, 0, name@);
            assert(self.entries@.take(0) =~= Seq::empty());
        }
        None
    }

    /// Takes over the position of every source that has none here.
    pub fn fill_in(&mut self, other: &SourceMap)
        ensures
            final(self)@ == other@.union_prefer_right(old(self)@),
    {
        let ghost before = self@;
        let mut i: usize = 0;
        while i < other.entries.len()
            invariant
                i <= other.entries@.len(),
                before == old(self)@,
                forall|k: Seq<char>| #[trigger] self@.contains_key(k) <==> before.contains_key(k)
                    || positions(other.entries@.take(i as int)).contains_key(k),
                forall|k: Seq<char>| #[trigger] self@.contains_key(k) ==> self@[k] == if before.contains_key(
                    k,
                ) {
                    before[k]
                } else {
                    positions(other.entries@)[k]
                },
            decreases other.entries@.len() - i,
        {
            let name = other.entries[i].0.as_str();
            proof {
                let upto = other.entries@.take(i as int + 1);
                assert(upto.drop_last() =~= other.entries@.take(i as int));
                assert(upto.last() == other.entries@[i as int]);
                lemma_positions_names(other.entries@, name@);
                assert(other.entries@[i as int].0@ == name@);
            }
            if self.get(name).is_none() {
                if let Some(pos) = other.get(name) {
                    self.insert(name, pos);
                }
            }
            i += 1;
        }
        proof {
            assert(other.entries@.take(i as int) =~= other.entries@);
            assert(self@ =~= other@.union_prefer_right(before));
        }
    }

    /// Every source here stands at the same position there.
    fn agrees_with(&self, other: &SourceMap) -> (r: bool)
        ensures
            r == (forall|k: Seq<char>| #[trigger]
                self@.contains_key(k) ==> other@.contains_key(k) && other@[k] == self@[k]),
    {
        let mut i: usize = 0;
        while i < self.entries.len()
            invariant
                i <= self.entries@.len(),
                forall|j: int|
                    0 <= j < i ==> {
                        let k = (#[trigger] self.entries@[j]).0@;
                        self@.contains_key(k) && other@.contains_key(k) && other@[k] == self@[k]
                    },
            decreases self.entries@.len() - i,
        {
            let name = self.entries[i].0.as_str();
            let ghost k = name@;
            proof {
                lemma_positions_names(self.entries@, k);
                assert(self.entries@[i as int].0@ == k);
            }
            let mine = self.get(name);
            let theirs = other.get(name);
            match (mine, theirs) {
                (Some(a), Some(b)) => {
                    if !(a == b) {
                        return false;
                    }
                },
                _ => {
                    return false;
                },
            }
            i += 1;
        }
        proof {
            assert forall|k: Seq<char>| #[trigger] self@.contains_key(k) implies other@.contains_key(k)
                && other@[k] == self@[k] by {
                lemma_positions_names(self.entries@, k);
                let j = choose|j: int|
                    0 <= j < self.entries@.len() && (#[trigger] self.entries@[j]).0@ == k;
                assert(self.entries@[j].0@ == k);
            }
        }
        true
    }

    /// Whether two give every source the same position.
    pub fn same(&self, other: &SourceMap) -> (r: bool)
        ensures
            r == (self@ == other@),
    {
        let r = self.agrees_with(other) && other.agrees_with(self);
        proof {
            if r {
                assert(self@ =~= other@);
            }
        }
        r
    }
}

/// A cursor.
#[derive(Debug, Clone)]
pub struct LogCursor {
    /// The boot under which the cursor was given out.
    pub boot_epoch: u64,
    /// Where reading each source resumes.
    pub sources: SourceMap,
}

/// What a cursor says.
pub struct CursorView {
    pub boot_epoch: u64,
    pub sources: Map<Seq<char>, SourcePos>,
}

impl View for LogCursor {
    type V = CursorView;

    open spec fn view(&self) -> CursorView {
        CursorView { boot_epoch: self.boot_epoch, sources: self.sources@ }
    }
}

/// A position as JSON.
pub open spec fn pos_json(p: SourcePos) -> Json {
    Json::Object(
        Map::empty().insert("g"@, Json::Unsigned(p.gen)).insert("o"@, Json::Unsigned(p.offset)),
    )
}

/// A cursor as JSON.
pub open spec fn cursor_json(c: CursorView) -> Json {
    Json::Object(
        Map::empty().insert("b"@, Json::Unsigned(c.boot_epoch)).insert(
            "s"@,
            Json::Object(c.sources.map_values(|p: SourcePos| pos_json(p))),
        ),
    )
}

/// The token of a cursor: its JSON in URL-safe base64.
pub open spec fn cursor_token(c: CursorView) -> Seq<char> {
    b64url_text(json_bytes(cursor_json(c)))
}

/// The position that a JSON value gives, if it gives one: a rotation and a byte.
pub open spec fn pos_in_json(j: Json) -> Option<SourcePos> {
    match (j.field("g"@, 0, 2), j.field("o"@, 1, 2)) {
        (Some(g), Some(o)) => match (g.unsigned(), o.unsigned()) {
            (Some(gen), Some(offset)) => Some(SourcePos { gen, offset }),
            _ => None,
        },
        _ => None,
    }
}

/// The cursor that a JSON value gives, if it gives one: a boot count, and a
/// position for every source.
pub open spec fn cursor_in_json(j: Json) -> Option<CursorView> {
    match (j.field("b"@, 0, 2), j.field("s"@, 1, 2)) {
        (Some(b), Some(Json::Object(m))) => if b.unsigned() is Some && forall|k: Seq<char>|
            #[trigger] m.contains_key(k) ==> pos_in_json(m[k]) is Some {
            Some(
                CursorView {
                    boot_epoch: b.unsigned()->0,
                    sources: m.map_values(|v: Json| pos_in_json(v)->0),
                },
            )
        } else {
            None
        },
        _ => None,
    }
}

/// The cursor that a token stands for, if it stands for one.
pub open spec fn cursor_of(token: Seq<char>) -> Option<CursorView> {
    match b64url_bytes(token) {
        Some(bytes) => match json_parsed(bytes) {
            Some(j) => cursor_in_json(j),
            None => None,
        },
        None => None,
    }
}

/// The keys of a cursor's JSON differ.
proof fn lemma_keys()
    ensures
        "b"@ != "s"@,
        "g"@ != "o"@,
{
    reveal_strlit("b");
    reveal_strlit("s");
    reveal_strlit("g");
    reveal_strlit("o");
    assert("b"@[0] == 'b' && "s"@[0] == 's' && "g"@[0] == 'g' && "o"@[0] == 'o');
}

/// A cursor's JSON gives the cursor.
proof fn lemma_cursor_in_its_json(c: CursorView)
    ensures
        cursor_in_json(cursor_json(c)) == Some(c),
        cursor_json(c).plain_to(100),
{
    lemma_keys();
    let m = c.sources.map_values(|p: SourcePos| pos_json(p));
    assert forall|k: Seq<char>| #[trigger] m.contains_key(k) implies pos_in_json(m[k]) == Some(
        c.sources[k],
    ) && m[k].plain_to(98) by {
        assert(m[k] == pos_json(c.sources[k]));
        reveal_with_fuel(Json::plain_to, 2);
    }
    assert(m.map_values(|v: Json| pos_in_json(v)->0) =~= c.sources);
    reveal_with_fuel(Json::plain_to, 3);
    assert(Json::Object(m).plain_to(99));
}

fn pos_value(p: SourcePos) -> (v: Value)
    ensures
        json_of(v) == pos_json(p),
{
    let mut m = new_object();
    put(&mut m, "g", unsigned_value(p.gen));
    put(&mut m, "o", unsigned_value(p.offset));
    object_value(m)
}

fn pos_in(v: &Value) -> (r: Option<SourcePos>)
    ensures
        r == pos_in_json(json_of(*v)),
{
    match (field(v, "g", 0, 2), field(v, "o", 1, 2)) {
        (Some(g), Some(o)) => match (unsigned_in(g), unsigned_in(o)) {
            (Some(gen), Some(offset)) => Some(SourcePos { gen, offset }),
            _ => None,
        },
        _ => None,
    }
}

impl LogCursor {
    /// The token of this cursor. A reader who hands the token back is understood:
    /// it stands for this cursor.
    pub fn encode(&self) -> (r: String)
        ensures
            r@ == cursor_token(self@),
            cursor_of(r@) == Some(self@),
    {
        let mut m = new_object();
        let entries = &self.sources.entries;
        let mut i: usize = 0;
        assert(positions(entries@.take(0)) =~= Map::empty());
        assert(members_of(m) =~= positions(entries@.take(0)).map_values(
            |p: SourcePos| pos_json(p),
        ));
        while i < entries.len()
            invariant
                i <= entries@.len(),
                members_of(m) == positions(entries@.take(i as int)).map_values(
                    |p: SourcePos| pos_json(p),
                ),
            decreases entries@.len() - i,
        {
            let ghost before = entries@.take(i as int);
            let ghost upto = entries@.take(i as int + 1);
            put(&mut m, entries[i].0.as_str(), pos_value(entries[i].1));
            proof {
                assert(upto.drop_last() =~= before);
                assert(upto.last() == entries@[i as int]);
                assert(members_of(m) =~= positions(upto).map_values(|p: SourcePos| pos_json(p)));
            }
            i += 1;
        }
        assert(entries@.take(i as int) =~= entries@);
        let mut top = new_object();
        put(&mut top, "b", unsigned_value(self.boot_epoch));
        put(&mut top, "s", object_value(m));
        let v = object_value(top);
        proof {
            lemma_cursor_in_its_json(self@);
            assert(json_of(v) == cursor_json(self@));
        }
        let bytes = write_json(&v);
        b64url(bytes.as_slice())
    }

    /// The cursor that a token stands for. A token that stands for none is no
    /// error: the reader starts from the oldest entry.
    pub fn decode(token: &str) -> (r: Option<LogCursor>)
        ensures
            match r {
                Some(c) => cursor_of(token@) == Some(c@),
                None => cursor_of(token@) is None,
            },
    {
        let bytes = match b64url_decode(token) {
            Some(b) => b,
            None => {
                return None;
            },
        };
        let v = match read_json(bytes.as_slice()) {
            Some(v) => v,
            None => {
                return None;
            },
        };
        let (b, s) = match (field(&v, "b", 0, 2), field(&v, "s", 1, 2)) {
            (Some(b), Some(s)) => (b, s),
            _ => {
                return None;
            },
        };
        let boot_epoch: u64 = match unsigned_in(b) {
            Some(n) => n,
            None => {
                return None;
            },
        };
        let keys = match keys_in(s) {
            Some(k) => k,
            None => {
                return None;
            },
        };
        let ghost m = json_of(*s)->Object_0;
        let mut sources = SourceMap::new();
        let mut i: usize = 0;
        while i < keys.len()
            invariant
                i <= keys@.len(),
                json_of(*s) == Json::Object(m),
                forall|k: Seq<char>|
                    #[trigger] m.contains_key(k) <==> exists|j: int|
                        0 <= j < keys@.len() && (#[trigger] keys@[j])@ == k,
                forall|k: Seq<char>| #[trigger] sources@.contains_key(k) ==> m.contains_key(k)
                    && pos_in_json(m[k]) == Some(sources@[k]),
                forall|j: int| 0 <= j < i ==> sources@.contains_key((#[trigger] keys@[j])@),
                cursor_of(token@) == cursor_in_json(json_of(v)),
                json_of(v).field("b"@, 0, 2) == Some(json_of(*b)),
                json_of(v).field("s"@, 1, 2) == Some(json_of(*s)),
                json_of(*b).unsigned() == Some(boot_epoch),
            decreases keys@.len() - i,
        {
            let key = keys[i].as_str();
            assert(m.contains_key(keys@[i as int]@));
            match member(s, key) {
                Some(item) => match pos_in(item) {
                    Some(pos) => {
                        sources.insert(key, pos);
                    },
                    None => {
                        return None;
                    },
                },
                None => {
                    return None;
                },
            }
            i += 1;
        }
        proof {
            assert forall|k: Seq<char>| #[trigger] m.contains_key(k) implies sources@.contains_key(
                k,
            ) && pos_in_json(m[k]) is Some by {
                let j = choose|j: int| 0 <= j < keys@.len() && (#[trigger] keys@[j])@ == k;
                assert(sources@.contains_key(keys@[j]@));
            }
            assert(sources@ =~= m.map_values(|v: Json| pos_in_json(v)->0));
        }
        Some(LogCursor { boot_epoch, sources })
    }
}

impl PartialEq for LogCursor {
    fn eq(&self, other: &LogCursor) -> (r: bool) {
        self.boot_epoch == other.boot_epoch && self.sources.same(&other.sources)
    }
}

impl vstd::std_specs::cmp::PartialEqSpecImpl for LogCursor {
    open spec fn obeys_eq_spec() -> bool {
        true
    }

    open spec fn eq_spec(&self, other: &LogCursor) -> bool {
        self@ == other@
    }
}

/// A cursor is written with its boot under `b` and its sources under `s`, and each
/// position with its rotation under `g` and its byte under `o`.
pub proof fn law_a_cursor_is_written_by_its_keys(c: CursorView, source: Seq<char>)
    ensures
        cursor_json(c).member("b"@) == Some(Json::Unsigned(c.boot_epoch)),
        cursor_json(c).member("s"@) matches Some(Json::Object(_)),
        c.sources.contains_key(source) ==> (cursor_json(c).member("s"@)->0.member(source)
            matches Some(p) && p.member("g"@) == Some(Json::Unsigned(c.sources[source].gen))
            && p.member("o"@) == Some(Json::Unsigned(c.sources[source].offset))),
        !c.sources.contains_key(source) ==> cursor_json(c).member("s"@)->0.member(source) is None,
{
    lemma_keys();
    let m = c.sources.map_values(|p: SourcePos| pos_json(p));
    assert(cursor_json(c).member("s"@) == Some(Json::Object(m)));
    if c.sources.contains_key(source) {
        assert(m[source] == pos_json(c.sources[source]));
    }
}

/// What is written of a cursor is read as that cursor, and of nothing but a cursor.
pub proof fn law_a_cursor_is_read_as_written(a: CursorView, b: CursorView)
    ensures
        cursor_in_json(cursor_json(a)) == Some(a),
        cursor_json(a) == cursor_json(b) ==> a == b,
        cursor_in_json(Json::Null) is None,
{
    lemma_cursor_in_its_json(a);
    lemma_cursor_in_its_json(b);
}

} // verus!
